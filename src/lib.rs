//! An in-process tabular data engine: typed tables, a small set of
//! relational operators, and primary-key enforcement through a Bloom filter.
pub mod db_type;
pub mod murmur3_32;
pub mod encoding;
pub mod bloom_filter;
pub mod table_row;
pub mod condition;
pub mod relation;
pub mod query_result;
pub mod rational_algebra;
pub mod metadata;
pub mod table_struct;
