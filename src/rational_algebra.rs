//! The relational operators: projection, selection, equi-join, distinct.
pub mod helper_functions;
pub mod projection;
pub mod selection;
pub mod distinct;
pub mod join;
