//! Cell values and their comparison rules.
use vstd::prelude::*;

verus! {

/// A cell of a table: a 32-bit signed integer or a text.
#[derive(Clone, Debug)]
pub enum DbType {
    Int(i32),
    Text(String),
}

/// The mathematical content of a cell.
pub enum DbValue {
    Int(i32),
    Text(Seq<char>),
}

impl View for DbType {
    type V = DbValue;

    open spec fn view(&self) -> DbValue {
        match self {
            DbType::Int(i) => DbValue::Int(*i),
            DbType::Text(s) => DbValue::Text(s@),
        }
    }
}

/// Two values have the same variant (both integers or both texts).
pub open spec fn same_variant(a: DbValue, b: DbValue) -> bool {
    match (a, b) {
        (DbValue::Int(_), DbValue::Int(_)) => true,
        (DbValue::Text(_), DbValue::Text(_)) => true,
        _ => false,
    }
}

/// Lexicographic order on byte strings: a proper prefix comes first.
pub open spec fn bytes_less(a: Seq<u8>, b: Seq<u8>) -> bool
    decreases a.len(),
{
    if a.len() == 0 {
        b.len() > 0
    } else if b.len() == 0 {
        false
    } else if a[0] != b[0] {
        a[0] < b[0]
    } else {
        bytes_less(a.drop_first(), b.drop_first())
    }
}

/// Order on texts: that of their UTF-8 encodings, which is also the order
/// of their code points.
pub open spec fn text_less(a: Seq<char>, b: Seq<char>) -> bool {
    bytes_less(vstd::utf8::encode_utf8(a), vstd::utf8::encode_utf8(b))
}

/// The strict order on values. Values of different variants are never
/// ordered.
pub open spec fn value_less(a: DbValue, b: DbValue) -> bool {
    match (a, b) {
        (DbValue::Int(x), DbValue::Int(y)) => x < y,
        (DbValue::Text(s), DbValue::Text(t)) => text_less(s, t),
        _ => false,
    }
}

fn bytes_lt(a: &[u8], b: &[u8]) -> (r: bool)
    ensures
        r == bytes_less(a@, b@),
{
    let mut i: usize = 0;
    assert(a@.subrange(0, a@.len() as int) =~= a@);
    assert(b@.subrange(0, b@.len() as int) =~= b@);
    while i < a.len() && i < b.len()
        invariant
            i <= a.len(),
            i <= b.len(),
            bytes_less(a@, b@) == bytes_less(
                a@.subrange(i as int, a@.len() as int),
                b@.subrange(i as int, b@.len() as int),
            ),
        decreases a.len() - i,
    {
        if a[i] != b[i] {
            return a[i] < b[i];
        }
        assert(a@.subrange(i as int, a@.len() as int).drop_first() =~= a@.subrange(
            i + 1,
            a@.len() as int,
        ));
        assert(b@.subrange(i as int, b@.len() as int).drop_first() =~= b@.subrange(
            i + 1,
            b@.len() as int,
        ));
        i = i + 1;
    }
    a.len() < b.len()
}

impl DbType {
    /// Equality of cells: same variant and same content.
    pub fn equals(&self, other: &DbType) -> (r: bool)
        ensures
            r == (self@ == other@),
    {
        match (self, other) {
            (DbType::Int(x), DbType::Int(y)) => *x == *y,
            (DbType::Text(s), DbType::Text(t)) => s.eq(t),
            _ => false,
        }
    }

    /// Strict order of cells; false across variants.
    pub fn less_than(&self, other: &DbType) -> (r: bool)
        ensures
            r == value_less(self@, other@),
    {
        match (self, other) {
            (DbType::Int(x), DbType::Int(y)) => *x < *y,
            (DbType::Text(s), DbType::Text(t)) => bytes_lt(s.as_str().as_bytes(), t.as_str().as_bytes()),
            _ => false,
        }
    }

    /// Whether both cells hold the same variant.
    pub fn same_variant_as(&self, other: &DbType) -> (r: bool)
        ensures
            r == same_variant(self@, other@),
    {
        match (self, other) {
            (DbType::Int(_), DbType::Int(_)) => true,
            (DbType::Text(_), DbType::Text(_)) => true,
            _ => false,
        }
    }

    /// A copy of the cell.
    pub fn clone_value(&self) -> (r: DbType)
        ensures
            r@ == self@,
    {
        match self {
            DbType::Int(x) => DbType::Int(*x),
            DbType::Text(s) => DbType::Text(s.clone()),
        }
    }
}

impl PartialEq for DbType {
    fn eq(&self, other: &DbType) -> (r: bool) {
        self.equals(other)
    }
}

impl vstd::std_specs::cmp::PartialEqSpecImpl for DbType {
    open spec fn obeys_eq_spec() -> bool {
        true
    }

    open spec fn eq_spec(&self, other: &DbType) -> bool {
        self@ == other@
    }
}

impl Eq for DbType {
}

} // verus!
