//! Canonical byte encoding of key tuples. The layout is the one that
//! bincode's default configuration gives a `Vec` of cells: a `u64` count,
//! then per cell a `u32` variant tag followed by the `i32`, or by a `u64`
//! byte length and the UTF-8 bytes; all integers little-endian.
use crate::db_type::{DbType, DbValue};
use vstd::prelude::*;

verus! {

pub open spec fn u32_le(x: u32) -> Seq<u8> {
    seq![x as u8, (x >> 8u32) as u8, (x >> 16u32) as u8, (x >> 24u32) as u8]
}

pub open spec fn u64_le(x: u64) -> Seq<u8> {
    u32_le(x as u32) + u32_le((x >> 32u64) as u32)
}

/// The encoding of one cell.
pub open spec fn value_bytes(v: DbValue) -> Seq<u8> {
    match v {
        DbValue::Int(i) => u32_le(0) + u32_le(i as u32),
        DbValue::Text(s) => {
            let b = vstd::utf8::encode_utf8(s);
            u32_le(1) + u64_le(b.len() as u64) + b
        },
    }
}

/// The encodings of the cells, one after the other.
pub open spec fn values_bytes(vs: Seq<DbValue>) -> Seq<u8>
    decreases vs.len(),
{
    if vs.len() == 0 {
        Seq::empty()
    } else {
        values_bytes(vs.drop_last()) + value_bytes(vs.last())
    }
}

/// The encoding of a key tuple: its length, then its cells.
pub open spec fn key_bytes(vs: Seq<DbValue>) -> Seq<u8> {
    u64_le(vs.len() as u64) + values_bytes(vs)
}

/// The cell views of a slice of cells.
pub open spec fn cells_view(vs: Seq<DbType>) -> Seq<DbValue> {
    vs.map_values(|v: DbType| v@)
}

fn push_u32(out: &mut Vec<u8>, x: u32)
    ensures
        final(out)@ == old(out)@ + u32_le(x),
{
    out.push(#[verifier::truncate] (x as u8));
    out.push(#[verifier::truncate] ((x >> 8u32) as u8));
    out.push(#[verifier::truncate] ((x >> 16u32) as u8));
    out.push(#[verifier::truncate] ((x >> 24u32) as u8));
    assert(final(out)@ =~= old(out)@ + u32_le(x));
}

fn push_u64(out: &mut Vec<u8>, x: u64)
    ensures
        final(out)@ == old(out)@ + u64_le(x),
{
    push_u32(out, #[verifier::truncate] (x as u32));
    push_u32(out, #[verifier::truncate] ((x >> 32u64) as u32));
    assert(final(out)@ =~= old(out)@ + u64_le(x));
}

fn push_value(out: &mut Vec<u8>, v: &DbType)
    ensures
        final(out)@ == old(out)@ + value_bytes(v@),
{
    match v {
        DbType::Int(i) => {
            push_u32(out, 0);
            push_u32(out, #[verifier::truncate] (*i as u32));
            assert(final(out)@ =~= old(out)@ + value_bytes(v@));
        },
        DbType::Text(s) => {
            let b = s.as_str().as_bytes();
            push_u32(out, 1);
            push_u64(out, #[verifier::truncate] (b.len() as u64));
            let ghost before = out@;
            let mut i: usize = 0;
            while i < b.len()
                invariant
                    i <= b@.len(),
                    out@ == before + b@.subrange(0, i as int),
                decreases b.len() - i,
            {
                out.push(b[i]);
                i = i + 1;
                assert(out@ =~= before + b@.subrange(0, i as int));
            }
            assert(b@.subrange(0, b@.len() as int) =~= b@);
            assert(final(out)@ =~= old(out)@ + value_bytes(v@));
        },
    }
}

/// The canonical encoding of a key tuple.
pub fn encode_key(key: &[DbType]) -> (r: Vec<u8>)
    ensures
        r@ == key_bytes(cells_view(key@)),
{
    let mut out: Vec<u8> = Vec::new();
    push_u64(&mut out, #[verifier::truncate] (key.len() as u64));
    let ghost head = out@;
    let mut i: usize = 0;
    while i < key.len()
        invariant
            i <= key@.len(),
            out@ == head + values_bytes(cells_view(key@.subrange(0, i as int))),
        decreases key.len() - i,
    {
        push_value(&mut out, &key[i]);
        proof {
            let s = cells_view(key@.subrange(0, i + 1));
            assert(s.drop_last() =~= cells_view(key@.subrange(0, i as int)));
            assert(s.last() == key@[i as int]@);
        }
        i = i + 1;
        assert(out@ =~= head + values_bytes(cells_view(key@.subrange(0, i as int))));
    }
    assert(key@.subrange(0, key@.len() as int) =~= key@);
    out
}

} // verus!
