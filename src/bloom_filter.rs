//! A Bloom filter over byte strings: approximate membership with no false
//! negatives. Positions come from Kirsch-Mitzenmacher double hashing of
//! two 32-bit hashes of the item's bytes.
use vstd::prelude::*;
use vstd::arithmetic::div_mod::{lemma_add_mod_noop, lemma_mod_sub_multiples_vanish, lemma_small_mod};
use vstd::wrapping::u32_specs::wrapping_mul;

verus! {

/// What the murmur3 crate's `murmur3_32` returns for these bytes and seed.
pub uninterp spec fn murmur3_crate_hash(bytes: Seq<u8>, seed: u32) -> u32;

/// Relies on murmur3::murmur3_32: it reads the whole source and returns the
/// same hash for the same bytes and seed. Reading from a byte slice never
/// fails. The crate counts the bytes in a `u32`, hence the bound on length.
#[verifier::external_body]
fn murmur3_of_bytes(bytes: &[u8], seed: u32) -> (h: u32)
    requires
        bytes@.len() <= u32::MAX,
    ensures
        h == murmur3_crate_hash(bytes@, seed),
{
    let mut source: &[u8] = bytes;
    murmur3::murmur3_32(&mut source, seed).unwrap()
}

pub const FNV_OFFSET_BASIS: u32 = 0x811c9dc5;

pub const FNV_PRIME: u32 = 0x01000193;

/// FNV-1a, 32 bits: xor each byte in, then multiply by the prime.
pub open spec fn fnv1a_32_spec(bytes: Seq<u8>) -> u32
    decreases bytes.len(),
{
    if bytes.len() == 0 {
        FNV_OFFSET_BASIS
    } else {
        wrapping_mul(fnv1a_32_spec(bytes.drop_last()) ^ (bytes.last() as u32), FNV_PRIME)
    }
}

/// The `i`-th probe position: `(h1 + i * h2) mod m`.
pub open spec fn probe(h1: u32, h2: u32, i: int, m: int) -> int {
    (h1 + i * h2) % m
}

/// The `k` positions that an item sets in a filter of `m` bits.
pub open spec fn item_positions(item: Seq<u8>, k: nat, m: nat) -> Seq<int> {
    Seq::new(
        k,
        |i: int| probe(murmur3_crate_hash(item, 0), fnv1a_32_spec(item), i, m as int),
    )
}

/// The abstract state of a filter: its bits and its number of probes.
pub struct BloomView {
    pub bits: Seq<bool>,
    pub num_hashes: nat,
}

impl BloomView {
    pub open spec fn positions(self, item: Seq<u8>) -> Seq<int> {
        item_positions(item, self.num_hashes, self.bits.len())
    }

    /// Every probe position of `item` is set.
    pub open spec fn may_contain(self, item: Seq<u8>) -> bool {
        forall|i: int| 0 <= i < self.num_hashes ==> #[trigger] self.bits[self.positions(item)[i]]
    }

    /// The filter after `item` is added: its probe positions are set.
    pub open spec fn with_item(self, item: Seq<u8>) -> BloomView {
        BloomView {
            bits: Seq::new(
                self.bits.len(),
                |j: int| self.bits[j] || self.positions(item).contains(j),
            ),
            num_hashes: self.num_hashes,
        }
    }

    /// The filter after each of `items` is added, in order.
    pub open spec fn with_items(self, items: Seq<Seq<u8>>) -> BloomView
        decreases items.len(),
    {
        if items.len() == 0 {
            self
        } else {
            self.with_items(items.drop_last()).with_item(items.last())
        }
    }
}

/// Every probe position lies inside the filter.
pub proof fn lemma_positions_in_range(f: BloomView, item: Seq<u8>, i: int)
    requires
        f.bits.len() > 0,
        0 <= i < f.num_hashes,
    ensures
        0 <= f.positions(item)[i] < f.bits.len(),
{
    let h1 = murmur3_crate_hash(item, 0);
    let h2 = fnv1a_32_spec(item);
    assert(f.positions(item)[i] == probe(h1, h2, i, f.bits.len() as int));
}

/// Adding an item only sets bits: whatever the filter may hold before, it
/// may still hold after.
pub proof fn lemma_add_keeps_members(f: BloomView, x: Seq<u8>, y: Seq<u8>)
    requires
        f.bits.len() > 0,
        f.may_contain(x),
    ensures
        f.with_item(y).may_contain(x),
{
    let g = f.with_item(y);
    assert forall|i: int| 0 <= i < g.num_hashes implies #[trigger] g.bits[g.positions(x)[i]] by {
        lemma_positions_in_range(f, x, i);
        assert(f.bits[f.positions(x)[i]]);
    }
}

/// Adding items keeps the number of bits and of probes.
pub proof fn lemma_with_items_shape(f: BloomView, items: Seq<Seq<u8>>)
    ensures
        f.with_items(items).bits.len() == f.bits.len(),
        f.with_items(items).num_hashes == f.num_hashes,
    decreases items.len(),
{
    if items.len() > 0 {
        lemma_with_items_shape(f, items.drop_last());
    }
}

/// No false negatives: once an item is added, the filter reports it as
/// present, and keeps doing so however many items are added after it.
pub proof fn lemma_no_false_negatives(f: BloomView, item: Seq<u8>, later: Seq<Seq<u8>>)
    requires
        f.bits.len() > 0,
    ensures
        f.with_item(item).may_contain(item),
        f.with_item(item).with_items(later).may_contain(item),
    decreases later.len(),
{
    let g = f.with_item(item);
    assert forall|i: int| 0 <= i < g.num_hashes implies #[trigger] g.bits[g.positions(item)[i]] by {
        lemma_positions_in_range(f, item, i);
        assert(f.positions(item).contains(f.positions(item)[i]));
    }
    if later.len() > 0 {
        lemma_no_false_negatives(f, item, later.drop_last());
        lemma_with_items_shape(g, later.drop_last());
        lemma_add_keeps_members(g.with_items(later.drop_last()), item, later.last());
    }
}

/// The first `k` probe positions `(h1 + i * h2) mod m` of double hashing.
pub fn probe_positions(h1: u32, h2: u32, k: usize, m: usize) -> (r: Vec<usize>)
    requires
        m > 0,
    ensures
        r@.len() == k,
        forall|i: int| 0 <= i < k ==> #[trigger] r@[i] as int == probe(h1, h2, i, m as int),
{
    let step = (h2 as usize) % m;
    let mut pos = (h1 as usize) % m;
    let mut bit_position: Vec<usize> = Vec::new();
    let mut i: usize = 0;
    while i < k
        invariant
            m > 0,
            step as int == (h2 as int) % (m as int),
            i <= k,
            pos < m,
            pos as int == probe(h1, h2, i as int, m as int),
            bit_position@.len() == i,
            forall|j: int| 0 <= j < i ==> #[trigger] bit_position@[j] as int == probe(h1, h2, j, m as int),
        decreases k - i,
    {
        bit_position.push(pos);
        proof {
            lemma_add_mod_noop(h1 + i * h2, h2 as int, m as int);
            assert((h1 + i * h2) + h2 == h1 + (i + 1) * h2) by (nonlinear_arith);
            assert((h1 + i * h2) % (m as int) == pos);
        }
        let ghost old_pos = pos as int;
        if pos >= m - step {
            pos = pos - (m - step);
            proof {
                lemma_mod_sub_multiples_vanish(old_pos + step, m as int);
                lemma_small_mod(pos as nat, m as nat);
            }
        } else {
            pos = pos + step;
            proof {
                lemma_small_mod(pos as nat, m as nat);
            }
        }
        i = i + 1;
    }
    bit_position
}

pub struct BloomFilter {
    bit_vector: Vec<bool>,
    num_of_functions: usize,
}

impl View for BloomFilter {
    type V = BloomView;

    closed spec fn view(&self) -> BloomView {
        BloomView { bits: self.bit_vector@, num_hashes: self.num_of_functions as nat }
    }
}

impl BloomFilter {
    /// The filter holds at least one bit.
    pub open spec fn wf(&self) -> bool {
        self@.bits.len() > 0
    }

    /// An empty filter of `size` bits probed at `num_of_functions` positions
    /// per item.
    pub fn new(size: usize, num_of_functions: usize) -> (r: BloomFilter)
        requires
            size > 0,
        ensures
            r.wf(),
            r@.bits == Seq::new(size as nat, |j: int| false),
            r@.num_hashes == num_of_functions,
    {
        let mut bit_vector: Vec<bool> = Vec::new();
        let mut i: usize = 0;
        while i < size
            invariant
                i <= size,
                bit_vector@ == Seq::new(i as nat, |j: int| false),
            decreases size - i,
        {
            bit_vector.push(false);
            i = i + 1;
            assert(bit_vector@ =~= Seq::new(i as nat, |j: int| false));
        }
        BloomFilter { bit_vector, num_of_functions }
    }

    /// The number of bits.
    pub fn size(&self) -> (r: usize)
        ensures
            r == self@.bits.len(),
    {
        self.bit_vector.len()
    }

    /// The number of probe positions per item.
    pub fn num_of_functions(&self) -> (r: usize)
        ensures
            r == self@.num_hashes,
    {
        self.num_of_functions
    }

    /// The bits.
    pub fn bit_vector(&self) -> (r: &Vec<bool>)
        ensures
            r@ == self@.bits,
    {
        &self.bit_vector
    }

    /// The second, independent hash: FNV-1a over the item's bytes.
    pub fn fnv1a_32(key: &[u8]) -> (h: u32)
        ensures
            h == fnv1a_32_spec(key@),
    {
        let mut h: u32 = FNV_OFFSET_BASIS;
        let mut i: usize = 0;
        while i < key.len()
            invariant
                i <= key@.len(),
                h == fnv1a_32_spec(key@.subrange(0, i as int)),
            decreases key.len() - i,
        {
            proof {
                let s = key@.subrange(0, i + 1);
                assert(s.drop_last() =~= key@.subrange(0, i as int));
            }
            h = (h ^ (key[i] as u32)).wrapping_mul(FNV_PRIME);
            i = i + 1;
        }
        assert(key@.subrange(0, key@.len() as int) =~= key@);
        h
    }

    /// The probe positions of `item`, in order.
    pub fn hash(&self, item: &[u8]) -> (r: Vec<usize>)
        requires
            self.wf(),
            item@.len() <= u32::MAX,
        ensures
            r@.len() == self@.num_hashes,
            forall|i: int| 0 <= i < r@.len() ==> r@[i] as int == #[trigger] self@.positions(item@)[i],
    {
        let h1 = murmur3_of_bytes(item, 0);
        let h2 = Self::fnv1a_32(item);
        let r = probe_positions(h1, h2, self.num_of_functions, self.bit_vector.len());
        assert forall|i: int| 0 <= i < r@.len() implies r@[i] as int == #[trigger] self@.positions(item@)[i] by {
            assert(self@.positions(item@)[i] == probe(h1, h2, i, self@.bits.len() as int));
        }
        r
    }

    /// Sets every probe position of `item`.
    pub fn add(&mut self, item: &[u8])
        requires
            old(self).wf(),
            item@.len() <= u32::MAX,
        ensures
            final(self).wf(),
            final(self)@ == old(self)@.with_item(item@),
            final(self)@.may_contain(item@),
    {
        let positions = self.hash(item);
        let ghost start = self@;
        let ghost ps = self@.positions(item@);
        let mut i: usize = 0;
        while i < positions.len()
            invariant
                self.wf(),
                self@.num_hashes == start.num_hashes,
                self@.bits.len() == start.bits.len(),
                ps == start.positions(item@),
                positions@.len() == ps.len(),
                forall|j: int| 0 <= j < positions@.len() ==> positions@[j] as int == #[trigger] ps[j],
                i <= positions@.len(),
                forall|b: int|
                    0 <= b < start.bits.len() ==> #[trigger] self@.bits[b] == (start.bits[b]
                        || ps.subrange(0, i as int).contains(b)),
            decreases positions.len() - i,
        {
            let p = positions[i];
            proof {
                assert(ps[i as int] == p);
                assert(0 <= ps[i as int] < start.bits.len()) by {
                    let h1 = murmur3_crate_hash(item@, 0);
                    let h2 = fnv1a_32_spec(item@);
                    assert(ps[i as int] == probe(h1, h2, i as int, start.bits.len() as int));
                }
            }
            self.bit_vector.set(p, true);
            proof {
                let s0 = ps.subrange(0, i as int);
                let s1 = ps.subrange(0, i + 1);
                assert forall|b: int| 0 <= b < start.bits.len() implies #[trigger] self@.bits[b] == (
                start.bits[b] || s1.contains(b)) by {
                    if s0.contains(b) {
                        let w = choose|w: int| 0 <= w < s0.len() && #[trigger] s0[w] == b;
                        assert(s1[w] == b);
                    }
                    if s1.contains(b) && b != p {
                        let w = choose|w: int| 0 <= w < s1.len() && #[trigger] s1[w] == b;
                        assert(s0[w] == b);
                    }
                    if b == p {
                        assert(s1[i as int] == b);
                    }
                }
            }
            i = i + 1;
        }
        proof {
            assert(ps.subrange(0, ps.len() as int) =~= ps);
            assert(self@.bits =~= start.with_item(item@).bits);
            assert forall|j: int| 0 <= j < self@.num_hashes implies #[trigger] self@.bits[self@.positions(item@)[j]] by {
                let h1 = murmur3_crate_hash(item@, 0);
                let h2 = fnv1a_32_spec(item@);
                assert(ps[j] == probe(h1, h2, j, start.bits.len() as int));
                assert(ps.contains(ps[j]));
            }
        }
    }

    /// Whether every probe position of `item` is set.
    pub fn check(&self, item: &[u8]) -> (r: bool)
        requires
            self.wf(),
            item@.len() <= u32::MAX,
        ensures
            r == self@.may_contain(item@),
    {
        let positions = self.hash(item);
        let mut i: usize = 0;
        while i < positions.len()
            invariant
                self.wf(),
                positions@.len() == self@.num_hashes,
                forall|j: int| 0 <= j < positions@.len() ==> positions@[j] as int == #[trigger] self@.positions(item@)[j],
                i <= positions@.len(),
                forall|j: int| 0 <= j < i ==> #[trigger] self@.bits[self@.positions(item@)[j]],
            decreases positions.len() - i,
        {
            let p = positions[i];
            proof {
                let h1 = murmur3_crate_hash(item@, 0);
                let h2 = fnv1a_32_spec(item@);
                assert(self@.positions(item@)[i as int] == probe(h1, h2, i as int, self@.bits.len() as int));
            }
            if !self.bit_vector[p] {
                assert(!self@.bits[self@.positions(item@)[i as int]]);
                return false;
            }
            i = i + 1;
        }
        true
    }
}

} // verus!
