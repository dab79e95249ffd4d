//! Deterministic hashes and blue-noise rank bookkeeping.
//!
//! A blue-noise rank texture is built greedily: one texel is placed per
//! rank, always an unplaced one.  The texel chosen at each step comes from
//! the caller's void-and-cluster energy field; this module keeps the
//! placement state, the toroidal splat neighbourhood and the final ranks,
//! and proves that the ranks form a permutation.

use vstd::prelude::*;
use vstd::set_lib::{lemma_int_range, lemma_subset_equality, set_int_range};

verus! {

pub const BLUE_NOISE_SIZE: usize = 64;

/// Texels of the blue-noise tile.
pub open spec fn blue_count() -> int {
    4096
}

/// Xorshift step used to break energy ties between candidates.
pub open spec fn tie_break_spec(value: u32) -> u32 {
    let a = value ^ (value << 13u32);
    let b = a ^ (a >> 17u32);
    b ^ (b << 5u32)
}

pub fn tie_break(value: u32) -> (r: u32)
    ensures
        r == tie_break_spec(value),
{
    let mut value = value;
    value ^= value << 13;
    value ^= value >> 17;
    value ^ (value << 5)
}

/// Hash of a lattice point of a periodic noise grid.
pub open spec fn lattice_hash_spec(x: usize, y: usize, z: usize, seed: u32) -> u32 {
    let v0 = seed ^ (x as u32).wrapping_mul(0x9e37_79b9u32) ^ (y as u32).wrapping_mul(
        0x85eb_ca6bu32,
    ) ^ (z as u32).wrapping_mul(0xc2b2_ae35u32);
    let v1 = v0 ^ (v0 >> 16u32);
    let v2 = v1.wrapping_mul(0x7feb_352du32);
    v2 ^ (v2 >> 15u32)
}

pub fn lattice_hash(x: usize, y: usize, z: usize, seed: u32) -> (h: u32)
    ensures
        h == lattice_hash_spec(x, y, z, seed),
{
    let mut value = seed ^ (x as u32).wrapping_mul(0x9e37_79b9) ^ (y as u32).wrapping_mul(
        0x85eb_ca6b,
    ) ^ (z as u32).wrapping_mul(0xc2b2_ae35);
    value ^= value >> 16;
    value = value.wrapping_mul(0x7feb_352d);
    value ^ (value >> 15)
}

/// The ranks of all texels form a permutation of `0..4096`.
pub open spec fn is_rank_permutation(ranks: Seq<u16>) -> bool {
    &&& ranks.len() == blue_count()
    &&& forall|i: int, j: int|
        0 <= i < ranks.len() && 0 <= j < ranks.len() && i != j ==> #[trigger] ranks[i]
            != #[trigger] ranks[j]
    &&& forall|r: int| 0 <= r < blue_count() ==> #[trigger] has_rank(ranks, r)
}

/// Some texel holds rank `r`.
pub open spec fn has_rank(ranks: Seq<u16>, r: int) -> bool {
    exists|i: int| 0 <= i < ranks.len() && ranks[i] == r
}

/// A complete 64x64 blue-noise rank texture.
#[derive(Debug, PartialEq, Eq)]
pub struct BlueNoiseRank {
    ranks: Vec<u16>,
}

impl Clone for BlueNoiseRank {
    fn clone(&self) -> (r: Self)
        ensures
            r.ranks_spec() == self.ranks_spec(),
    {
        proof {
            use_type_invariant(self);
        }
        let ranks = self.ranks.clone();
        proof {
            assert(ranks@ =~= self.ranks@);
        }
        BlueNoiseRank { ranks }
    }
}

impl BlueNoiseRank {
    #[verifier::type_invariant]
    spec fn inv(self) -> bool {
        is_rank_permutation(self.ranks@)
    }

    pub closed spec fn ranks_spec(self) -> Seq<u16> {
        self.ranks@
    }

    /// Every rank, row-major.
    pub fn ranks(&self) -> (r: &[u16])
        ensures
            r@ == self.ranks_spec(),
            is_rank_permutation(r@),
    {
        proof {
            use_type_invariant(self);
        }
        self.ranks.as_slice()
    }

    /// Rank of the texel at (`x`, `y`), wrapping both coordinates.
    pub fn rank_at(&self, x: usize, y: usize) -> (r: u16)
        ensures
            r == self.ranks_spec()[(y % 64) * 64 + (x % 64)],
    {
        proof {
            use_type_invariant(self);
        }
        self.ranks[(y % BLUE_NOISE_SIZE) * BLUE_NOISE_SIZE + (x % BLUE_NOISE_SIZE)]
    }

    /// The rank at (`x`, `y`) scaled to a byte: `round(255 * rank / 4095)`.
    pub fn byte_at(&self, x: usize, y: usize) -> (b: u8)
        ensures
            b == rank_byte(self.ranks_spec()[(y % 64) * 64 + (x % 64)]),
    {
        let rank = self.rank_at(x, y) as u32;
        let scaled = (34 * rank + 273) / 546;
        if scaled > 255 {
            255
        } else {
            scaled as u8
        }
    }

    /// The 64x64 R8 texture of the ranks, rows padded to 256 bytes, with
    /// each rank scaled by `255 * rank / 4095` (truncating).
    pub fn texture_bytes(&self) -> (bytes: Vec<u8>)
        ensures
            bytes@.len() == 256 * 64,
            forall|k: int|
                0 <= k < 256 * 64 ==> #[trigger] bytes@[k] == (if k % 256 < 64 {
                    (255 * self.ranks_spec()[(k / 256) * 64 + k % 256] as int / 4095) as u8
                } else {
                    0u8
                }),
    {
        proof {
            use_type_invariant(self);
        }
        let mut bytes: Vec<u8> = Vec::new();
        let mut k: usize = 0;
        while k < 256 * 64
            invariant
                k <= 256 * 64,
                is_rank_permutation(self.ranks@),
                bytes@.len() == k,
                forall|j: int|
                    0 <= j < k ==> #[trigger] bytes@[j] == (if j % 256 < 64 {
                        (255 * self.ranks@[(j / 256) * 64 + j % 256] as int / 4095) as u8
                    } else {
                        0u8
                    }),
            decreases 256 * 64 - k,
        {
            let column = k % 256;
            let value: u8 = if column < 64 {
                proof {
                    self.lemma_rank_bound((k / 256) * 64 + column);
                }
                let rank = self.ranks[(k / 256) * 64 + column] as u32;
                assert(255 * rank <= 255 * 65535) by (nonlinear_arith)
                    requires
                        rank <= 65535,
                ;
                assert(255 * rank / 4095 <= 255) by (nonlinear_arith)
                    requires
                        rank <= 4095,
                ;
                (255 * rank / 4095) as u8
            } else {
                0
            };
            bytes.push(value);
            k = k + 1;
        }
        bytes
    }

    /// One byte per texel, row-major with rows 64 bytes apart: the rank
    /// divided by 16 (the 64x64 R8 noise texture of the occlusion pass).
    pub fn coarse_bytes(&self) -> (bytes: Vec<u8>)
        ensures
            bytes@.len() == 4096,
            forall|k: int| 0 <= k < 4096 ==> #[trigger] bytes@[k] == self.ranks_spec()[k] / 16,
    {
        proof {
            use_type_invariant(self);
        }
        let mut bytes: Vec<u8> = Vec::new();
        let mut k: usize = 0;
        while k < 4096
            invariant
                k <= 4096,
                is_rank_permutation(self.ranks@),
                bytes@.len() == k,
                forall|j: int| 0 <= j < k ==> #[trigger] bytes@[j] == self.ranks@[j] / 16,
            decreases 4096 - k,
        {
            proof {
                self.lemma_rank_bound(k as int);
            }
            bytes.push((self.ranks[k] / 16) as u8);
            k = k + 1;
        }
        bytes
    }

    proof fn lemma_rank_bound(self, i: int)
        requires
            is_rank_permutation(self.ranks@),
            0 <= i < 4096,
        ensures
            self.ranks@[i] < 4096,
    {
        lemma_permutation_bound(self.ranks@, i);
    }
}

/// `round(255 * rank / 4095)` in integers: `17 * rank / 273` is never
/// exactly halfway between two integers, so rounding is
/// `floor((34 * rank + 273) / 546)`, clamped to a byte.
pub open spec fn rank_byte(rank: u16) -> u8 {
    let scaled = (34 * rank as int + 273) / 546;
    if scaled > 255 {
        255
    } else {
        scaled as u8
    }
}

/// The byte scale keeps the rank order and spans the whole byte range:
/// rank 0 is byte 0, rank 4095 is byte 255, and a lower rank never gets a
/// higher byte.
pub proof fn lemma_rank_byte_order(r1: u16, r2: u16)
    requires
        r1 <= r2,
    ensures
        rank_byte(r1) <= rank_byte(r2),
        rank_byte(0) == 0,
        rank_byte(4095) == 255,
{
    vstd::arithmetic::div_mod::lemma_div_is_ordered(
        34 * r1 as int + 273,
        34 * r2 as int + 273,
        546,
    );
}

/// Every rank of a permutation lies in `0..4096`.
pub proof fn lemma_permutation_bound(ranks: Seq<u16>, i: int)
    requires
        is_rank_permutation(ranks),
        0 <= i < ranks.len(),
    ensures
        ranks[i] < blue_count(),
{
    if ranks[i] >= blue_count() {
        // The 4096 ranks below 4096 are taken by distinct texels other than i.
        let f = |r: int| choose|j: int| 0 <= j < ranks.len() && ranks[j] == r;
        let low = set_int_range(0, blue_count());
        let all = set_int_range(0, blue_count());
        lemma_int_range(0, blue_count());
        let image = low.map(f);
        assert(vstd::relations::injective_on(f, low)) by {
            assert forall|a: int, b: int|
                low.contains(a) && low.contains(b) && #[trigger] f(a) == #[trigger] f(b) implies a
                == b by {
                assert(has_rank(ranks, a));
                assert(has_rank(ranks, b));
                assert(ranks[f(a)] == a);
                assert(ranks[f(b)] == b);
            }
        }
        vstd::set_lib::lemma_map_size(low, image, f);
        assert(image.subset_of(all.remove(i))) by {
            assert forall|j: int| #[trigger] image.contains(j) implies all.remove(i).contains(j) by {
                let r = choose|r: int| low.contains(r) && j == f(r);
                assert(has_rank(ranks, r));
                assert(ranks[f(r)] == r);
            }
        }
        vstd::set_lib::lemma_len_subset(image, all.remove(i));
        assert(false);
    }
}

/// Placement state of a blue-noise rank texture under construction.
pub struct BlueNoiseBuilder {
    seed: u32,
    selected: Vec<bool>,
    ranks: Vec<u16>,
    /// The texels placed so far, in rank order.
    order: Ghost<Seq<int>>,
}

impl BlueNoiseBuilder {
    /// Texels placed so far and the rank each received is its position.
    pub closed spec fn wf(self) -> bool {
        &&& self.selected@.len() == blue_count()
        &&& self.ranks@.len() == blue_count()
        &&& self.order@.len() <= blue_count()
        &&& forall|k: int|
            0 <= k < self.order@.len() ==> 0 <= #[trigger] self.order@[k] < blue_count()
        &&& forall|k: int, l: int|
            0 <= k < l < self.order@.len() ==> #[trigger] self.order@[k] != #[trigger] self.order@[l]
        &&& forall|i: int|
            0 <= i < blue_count() ==> (#[trigger] self.selected@[i] <==> self.order@.contains(i))
        &&& forall|k: int|
            0 <= k < self.order@.len() ==> #[trigger] self.ranks@[self.order@[k]] == k
    }

    /// The texels placed so far, in rank order.
    pub closed spec fn placed_order(self) -> Seq<int> {
        self.order@
    }

    pub closed spec fn seed_spec(self) -> u32 {
        self.seed
    }

    /// Nothing placed yet.
    pub fn new(seed: u32) -> (b: Self)
        ensures
            b.wf(),
            b.placed_order() == Seq::<int>::empty(),
            b.seed_spec() == seed,
    {
        let mut selected: Vec<bool> = Vec::new();
        let mut ranks: Vec<u16> = Vec::new();
        let mut i: usize = 0;
        while i < 4096
            invariant
                i <= 4096,
                selected@.len() == i,
                ranks@.len() == i,
                forall|j: int| 0 <= j < i ==> !(#[trigger] selected@[j]),
            decreases 4096 - i,
        {
            selected.push(false);
            ranks.push(0);
            i = i + 1;
        }
        BlueNoiseBuilder { seed, selected, ranks, order: Ghost(Seq::empty()) }
    }

    /// The texel that always receives rank 0 for `seed`.
    pub fn first_index(seed: u32) -> (i: usize)
        ensures
            i == ((0x9e37_79b9u32 ^ seed) as int) % 4096,
            i < 4096,
    {
        (0x9e37_79b9u32 ^ seed) as usize % 4096
    }

    /// Number of texels placed so far (the next rank to hand out).
    pub fn placed(&self) -> (n: usize)
        requires
            self.wf(),
        ensures
            n == self.placed_order().len(),
    {
        let n = self.count_selected();
        n
    }

    fn count_selected(&self) -> (n: usize)
        requires
            self.wf(),
        ensures
            n == self.order@.len(),
    {
        let mut n: usize = 0;
        let mut i: usize = 0;
        let ghost seen = Set::<int>::empty();
        while i < 4096
            invariant
                self.wf(),
                i <= 4096,
                seen == Set::new(|j: int| 0 <= j < i && self.order@.contains(j)),
                seen.finite(),
                n == seen.len(),
                n <= i,
            decreases 4096 - i,
        {
            proof {
                let next = Set::new(|j: int| 0 <= j < i + 1 && self.order@.contains(j));
                if self.selected@[i as int] {
                    assert(next =~= seen.insert(i as int));
                } else {
                    assert(next =~= seen);
                }
            }
            if self.selected[i] {
                proof {
                    assert(!seen.contains(i as int));
                }
                n = n + 1;
                proof {
                    seen = seen.insert(i as int);
                }
            } else {
                proof {
                    seen = Set::new(|j: int| 0 <= j < i + 1 && self.order@.contains(j));
                }
            }
            i = i + 1;
        }
        proof {
            lemma_order_set_size(self.order@);
            assert(seen =~= self.order@.to_set());
        }
        n
    }

    /// Whether texel `i` already has a rank.
    pub fn is_selected(&self, i: usize) -> (s: bool)
        requires
            self.wf(),
            i < 4096,
        ensures
            s == self.placed_order().contains(i as int),
    {
        self.selected[i]
    }

    /// Key that orders candidates of equal energy: `tie_break(i ^ seed)`.
    pub fn tie_key(&self, i: usize) -> (k: u32)
        ensures
            k == tie_break_spec((i as u32) ^ self.seed_spec()),
    {
        tie_break((i as u32) ^ self.seed)
    }

    /// Give the next rank to the unplaced texel `i`.
    pub fn place(&mut self, i: usize)
        requires
            old(self).wf(),
            i < 4096,
            !old(self).placed_order().contains(i as int),
        ensures
            final(self).wf(),
            final(self).placed_order() == old(self).placed_order().push(i as int),
            final(self).seed_spec() == old(self).seed_spec(),
    {
        let rank = self.placed();
        proof {
            if rank >= 4096 {
                lemma_order_set_size(self.order@);
                assert(self.order@.to_set().subset_of(set_int_range(0, 4096)));
                lemma_int_range(0, 4096);
                vstd::set_lib::lemma_len_subset(self.order@.to_set(), set_int_range(0, 4096));
                lemma_subset_equality(self.order@.to_set(), set_int_range(0, 4096));
                assert(set_int_range(0, 4096).contains(i as int));
            }
        }
        let ghost old_order = self.order@;
        self.selected.set(i, true);
        self.ranks.set(i, rank as u16);
        self.order = Ghost(old_order.push(i as int));
        proof {
            assert forall|j: int| 0 <= j < blue_count() implies (#[trigger] self.selected@[j]
                <==> self.order@.contains(j)) by {
                if j == i as int {
                    assert(self.order@[self.order@.len() - 1] == j);
                } else if self.selected@[j] {
                    let k = choose|k: int| 0 <= k < old_order.len() && old_order[k] == j;
                    assert(self.order@[k] == j);
                } else if self.order@.contains(j) {
                    let k = choose|k: int| 0 <= k < self.order@.len() && self.order@[k] == j;
                    assert(old_order[k] == j);
                }
            }
            assert forall|k: int| 0 <= k < self.order@.len() implies #[trigger] self.ranks@[
                self.order@[k]] == k by {
                if k < old_order.len() {
                    assert(old_order[k] != i);
                }
            }
        }
    }

    /// The finished texture; every texel has been placed.
    pub fn finish(self) -> (r: BlueNoiseRank)
        requires
            self.wf(),
            self.placed_order().len() == blue_count(),
        ensures
            forall|k: int|
                0 <= k < blue_count() ==> r.ranks_spec()[#[trigger] self.placed_order()[k]] == k,
            is_rank_permutation(r.ranks_spec()),
    {
        proof {
            lemma_order_set_size(self.order@);
            lemma_int_range(0, 4096);
            assert(self.order@.to_set().subset_of(set_int_range(0, 4096)));
            lemma_subset_equality(self.order@.to_set(), set_int_range(0, 4096));
            let ranks = self.ranks@;
            assert forall|i: int, j: int|
                0 <= i < ranks.len() && 0 <= j < ranks.len() && i != j implies #[trigger] ranks[i]
                != #[trigger] ranks[j] by {
                assert(self.order@.to_set().contains(i));
                assert(self.order@.to_set().contains(j));
                let ki = choose|k: int| 0 <= k < self.order@.len() && self.order@[k] == i;
                let kj = choose|k: int| 0 <= k < self.order@.len() && self.order@[k] == j;
                assert(ranks[self.order@[ki]] == ki);
                assert(ranks[self.order@[kj]] == kj);
            }
            assert forall|r: int| 0 <= r < blue_count() implies #[trigger] has_rank(ranks, r) by {
                assert(ranks[self.order@[r]] == r);
            }
        }
        BlueNoiseRank { ranks: self.ranks }
    }
}

/// A duplicate-free sequence has as many distinct members as elements.
proof fn lemma_order_set_size(order: Seq<int>)
    requires
        forall|k: int, l: int|
            0 <= k < l < order.len() ==> #[trigger] order[k] != #[trigger] order[l],
    ensures
        order.to_set().finite(),
        order.to_set().len() == order.len(),
    decreases order.len(),
{
    if order.len() == 0 {
        assert(order.to_set() =~= Set::empty());
    } else {
        let rest = order.drop_last();
        lemma_order_set_size(rest);
        assert forall|x: int| #[trigger] order.to_set().contains(x) <==> rest.to_set().insert(
            order.last(),
        ).contains(x) by {
            if order.contains(x) {
                let k = choose|k: int| 0 <= k < order.len() && order[k] == x;
                if k < order.len() - 1 {
                    assert(rest[k] == x);
                }
            }
            if rest.contains(x) {
                let k = choose|k: int| 0 <= k < rest.len() && rest[k] == x;
                assert(order[k] == x);
            }
            if x == order.last() {
                assert(order[order.len() - 1] == x);
            }
        }
        assert(order.to_set() =~= rest.to_set().insert(order.last()));
        assert(!rest.to_set().contains(order.last())) by {
            if rest.to_set().contains(order.last()) {
                let k = choose|k: int| 0 <= k < rest.len() && rest[k] == order.last();
                assert(order[k] == order[order.len() - 1]);
            }
        }
    }
}

/// Index of the texel `(dx, dy)` away from texel `index` on the torus.
pub fn splat_cell(index: usize, dx: i32, dy: i32) -> (cell: usize)
    requires
        index < 4096,
        -64 <= dx <= 64,
        -64 <= dy <= 64,
    ensures
        cell == ((index as int / 64 + dy) % 64) * 64 + ((index as int % 64 + dx) % 64),
        cell < 4096,
{
    let x = (index % 64) as i32;
    let y = (index / 64) as i32;
    let xx = crate::ivec::rem_euclid_i32(x + dx, 64);
    let yy = crate::ivec::rem_euclid_i32(y + dy, 64);
    (yy as usize) * 64 + xx as usize
}

} // verus!
