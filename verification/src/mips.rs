//! CPU mip-chain generation for 16x16 material layers, including the
//! coverage-preserving alpha used by cut-out layers.

use vstd::prelude::*;
use vstd::relations::injective_on;
use vstd::set_lib::{lemma_int_range, lemma_map_size, lemma_subset_equality, set_int_range};

verus! {

/// One level of a square mip chain.
#[derive(Clone, Debug, PartialEq, Eq)]
pub struct Mip {
    pub width: usize,
    pub height: usize,
    pub data: Vec<u8>,
}

/// Width (and height) of mip `level` of a 16x16 layer.
pub open spec fn mip_width(level: nat) -> nat
    decreases level,
{
    if level == 0 {
        16
    } else {
        mip_width((level - 1) as nat) / 2
    }
}

/// Index of channel `c` of texel (`x`, `y`) in an interleaved image of
/// width `w` with `ch` channels.
pub open spec fn texel_index(x: int, y: int, w: int, ch: int, c: int) -> int {
    (y * w + x) * ch + c
}

/// Value of byte `k` of the 2x2 box-filtered image of a square `w`-wide
/// image with `ch` channels.
pub open spec fn box_byte(prev: Seq<u8>, w: int, ch: int, k: int) -> u8 {
    let nw = w / 2;
    let p = k / ch;
    let c = k % ch;
    let x = p % nw;
    let y = p / nw;
    let s = prev[texel_index(2 * x, 2 * y, w, ch, c)] as int + prev[texel_index(
        2 * x + 1,
        2 * y,
        w,
        ch,
        c,
    )] as int + prev[texel_index(2 * x, 2 * y + 1, w, ch, c)] as int + prev[texel_index(
        2 * x + 1,
        2 * y + 1,
        w,
        ch,
        c,
    )] as int;
    (s / 4) as u8
}

/// The 2x2 box filter (truncating average) of a square `w`-wide image.
pub open spec fn box_down(prev: Seq<u8>, w: nat, ch: nat) -> Seq<u8> {
    Seq::new((w / 2) * (w / 2) * ch, |k: int| box_byte(prev, w as int, ch as int, k))
}

/// Texel `j` precedes texel `i` in the descending-alpha order that keeps
/// equal alphas in index order.
pub open spec fn ahead(a: Seq<u8>, j: int, i: int) -> bool {
    a[j] > a[i] || (a[j] == a[i] && j < i)
}

/// How many of the first `k` texels precede texel `i`.
pub open spec fn ahead_count(a: Seq<u8>, i: int, k: int) -> nat
    decreases k,
{
    if k <= 0 {
        0
    } else {
        ahead_count(a, i, k - 1) + if ahead(a, k - 1, i) {
            1nat
        } else {
            0nat
        }
    }
}

/// Position of texel `i` after a stable sort by descending alpha.
pub open spec fn coverage_rank(a: Seq<u8>, i: int) -> nat {
    ahead_count(a, i, a.len() as int)
}

/// The alpha channel of an interleaved image with `n` texels.
pub open spec fn alphas(data: Seq<u8>, n: nat, ch: nat) -> Seq<u8> {
    Seq::new(n, |j: int| data[j * ch + 3])
}

/// Number of texels that must stay opaque to keep a coverage of
/// `target / 256` on `n` texels: `round(target * n / 256)`.
pub open spec fn wanted_texels(target: nat, n: nat) -> nat {
    (2 * target * n + 256) / 512
}

/// Re-binarise the alpha of `data`: the `wanted` texels ranked first in
/// descending alpha order become 255, all others 0.
pub open spec fn coverage_adjust(data: Seq<u8>, n: nat, ch: nat, wanted: nat) -> Seq<u8> {
    let a = alphas(data, n, ch);
    Seq::new(
        data.len(),
        |k: int|
            if k % (ch as int) == 3 {
                if coverage_rank(a, k / (ch as int)) < wanted {
                    255u8
                } else {
                    0u8
                }
            } else {
                data[k]
            },
    )
}

/// Data of mip `level`: level 0 is the source, every further level is the
/// box filter of the previous one, with the alpha re-binarised when
/// coverage is preserved.
pub open spec fn mip_level(src: Seq<u8>, ch: nat, adjust: bool, target: nat, level: nat) -> Seq<
    u8,
>
    decreases level,
{
    if level == 0 {
        src
    } else {
        let prev = mip_level(src, ch, adjust, target, (level - 1) as nat);
        let w = mip_width((level - 1) as nat);
        let n = (w / 2) * (w / 2);
        let next = box_down(prev, w, ch);
        if adjust {
            coverage_adjust(next, n, ch, wanted_texels(target, n))
        } else {
            next
        }
    }
}

/// Number of chunks of `ch` bytes among the first `j` that are opaque
/// (alpha at least 128).
pub open spec fn opaque_chunks(src: Seq<u8>, ch: nat, j: int) -> nat
    decreases j,
{
    if j <= 0 {
        0
    } else {
        opaque_chunks(src, ch, j - 1) + if src[(j - 1) * ch + 3] >= 128 {
            1nat
        } else {
            0nat
        }
    }
}

/// Number of chunks `src.chunks(ch)` yields.
pub open spec fn chunk_count(len: nat, ch: nat) -> int {
    if len % ch == 0 {
        (len / ch) as int
    } else {
        (len / ch) as int + 1
    }
}

/// Opaque texels of the source that coverage preservation aims for.
pub open spec fn coverage_target(src: Seq<u8>, ch: nat, coverage: bool) -> nat {
    if coverage && ch >= 4 {
        opaque_chunks(src, ch, chunk_count(src.len(), ch))
    } else {
        0
    }
}

/// The mips `make_mips` builds for `src`.
pub open spec fn mips_of(mips: Seq<Mip>, src: Seq<u8>, ch: nat, coverage: bool) -> bool {
    &&& mips.len() == 5
    &&& forall|k: int|
        0 <= k < 5 ==> {
            &&& (#[trigger] mips[k]).width == mip_width(k as nat)
            &&& mips[k].height == mip_width(k as nat)
            &&& mips[k].data@ == mip_level(
                src,
                ch,
                coverage && ch >= 4,
                coverage_target(src, ch, coverage),
                k as nat,
            )
        }
}

proof fn lemma_pack(p: int, c: int, ch: int)
    requires
        ch > 0,
        0 <= c < ch,
    ensures
        (p * ch + c) / ch == p,
        (p * ch + c) % ch == c,
{
    vstd::arithmetic::div_mod::lemma_fundamental_div_mod_converse(p * ch + c, ch, p, c);
}

proof fn lemma_texel_bound(x: int, y: int, w: int, ch: int, c: int)
    requires
        0 <= x < w,
        0 <= y < w,
        0 <= c < ch,
    ensures
        0 <= texel_index(x, y, w, ch, c) < w * w * ch,
{
    assert(0 <= (y * w + x) * ch + c < w * w * ch) by (nonlinear_arith)
        requires
            0 <= x < w,
            0 <= y < w,
            0 <= c < ch,
    ;
}

/// 2x2 box filter of a square `w`-wide image with `ch` channels.
fn box_filter(prev: &Vec<u8>, w: usize, ch: usize) -> (next: Vec<u8>)
    requires
        2 <= w <= 16,
        w % 2 == 0,
        1 <= ch,
        prev@.len() >= w * w * ch,
        w * w * ch <= usize::MAX,
    ensures
        next@ == box_down(prev@, w as nat, ch as nat),
{
    let nw = w / 2;
    assert(nw * nw <= 64) by (nonlinear_arith)
        requires
            nw <= 8,
    ;
    let n = nw * nw;
    let mut next: Vec<u8> = Vec::new();
    let mut p: usize = 0;
    assert(n * ch <= w * w * ch) by (nonlinear_arith)
        requires
            n == nw * nw,
            w == 2 * nw,
            ch >= 1,
    ;
    while p < n
        invariant
            nw == w / 2,
            n == nw * nw,
            2 <= w <= 16,
            w % 2 == 0,
            1 <= ch,
            prev@.len() >= w * w * ch,
            n * ch <= w * w * ch,
            w * w * ch <= usize::MAX,
            p <= n,
            next@.len() == p * ch,
            forall|k: int|
                0 <= k < next@.len() ==> next@[k] == box_byte(prev@, w as int, ch as int, k),
        decreases n - p,
    {
        let x = p % nw;
        let y = p / nw;
        assert(x < nw && y < nw) by (nonlinear_arith)
            requires
                x == p % nw,
                y == p / nw,
                p < nw * nw,
                nw >= 1,
        ;
        let mut c: usize = 0;
        assert((p + 1) * ch <= n * ch) by (nonlinear_arith)
            requires
                p < n,
                ch >= 1,
        ;
        while c < ch
            invariant
                nw == w / 2,
                n == nw * nw,
                2 <= w <= 16,
                w % 2 == 0,
                1 <= ch,
                prev@.len() >= w * w * ch,
                n * ch <= w * w * ch,
                w * w * ch <= usize::MAX,
                p < n,
                (p + 1) * ch <= n * ch,
                x == p % nw,
                y == p / nw,
                x < nw,
                y < nw,
                c <= ch,
                next@.len() == p * ch + c,
                forall|k: int|
                    0 <= k < next@.len() ==> next@[k] == box_byte(prev@, w as int, ch as int, k),
            decreases ch - c,
        {
            proof {
                lemma_texel_bound(2 * x as int, 2 * y as int, w as int, ch as int, c as int);
                lemma_texel_bound(2 * x as int + 1, 2 * y as int, w as int, ch as int, c as int);
                lemma_texel_bound(2 * x as int, 2 * y as int + 1, w as int, ch as int, c as int);
                lemma_texel_bound(
                    2 * x as int + 1,
                    2 * y as int + 1,
                    w as int,
                    ch as int,
                    c as int,
                );
                lemma_pack(p as int, c as int, ch as int);
                assert(p * ch + c < n * ch) by (nonlinear_arith)
                    requires
                        p < n,
                        c < ch,
                        (p + 1) * ch <= n * ch,
                ;
                assert((2 * y) * w + 2 * x + 1 < w * w && (2 * y + 1) * w + 2 * x + 1 < w * w)
                    by (nonlinear_arith)
                    requires
                        x < nw,
                        y < nw,
                        w == 2 * nw,
                ;
                assert(w * w <= 256) by (nonlinear_arith)
                    requires
                        w <= 16,
                ;
            }
            let i00 = ((2 * y) * w + 2 * x) * ch + c;
            let i10 = ((2 * y) * w + 2 * x + 1) * ch + c;
            let i01 = ((2 * y + 1) * w + 2 * x) * ch + c;
            let i11 = ((2 * y + 1) * w + 2 * x + 1) * ch + c;
            let sum: u32 = prev[i00] as u32 + prev[i10] as u32 + prev[i01] as u32
                + prev[i11] as u32;
            let ghost k = next@.len() as int;
            next.push((sum / 4) as u8);
            assert(next@[k] == box_byte(prev@, w as int, ch as int, k));
            c = c + 1;
        }
        assert(next@.len() == (p + 1) * ch) by (nonlinear_arith)
            requires
                next@.len() == p * ch + ch,
        ;
        p = p + 1;
    }
    assert(next@ =~= box_down(prev@, w as nat, ch as nat));
    next
}

proof fn lemma_ahead_transitive(a: Seq<u8>, m: int, j: int, i: int)
    requires
        ahead(a, m, j),
        ahead(a, j, i),
    ensures
        ahead(a, m, i),
{
}

/// A texel never precedes itself, so at most `k - 1` of the first `k`
/// texels precede a texel among them.
proof fn lemma_ahead_count_bound(a: Seq<u8>, i: int, k: int)
    requires
        0 <= k,
    ensures
        ahead_count(a, i, k) + (if 0 <= i < k {
            1int
        } else {
            0int
        }) <= k,
    decreases k,
{
    if k > 0 {
        lemma_ahead_count_bound(a, i, k - 1);
    }
}

/// If `j` precedes `i`, everything preceding `j` precedes `i`, and so
/// does `j` itself.
proof fn lemma_ahead_count_monotone(a: Seq<u8>, j: int, i: int, k: int)
    requires
        0 <= k,
        ahead(a, j, i),
    ensures
        ahead_count(a, j, k) + (if 0 <= j < k {
            1int
        } else {
            0int
        }) <= ahead_count(a, i, k),
    decreases k,
{
    if k > 0 {
        lemma_ahead_count_monotone(a, j, i, k - 1);
        if ahead(a, k - 1, j) {
            lemma_ahead_transitive(a, k - 1, j, i);
        }
    }
}

/// Coverage ranks are a permutation of `0..n`.
proof fn lemma_rank_injective(a: Seq<u8>)
    ensures
        forall|i: int|
            0 <= i < a.len() ==> #[trigger] coverage_rank(a, i) < a.len(),
        injective_on(|i: int| coverage_rank(a, i) as int, set_int_range(0, a.len() as int)),
{
    let n = a.len() as int;
    assert forall|i: int| 0 <= i < n implies #[trigger] coverage_rank(a, i) < n by {
        lemma_ahead_count_bound(a, i, n);
    }
    let f = |i: int| coverage_rank(a, i) as int;
    assert forall|i: int, j: int|
        set_int_range(0, n).contains(i) && set_int_range(0, n).contains(j) && #[trigger] f(i)
            == #[trigger] f(j) implies i == j by {
        if i != j {
            if ahead(a, j, i) {
                lemma_ahead_count_monotone(a, j, i, n);
            } else {
                assert(ahead(a, i, j));
                lemma_ahead_count_monotone(a, i, j, n);
            }
        }
    }
}

/// Exactly `min(w, n)` texels have a rank below `w`.
pub proof fn lemma_rank_prefix_size(a: Seq<u8>, w: nat)
    ensures
        Set::new(|i: int| 0 <= i < a.len() && coverage_rank(a, i) < w).finite(),
        Set::new(|i: int| 0 <= i < a.len() && coverage_rank(a, i) < w).len() == if w < a.len() {
            w
        } else {
            a.len()
        },
{
    let n = a.len() as int;
    let m = if w < a.len() {
        w as int
    } else {
        n
    };
    let f = |i: int| coverage_rank(a, i) as int;
    let all = set_int_range(0, n);
    lemma_int_range(0, n);
    lemma_rank_injective(a);
    // The ranks of all texels fill 0..n.
    let image = all.map(f);
    lemma_map_size(all, image, f);
    assert(image.subset_of(all));
    lemma_subset_equality(image, all);
    // The texels ranked below w map onto 0..m.
    let t = Set::new(|i: int| 0 <= i < n && coverage_rank(a, i) < w);
    assert(t.subset_of(all));
    vstd::set_lib::lemma_set_subset_finite(all, t);
    assert(injective_on(f, t)) by {
        assert forall|i: int, j: int|
            t.contains(i) && t.contains(j) && #[trigger] f(i) == #[trigger] f(j) implies i
            == j by {
            assert(all.contains(i) && all.contains(j));
        }
    }
    let low = set_int_range(0, m);
    assert(t.map(f) =~= low) by {
        assert forall|r: int| #[trigger] low.contains(r) implies t.map(f).contains(r) by {
            assert(image.contains(r));
            let i = choose|i: int| all.contains(i) && r == f(i);
            assert(t.contains(i));
        }
    }
    lemma_map_size(t, low, f);
    lemma_int_range(0, m);
}

/// Cut-out coverage is preserved: after re-binarisation exactly
/// `min(wanted, n)` of the `n` texels are opaque.
pub proof fn lemma_coverage_adjust_count(data: Seq<u8>, n: nat, ch: nat, wanted: nat)
    requires
        ch >= 4,
        data.len() == n * ch,
    ensures
        ({
            let adjusted = coverage_adjust(data, n, ch, wanted);
            Set::new(|i: int| 0 <= i < n && adjusted[i * ch + 3] >= 128).len() == if wanted < n {
                wanted
            } else {
                n
            }
        }),
{
    let adjusted = coverage_adjust(data, n, ch, wanted);
    let a = alphas(data, n, ch);
    let s = Set::new(|i: int| 0 <= i < n && adjusted[i * ch + 3] >= 128);
    let t = Set::new(|i: int| 0 <= i < a.len() && coverage_rank(a, i) < wanted);
    assert(s =~= t) by {
        assert forall|i: int| 0 <= i < n implies (adjusted[i * ch + 3] >= 128) == (coverage_rank(
            a,
            i,
        ) < wanted) by {
            lemma_pack(i, 3, ch as int);
            assert(i * ch + 3 < n * ch) by (nonlinear_arith)
                requires
                    0 <= i < n,
                    ch >= 4,
            ;
        }
    }
    lemma_rank_prefix_size(a, wanted);
}

/// Copy of a byte slice.
fn copy_bytes(src: &[u8]) -> (out: Vec<u8>)
    ensures
        out@ == src@,
{
    let mut out: Vec<u8> = Vec::new();
    let mut i: usize = 0;
    while i < src.len()
        invariant
            i <= src@.len(),
            out@ == src@.subrange(0, i as int),
        decreases src@.len() - i,
    {
        out.push(src[i]);
        i = i + 1;
        assert(out@ =~= src@.subrange(0, i as int));
    }
    assert(out@ =~= src@);
    out
}

/// Number of `ch`-byte chunks of `src` whose alpha is at least 128.
fn count_opaque_chunks(src: &[u8], ch: usize) -> (count: usize)
    requires
        ch >= 4,
        (src@.len() as int) % (ch as int) == 0 || (src@.len() as int) % (ch as int) >= 4,
    ensures
        count == opaque_chunks(src@, ch as nat, chunk_count(src@.len(), ch as nat)),
        count <= src@.len(),
{
    let len = src.len();
    let q = len / ch;
    let r = len % ch;
    assert(q < len || len == 0) by (nonlinear_arith)
        requires
            q == len / ch,
            ch >= 4,
    ;
    let chunks = if r == 0 {
        q
    } else {
        q + 1
    };
    proof {
        vstd::arithmetic::div_mod::lemma_fundamental_div_mod(len as int, ch as int);
    }
    let mut count: usize = 0;
    let mut j: usize = 0;
    while j < chunks
        invariant
            len == src@.len(),
            ch >= 4,
            q == len / ch,
            r == len % ch,
            len == ch * q + r,
            r == 0 || r >= 4,
            chunks as int == (if r == 0 {
                q as int
            } else {
                q + 1
            }),
            chunks == chunk_count(len as nat, ch as nat),
            j <= chunks,
            count <= j,
            count == opaque_chunks(src@, ch as nat, j as int),
        decreases chunks - j,
    {
        assert(j * ch + 3 < len) by (nonlinear_arith)
            requires
                j < chunks,
                len == ch * q + r,
                chunks as int == (if r == 0 {
                    q as int
                } else {
                    q + 1
                }),
                r == 0 || r >= 4,
                ch >= 4,
        ;
        if src[j * ch + 3] >= 128 {
            count = count + 1;
        }
        j = j + 1;
    }
    assert(chunks <= len) by (nonlinear_arith)
        requires
            len == ch * q + r,
            chunks as int == (if r == 0 {
                q as int
            } else {
                q + 1
            }),
            r == 0 || r >= 4,
            ch >= 4,
    ;
    count
}

/// Rank of texel `i` among the alphas `a` in descending, index-stable order.
fn rank_of(a: &Vec<u8>, i: usize) -> (rank: usize)
    requires
        i < a@.len(),
        a@.len() <= 64,
    ensures
        rank == coverage_rank(a@, i as int),
{
    let mut rank: usize = 0;
    let mut j: usize = 0;
    while j < a.len()
        invariant
            i < a@.len(),
            a@.len() <= 64,
            j <= a@.len(),
            rank <= j,
            rank == ahead_count(a@, i as int, j as int),
        decreases a@.len() - j,
    {
        if a[j] > a[i] || (a[j] == a[i] && j < i) {
            rank = rank + 1;
        }
        j = j + 1;
    }
    rank
}

/// Re-binarise the alpha of `data` so that exactly the `wanted` texels
/// ranked first in descending alpha order (ties in index order) are opaque.
fn adjust_coverage(data: Vec<u8>, n: usize, ch: usize, wanted: usize) -> (out: Vec<u8>)
    requires
        ch >= 4,
        n <= 64,
        data@.len() == n * ch,
        data@.len() <= usize::MAX,
    ensures
        out@ == coverage_adjust(data@, n as nat, ch as nat, wanted as nat),
{
    let ghost input = data@;
    let mut a: Vec<u8> = Vec::new();
    let mut j: usize = 0;
    while j < n
        invariant
            ch >= 4,
            n <= 64,
            data@ == input,
            input.len() == n * ch,
            input.len() <= usize::MAX,
            j <= n,
            a@ == alphas(input, n as nat, ch as nat).subrange(0, j as int),
        decreases n - j,
    {
        assert(j * ch + 3 < n * ch) by (nonlinear_arith)
            requires
                j < n,
                ch >= 4,
        ;
        a.push(data[j * ch + 3]);
        j = j + 1;
        assert(a@ =~= alphas(input, n as nat, ch as nat).subrange(0, j as int));
    }
    assert(a@ =~= alphas(input, n as nat, ch as nat));
    let mut out = data;
    let mut i: usize = 0;
    while i < n
        invariant
            ch >= 4,
            n <= 64,
            input.len() == n * ch,
            a@ == alphas(input, n as nat, ch as nat),
            input.len() <= usize::MAX,
            i <= n,
            out@.len() == input.len(),
            forall|k: int|
                0 <= k < out@.len() ==> #[trigger] out@[k] == (if k % (ch as int) == 3 && k / (
                ch as int) < i {
                    coverage_adjust(input, n as nat, ch as nat, wanted as nat)[k]
                } else {
                    input[k]
                }),
        decreases n - i,
    {
        let rank = rank_of(&a, i);
        assert(i * ch + 3 < n * ch) by (nonlinear_arith)
            requires
                i < n,
                ch >= 4,
        ;
        let value: u8 = if rank < wanted {
            255
        } else {
            0
        };
        let idx = i * ch + 3;
        let ghost before = out@;
        out.set(idx, value);
        proof {
            lemma_pack(i as int, 3, ch as int);
            assert(idx < input.len());
            assert(out@[idx as int] == coverage_adjust(input, n as nat, ch as nat, wanted as nat)[
                idx as int]);
            assert forall|k: int| 0 <= k < out@.len() implies #[trigger] out@[k] == (if k % (
            ch as int) == 3 && k / (ch as int) < i + 1 {
                coverage_adjust(input, n as nat, ch as nat, wanted as nat)[k]
            } else {
                input[k]
            }) by {
                if k == idx as int {
                } else {
                    assert(out@[k] == before[k]);
                    if k % (ch as int) == 3 && k / (ch as int) == i as int {
                        vstd::arithmetic::div_mod::lemma_fundamental_div_mod(k, ch as int);
                        assert(k == idx as int) by (nonlinear_arith)
                            requires
                                k == (ch as int) * (k / (ch as int)) + k % (ch as int),
                                k / (ch as int) == i as int,
                                k % (ch as int) == 3,
                                idx as int == (i as int) * (ch as int) + 3,
                        ;
                    }
                }
            }
        }
        i = i + 1;
    }
    proof {
        assert forall|k: int| 0 <= k < out@.len() implies #[trigger] out@[k] == coverage_adjust(
            input,
            n as nat,
            ch as nat,
            wanted as nat,
        )[k] by {
            if k % (ch as int) == 3 {
                vstd::arithmetic::div_mod::lemma_fundamental_div_mod(k, ch as int);
                assert(k / (ch as int) < n) by (nonlinear_arith)
                    requires
                        k == (ch as int) * (k / (ch as int)) + k % (ch as int),
                        0 <= k < n * ch,
                        ch >= 4,
                        k % (ch as int) == 3,
                ;
            }
        }
    }
    assert(out@ =~= coverage_adjust(input, n as nat, ch as nat, wanted as nat));
    out
}

/// Build the five-level mip chain of a 16x16 layer with `channels`
/// interleaved channels.  Each level is the 2x2 average of the previous
/// one.  With `coverage` (and an alpha channel), every level keeps the
/// fraction of opaque texels of the source: the texels with the highest
/// filtered alpha (ties in texel order) become opaque, the rest clear.
pub fn make_mips(src: &[u8], channels: usize, coverage: bool) -> (result: Vec<Mip>)
    requires
        1 <= channels,
        256 * channels <= src@.len(),
        coverage && channels >= 4 ==> (src@.len() as int) % (channels as int) == 0 || (src@.len() as int) % (
        channels as int) >= 4,
    ensures
        mips_of(result@, src@, channels as nat, coverage),
{
    let src_len = src.len();
    let adjust = coverage && channels >= 4;
    let target: usize = if adjust {
        count_opaque_chunks(src, channels)
    } else {
        0
    };
    let ghost tgt = coverage_target(src@, channels as nat, coverage);
    assert(target == tgt);
    let mut result: Vec<Mip> = Vec::new();
    let mut current = copy_bytes(src);
    result.push(Mip { width: 16, height: 16, data: copy_bytes(src) });
    let mut w: usize = 16;
    let mut level: usize = 0;
    while w > 1
        invariant
            1 <= channels,
            256 * channels <= src@.len(),
            src@.len() == src_len,
            adjust == (coverage && channels >= 4),
            target == tgt,
            tgt <= src@.len(),
            tgt == coverage_target(src@, channels as nat, coverage),
            level <= 4,
            w == mip_width(level as nat),
            w == (if level == 0 {
                16usize
            } else if level == 1 {
                8usize
            } else if level == 2 {
                4usize
            } else if level == 3 {
                2usize
            } else {
                1usize
            }),
            current@ == mip_level(src@, channels as nat, adjust, tgt, level as nat),
            level == 0 ==> current@.len() == src@.len(),
            level > 0 ==> current@.len() == w * w * channels,
            result@.len() == level + 1,
            forall|k: int|
                0 <= k <= level ==> {
                    &&& (#[trigger] result@[k]).width == mip_width(k as nat)
                    &&& result@[k].height == mip_width(k as nat)
                    &&& result@[k].data@ == mip_level(src@, channels as nat, adjust, tgt, k as nat)
                },
        decreases w,
    {
        assert(w * w * channels <= 256 * channels) by (nonlinear_arith)
            requires
                w <= 16,
        ;
        let nw = w / 2;
        let mut next = box_filter(&current, w, channels);
        assert(nw * nw <= 64) by (nonlinear_arith)
            requires
                nw <= 8,
        ;
        let n = nw * nw;
        if adjust {
            assert(2 * target * n + 256 <= u128::MAX) by (nonlinear_arith)
                requires
                    target <= 0xffff_ffff_ffff_ffffu64,
                    n <= 64,
            ;
            let scaled: u128 = 2 * (target as u128) * (n as u128) + 256;
            assert(scaled / 512 <= target) by (nonlinear_arith)
                requires
                    scaled == 2 * target * n + 256,
                    n <= 64,
            ;
            let wanted = (scaled / 512) as usize;
            assert(next@.len() == n * channels) by (nonlinear_arith)
                requires
                    next@.len() == (w / 2) * (w / 2) * channels,
                    n == nw * nw,
                    nw == w / 2,
            ;
            assert(next@.len() <= usize::MAX) by (nonlinear_arith)
                requires
                    next@.len() == n * channels,
                    n <= 64,
                    256 * channels <= src_len,
            ;
            next = adjust_coverage(next, n, channels, wanted);
        }
        level = level + 1;
        w = nw;
        current = copy_bytes(next.as_slice());
        assert(next@.len() == w * w * channels) by (nonlinear_arith)
            requires
                next@.len() == nw * nw * channels,
                w == nw,
        ;
        result.push(Mip { width: w, height: w, data: next });
    }
    result
}

/// A mip chain has five levels of 16, 8, 4, 2 and 1 texels a side, each
/// holding one byte per channel of every texel, and the first is the
/// source image itself.
pub proof fn lemma_mip_sizes(mips: Seq<Mip>, src: Seq<u8>, ch: nat, coverage: bool)
    requires
        mips_of(mips, src, ch, coverage),
        src.len() == 256 * ch,
    ensures
        mips.len() == 5,
        mips[0].width == 16 && mips[1].width == 8 && mips[2].width == 4,
        mips[3].width == 2 && mips[4].width == 1,
        forall|k: int|
            0 <= k < 5 ==> (#[trigger] mips[k]).height == mips[k].width && mips[k].data@.len()
                == mips[k].width * mips[k].width * ch,
        mips[0].data@ == src,
{
    reveal_with_fuel(mip_width, 5);
    assert(mips[0].width == mip_width(0));
    assert(mips[1].width == mip_width(1));
    assert(mips[2].width == mip_width(2));
    assert(mips[3].width == mip_width(3));
    assert(mips[4].width == mip_width(4));
    let adjust = coverage && ch >= 4;
    let target = coverage_target(src, ch, coverage);
    assert forall|k: int| 0 <= k < 5 implies (#[trigger] mips[k]).height == mips[k].width
        && mips[k].data@.len() == mips[k].width * mips[k].width * ch by {
        assert(mips[k].data@ == mip_level(src, ch, adjust, target, k as nat));
        lemma_mip_level_len(src, ch, adjust, target, k as nat);
    }
}

proof fn lemma_mip_level_len(src: Seq<u8>, ch: nat, adjust: bool, target: nat, level: nat)
    requires
        src.len() == 256 * ch,
        level <= 4,
    ensures
        mip_level(src, ch, adjust, target, level).len() == mip_width(level) * mip_width(level)
            * ch,
    decreases level,
{
    reveal_with_fuel(mip_width, 5);
    if level == 0 {
        assert(16 * 16 * ch == 256 * ch) by (nonlinear_arith);
    } else {
        lemma_mip_level_len(src, ch, adjust, target, (level - 1) as nat);
        let w = mip_width((level - 1) as nat);
        let prev = mip_level(src, ch, adjust, target, (level - 1) as nat);
        let next = box_down(prev, w, ch);
        assert(mip_width(level) == w / 2);
        assert(next.len() == (w / 2) * (w / 2) * ch);
        if adjust {
            let n = (w / 2) * (w / 2);
            assert(coverage_adjust(next, n, ch, wanted_texels(target, n)).len() == next.len());
        }
    }
}

/// Every mip level is the 2x2 box mean of the level above it: byte `c` of
/// texel (`x`, `y`) of level `k + 1` is the truncated mean of channel `c`
/// of the four texels (2x, 2y), (2x+1, 2y), (2x, 2y+1), (2x+1, 2y+1) of
/// level `k`.  Only the alpha of a coverage-preserving chain is set
/// otherwise.
pub proof fn lemma_mip_is_box_mean(
    mips: Seq<Mip>,
    src: Seq<u8>,
    ch: nat,
    coverage: bool,
    k: int,
    x: int,
    y: int,
    c: int,
)
    requires
        mips_of(mips, src, ch, coverage),
        ch >= 1,
        0 <= k < 4,
        0 <= x < mips[k + 1].width,
        0 <= y < mips[k + 1].width,
        0 <= c < ch,
        !(coverage && ch >= 4 && c == 3),
    ensures
        ({
            let w = mips[k].width as int;
            let nw = mips[k + 1].width as int;
            let prev = mips[k].data@;
            &&& w == 2 * nw
            &&& mips[k + 1].data@[(y * nw + x) * ch + c] as int == (prev[((2 * y) * w + 2 * x) * ch
                + c] as int + prev[((2 * y) * w + 2 * x + 1) * ch + c] as int + prev[((2 * y + 1)
                * w + 2 * x) * ch + c] as int + prev[((2 * y + 1) * w + 2 * x + 1) * ch + c] as int)
                / 4
        }),
{
    reveal_with_fuel(mip_width, 5);
    assert(mips[k].width == mip_width(k as nat));
    assert(mips[k + 1].width == mip_width((k + 1) as nat));
    let w = mips[k].width as int;
    let nw = mips[k + 1].width as int;
    assert(w == 2 * nw && nw >= 1) by {
        assert(mip_width(1) == 8);
        assert(mip_width(2) == 4);
        assert(mip_width(3) == 2);
        assert(mip_width(4) == 1);
    }
    let adjust = coverage && ch >= 4;
    let target = coverage_target(src, ch, coverage);
    let prev = mip_level(src, ch, adjust, target, k as nat);
    let next = box_down(prev, w as nat, ch as nat);
    let p = y * nw + x;
    let idx = p * ch + c;
    assert(0 <= p < nw * nw) by (nonlinear_arith)
        requires
            p == y * nw + x,
            0 <= x < nw,
            0 <= y < nw,
    ;
    assert(idx < nw * nw * ch) by (nonlinear_arith)
        requires
            idx == p * ch + c,
            0 <= p < nw * nw,
            0 <= c < ch,
    ;
    lemma_pack(p, c, ch as int);
    lemma_pack(y, x, nw);
    assert(w / 2 == nw);
    assert(mips[k + 1].data@ == mip_level(src, ch, adjust, target, (k + 1) as nat));
    assert(mips[k].data@ == prev);
    assert(mip_level(src, ch, adjust, target, (k + 1) as nat)[idx] == next[idx]) by {
        if adjust {
            assert(idx % (ch as int) != 3);
        }
    }
    let s = prev[texel_index(2 * x, 2 * y, w, ch as int, c)] as int + prev[texel_index(
        2 * x + 1,
        2 * y,
        w,
        ch as int,
        c,
    )] as int + prev[texel_index(2 * x, 2 * y + 1, w, ch as int, c)] as int + prev[texel_index(
        2 * x + 1,
        2 * y + 1,
        w,
        ch as int,
        c,
    )] as int;
    assert(0 <= s / 4 <= 255);
    assert(next[idx] == box_byte(prev, w, ch as int, idx));
}

/// Cut-out mips preserve coverage: with coverage preservation, every
/// level after the source keeps exactly `round(target * n / 256)` opaque
/// texels out of its `n`, where `target` is the source's opaque count
/// (at most all `n`).
pub proof fn lemma_mips_preserve_coverage(src: Seq<u8>, ch: nat, target: nat, level: nat)
    requires
        ch >= 4,
        1 <= level <= 4,
    ensures
        ({
            let n = mip_width(level) * mip_width(level);
            let data = mip_level(src, ch, true, target, level);
            let wanted = wanted_texels(target, n);
            Set::new(|i: int| 0 <= i < n && data[i * ch + 3] >= 128).len() == if wanted < n {
                wanted
            } else {
                n
            }
        }),
{
    let prev = mip_level(src, ch, true, target, (level - 1) as nat);
    let w = mip_width((level - 1) as nat);
    let n = (w / 2) * (w / 2);
    assert(mip_width(level) == w / 2);
    let next = box_down(prev, w, ch);
    lemma_coverage_adjust_count(next, n, ch, wanted_texels(target, n));
}

} // verus!
