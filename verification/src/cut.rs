//! Cutting a run of samples into pieces of one size, the last of which may be
//! shorter.

use vstd::arithmetic::div_mod::lemma_fundamental_div_mod;
use vstd::prelude::*;

verus! {

/// Where piece `i` begins, where `size` is the size of a piece.
pub open spec fn cut_start(size: int, i: int) -> int {
    i * size
}

/// Where piece `i` of `len` samples ends.
pub open spec fn cut_end(len: int, size: int, i: int) -> int {
    vstd::math::min((i + 1) * size, len)
}

/// How many pieces `len` samples make.
pub open spec fn cut_count(len: int, size: int) -> int {
    (len + size - 1) / size
}

/// The pieces themselves.
pub open spec fn cuts<T>(samples: Seq<T>, size: int) -> Seq<Seq<T>> {
    Seq::new(
        cut_count(samples.len() as int, size) as nat,
        |i: int|
            samples.subrange(cut_start(size, i), cut_end(samples.len() as int, size, i)),
    )
}

/// A piece is there exactly where samples are left for it.
pub proof fn lemma_cut_count(len: int, size: int, i: int)
    requires
        0 <= len,
        0 < size,
        0 <= i,
    ensures
        0 <= cut_count(len, size) <= len,
        cut_start(size, i) < len <==> i < cut_count(len, size),
        i < cut_count(len, size) ==> cut_start(size, i) < cut_end(len, size, i),
        cut_start(size, i + 1) == cut_start(size, i) + size,
        i < cut_count(len, size) ==> (cut_end(len, size, i) == len <==> i + 1 == cut_count(
            len,
            size,
        )),
        cut_end(len, size, i) - cut_start(size, i) <= size,
        i + 1 < cut_count(len, size) ==> cut_end(len, size, i) == cut_start(size, i + 1),
{
    let q = cut_count(len, size);
    lemma_fundamental_div_mod(len + size - 1, size);
    let r = (len + size - 1) % size;
    assert(0 <= r < size);
    assert(len + size - 1 == size * q + r);
    assert(0 <= q <= len) by (nonlinear_arith)
        requires
            len + size - 1 == size * q + r,
            0 <= r < size,
            0 < size,
            0 <= len,
    ;
    assert(i * size < len <==> i < q) by (nonlinear_arith)
        requires
            len + size - 1 == size * q + r,
            0 <= r < size,
            0 < size,
    ;
    assert((i + 1) * size < len <==> i + 1 < q) by (nonlinear_arith)
        requires
            len + size - 1 == size * q + r,
            0 <= r < size,
            0 < size,
    ;
    assert((i + 1) * size == i * size + size) by (nonlinear_arith);
}

/// The first `k` pieces are the samples up to the point where piece `k` begins.
pub proof fn lemma_cuts_prefix<T>(samples: Seq<T>, size: int, k: int)
    requires
        0 < size,
        0 <= k <= cut_count(samples.len() as int, size),
    ensures
        cuts(samples, size).take(k).flatten() == samples.take(
            vstd::math::min(cut_start(size, k), samples.len() as int),
        ),
    decreases k,
{
    let len = samples.len() as int;
    let all = cuts(samples, size);
    if k == 0 {
        assert(cut_start(size, 0) == 0);
        assert(all.take(0) =~= Seq::empty());
        assert(all.take(0).flatten() =~= samples.take(0));
    } else {
        lemma_cuts_prefix(samples, size, k - 1);
        lemma_cut_count(len, size, k - 1);
        lemma_cut_count(len, size, k);
        assert(0 <= cut_start(size, k - 1)) by (nonlinear_arith)
            requires
                0 < size,
                1 <= k,
        ;
        assert(all.take(k) =~= all.take(k - 1).push(all[k - 1]));
        all.take(k - 1).lemma_flatten_push(all[k - 1]);
        assert(samples.take(cut_start(size, k - 1)) + all[k - 1] =~= samples.take(
            cut_end(len, size, k - 1),
        ));
    }
}

/// Nothing is lost and nothing is heard twice: the pieces, one after another,
/// are the samples.
pub proof fn law_cuts_cover<T>(samples: Seq<T>, size: int)
    requires
        0 < size,
    ensures
        cuts(samples, size).flatten() == samples,
{
    let len = samples.len() as int;
    let all = cuts(samples, size);
    let n = cut_count(len, size);
    lemma_cut_count(len, size, 0);
    lemma_cut_count(len, size, n);
    lemma_cuts_prefix(samples, size, n);
    assert(all.take(n) =~= all);
    assert(samples.take(len) =~= samples);
}

/// Every piece holds at least one sample and at most `size`, and all but the
/// last hold exactly `size`.
pub proof fn law_cuts_sized<T>(samples: Seq<T>, size: int, i: int)
    requires
        0 < size,
        0 <= i < cuts(samples, size).len(),
    ensures
        0 < cuts(samples, size)[i].len() <= size,
        i + 1 < cuts(samples, size).len() ==> cuts(samples, size)[i].len() == size,
{
    lemma_cut_count(samples.len() as int, size, i);
    assert(0 <= cut_start(size, i)) by (nonlinear_arith)
        requires
            0 < size,
            0 <= i,
    ;
}

/// Piece `i` is the samples from `i * size` on, `size` of them or as many as are
/// left; and there are just enough pieces for all samples.
pub proof fn law_cuts_are_ranges<T>(samples: Seq<T>, size: int, i: int)
    requires
        0 < size,
        0 <= i < cuts(samples, size).len(),
    ensures
        i * size < samples.len(),
        samples.len() - i * size <= size ==> cuts(samples, size)[i] == samples.skip(i * size),
        samples.len() - i * size > size ==> cuts(samples, size)[i] == samples.subrange(
            i * size,
            i * size + size,
        ),
        cuts(samples, size).len() * size - size < samples.len() <= cuts(samples, size).len() * size,
{
    let len = samples.len() as int;
    let n = cut_count(len, size);
    lemma_cut_count(len, size, i);
    lemma_cut_count(len, size, n);
    lemma_cut_count(len, size, n - 1);
    assert((i + 1) * size == i * size + size) by (nonlinear_arith);
    assert((n - 1) * size == n * size - size) by (nonlinear_arith);
    assert(0 <= i * size) by (nonlinear_arith)
        requires
            0 < size,
            0 <= i,
    ;
    if len - i * size <= size {
        assert(cuts(samples, size)[i] =~= samples.skip(i * size));
    }
}

}
