//! Reading slices of a cumulative spectrum.
//!
//! The audio side keeps the spectrum as a prefix-sum array: entry `i` holds
//! the sum of the original bins `0..=i`. The sum of the original bins
//! `a..=b` is then `cum[b]` when `a == 0`, and `cum[b] - cum[a - 1]` otherwise.
//! This module decides which entries take part; the arithmetic on the
//! (floating-point) entries is the caller's.
use vstd::prelude::*;

verus! {

/// Which entries of a cumulative spectrum make up the sum of a slice.
#[derive(Clone, Copy, Debug, PartialEq, Eq, Structural)]
pub enum SliceTerms {
    /// The slice is empty or out of range: its sum counts as zero.
    Zero,
    /// The sum is `cum[b]`.
    Prefix(usize),
    /// The sum is `cum[b] - cum[p]`, written `Difference(b, p)`.
    Difference(usize, usize),
}

/// The terms for the slice `a..=b` of a cumulative spectrum of length `len`.
pub open spec fn slice_terms(len: nat, a: nat, b: nat) -> SliceTerms {
    if len == 0 || a > b || b >= len {
        SliceTerms::Zero
    } else if a == 0 {
        SliceTerms::Prefix(b as usize)
    } else {
        SliceTerms::Difference(b as usize, (a - 1) as usize)
    }
}

/// Which entries of a cumulative spectrum of length `len` the sum of the
/// slice `a..=b` is taken from: `cum[b]` when `a == 0`, `cum[b] - cum[a - 1]`
/// otherwise, and none (a zero sum) when the slice is empty or out of range.
pub fn cum_sum_terms(len: usize, a: usize, b: usize) -> (t: SliceTerms)
    ensures
        t == slice_terms(len as nat, a as nat, b as nat),
{
    if len == 0 || a > b || b >= len {
        return SliceTerms::Zero;
    }
    if a == 0 {
        SliceTerms::Prefix(b)
    } else {
        SliceTerms::Difference(b, a - 1)
    }
}

/// The sum of a sequence of integers.
pub open spec fn total(s: Seq<int>) -> int
    decreases s.len(),
{
    if s.len() == 0 {
        0
    } else {
        total(s.drop_last()) + s.last()
    }
}

/// The prefix sums of `s`: entry `i` is the sum of `s[0..=i]`.
pub open spec fn cumulative(s: Seq<int>) -> Seq<int> {
    Seq::new(s.len(), |i: int| total(s.subrange(0, i + 1)))
}

/// The value that the terms denote on a cumulative spectrum.
pub open spec fn terms_value(t: SliceTerms, cum: Seq<int>) -> int {
    match t {
        SliceTerms::Zero => 0,
        SliceTerms::Prefix(b) => cum[b as int],
        SliceTerms::Difference(b, p) => cum[b as int] - cum[p as int],
    }
}

proof fn lemma_total_split(s: Seq<int>, a: int, b: int)
    requires
        0 <= a <= b <= s.len(),
    ensures
        total(s.subrange(0, b)) == total(s.subrange(0, a)) + total(s.subrange(a, b)),
    decreases b - a,
{
    if b == a {
        assert(s.subrange(a, b).len() == 0);
    } else {
        lemma_total_split(s, a, b - 1);
        assert(s.subrange(0, b).drop_last() =~= s.subrange(0, b - 1));
        assert(s.subrange(a, b).drop_last() =~= s.subrange(a, b - 1));
    }
}

/// On the prefix sums of an integer spectrum, the terms of slice `a..=b`
/// add up to the sum of the original bins `a..=b` when the slice lies in
/// range, and to zero otherwise.
pub proof fn lemma_slice_terms_sum(orig: Seq<int>, a: nat, b: nat)
    requires
        orig.len() <= usize::MAX,
    ensures
        terms_value(slice_terms(orig.len(), a, b), cumulative(orig)) == if a <= b < orig.len() {
            total(orig.subrange(a as int, b as int + 1))
        } else {
            0
        },
{
    if a <= b < orig.len() {
        lemma_total_split(orig, a as int, b as int + 1);
        assert(cumulative(orig)[b as int] == total(orig.subrange(0, b as int + 1)));
        if a == 0 {
            assert(orig.subrange(0, 0).len() == 0);
            assert(total(orig.subrange(0, 0)) == 0);
        } else {
            assert(cumulative(orig)[a - 1] == total(orig.subrange(0, a as int)));
        }
    }
}

/// How many original bins the slices `a..=b` cover together.
pub open spec fn bins_width_total(bins: Seq<(usize, usize)>) -> int
    decreases bins.len(),
{
    if bins.len() == 0 {
        0
    } else {
        bins_width_total(bins.drop_last()) + (bins.last().1 - bins.last().0 + 1)
    }
}

/// Every slice is well ordered and its width fits in a `usize`.
pub open spec fn slices_countable(bins: Seq<(usize, usize)>) -> bool {
    forall|i: int| 0 <= i < bins.len() ==> {
        let (a, b) = #[trigger] bins[i];
        a <= b && b - a + 1 <= usize::MAX
    }
}

/// The number of original bins that the slices cover together (the divisor
/// of a toggle effect's average).
pub fn bins_width(bins: &Vec<(usize, usize)>) -> (w: u128)
    requires
        slices_countable(bins@),
    ensures
        w == bins_width_total(bins@),
{
    let mut w: u128 = 0;
    let mut i: usize = 0;
    while i < bins.len()
        invariant
            i <= bins.len(),
            slices_countable(bins@),
            w == bins_width_total(bins@.subrange(0, i as int)),
            w <= i * (usize::MAX as int),
        decreases bins.len() - i,
    {
        let (a, b) = bins[i];
        assert(bins@[i as int] == (a, b));
        let width: usize = b - a + 1;
        proof {
            assert(bins@.subrange(0, i + 1).drop_last() =~= bins@.subrange(0, i as int));
            assert((i + 1) * (usize::MAX as int) == i * (usize::MAX as int) + usize::MAX) by (nonlinear_arith);
            assert(i < usize::MAX);
            assert((i + 1) * (usize::MAX as int) <= (usize::MAX as int) * (usize::MAX as int)) by (nonlinear_arith)
                requires i + 1 <= usize::MAX;
            assert((usize::MAX as int) * (usize::MAX as int) < u128::MAX) by (nonlinear_arith)
                requires usize::MAX < 0x1_0000_0000_0000_0000int;
        }
        w = w + width as u128;
        i = i + 1;
    }
    proof {
        assert(bins@.subrange(0, bins@.len() as int) =~= bins@);
    }
    w
}


/// The bins that slices cover add up over a list of slices: a single slice
/// `a..=b` covers `b - a + 1` bins, and two lists together cover what each covers.
pub proof fn lemma_bins_width_adds(x: Seq<(usize, usize)>, y: Seq<(usize, usize)>)
    ensures
        bins_width_total(x + y) == bins_width_total(x) + bins_width_total(y),
        forall|a: usize, b: usize| bins_width_total(seq![(a, b)]) == b - a + 1,
    decreases y.len(),
{
    assert forall|a: usize, b: usize| bins_width_total(seq![(a, b)]) == b - a + 1 by {
        let one = seq![(a, b)];
        assert(one.len() == 1);
        assert(one.last() == (a, b));
        assert(one.drop_last() =~= Seq::<(usize, usize)>::empty());
        assert(bins_width_total(Seq::<(usize, usize)>::empty()) == 0);
        assert(bins_width_total(one) == bins_width_total(one.drop_last()) + (b - a + 1));
    }
    if y.len() == 0 {
        assert(x + y =~= x);
    } else {
        lemma_bins_width_adds(x, y.drop_last());
        assert((x + y).drop_last() =~= x + y.drop_last());
        assert((x + y).last() == y.last());
    }
}

} // verus!
