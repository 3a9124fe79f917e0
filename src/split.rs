//! The split of a dataset's rows into a training part and a validation part.

use vstd::prelude::*;
use vstd::arithmetic::div_mod::{lemma_div_is_ordered, lemma_div_multiples_vanish};

verus! {

/// Numerator of the share of rows that goes to training.
pub const TRAIN_SHARE_NUM: u32 = 9;

/// Denominator of the share of rows that goes to training.
pub const TRAIN_SHARE_DEN: u32 = 10;

/// The share `num / den` of the rows that goes to training.
#[derive(Clone, Copy, Debug, PartialEq, Eq, Structural)]
pub struct SplitRatio {
    pub num: u32,
    pub den: u32,
}

impl SplitRatio {
    /// A share between 0 and 1 with a non-zero denominator.
    pub open spec fn valid(self) -> bool {
        0 < self.den && self.num <= self.den
    }

    /// The default share, nine tenths.
    pub fn nine_tenths() -> (r: SplitRatio)
        ensures
            r.num == TRAIN_SHARE_NUM,
            r.den == TRAIN_SHARE_DEN,
            r.valid(),
    {
        SplitRatio { num: TRAIN_SHARE_NUM, den: TRAIN_SHARE_DEN }
    }
}

/// Number of training rows out of `n`: ⌊n · num / den⌋.
pub open spec fn train_size(n: int, ratio: SplitRatio) -> int {
    n * ratio.num / ratio.den as int
}

/// Number of training rows out of `n`: ⌊n · num / den⌋, never more than `n`.
pub fn train_len(n: usize, ratio: SplitRatio) -> (t: usize)
    requires
        ratio.valid(),
    ensures
        t == train_size(n as int, ratio),
        t <= n,
{
    assert((n as int) * (ratio.num as int) <= 0xffff_ffff_ffff_ffff * 0xffff_ffff) by (
    nonlinear_arith)
        requires
            0 <= n <= 0xffff_ffff_ffff_ffff,
            0 <= ratio.num <= 0xffff_ffff,
    ;
    let prod: u128 = (n as u128) * (ratio.num as u128);
    let q: u128 = prod / (ratio.den as u128);
    proof {
        let ni = n as int;
        let num = ratio.num as int;
        let den = ratio.den as int;
        assert(ni * num <= den * ni) by (nonlinear_arith)
            requires
                0 <= ni,
                0 <= num <= den,
        ;
        lemma_div_is_ordered(ni * num, den * ni, den);
        lemma_div_multiples_vanish(ni, den);
    }
    q as usize
}

/// Row indices of the two parts of a dataset.
pub struct Split {
    /// Indices of the training rows, increasing.
    pub train: Vec<usize>,
    /// Indices of the validation rows, increasing.
    pub valid: Vec<usize>,
}

/// Splits rows `0..n` in order: the first ⌊n · num / den⌋ rows train, the rest
/// validate. Each row lands in exactly one part.
pub fn split_rows(n: usize, ratio: SplitRatio) -> (s: Split)
    requires
        ratio.valid(),
    ensures
        s.train@ == Seq::new(train_size(n as int, ratio) as nat, |i: int| i as usize),
        s.valid@ == Seq::new(
            (n - train_size(n as int, ratio)) as nat,
            |i: int| (train_size(n as int, ratio) + i) as usize,
        ),
        s.train@.len() + s.valid@.len() == n,
        forall|i: int, j: int|
            0 <= i < s.train@.len() && 0 <= j < s.valid@.len() ==> #[trigger] s.train@[i]
                != #[trigger] s.valid@[j],
        s.train@ + s.valid@ == Seq::new(n as nat, |r: int| r as usize),
{
    let t = train_len(n, ratio);
    let mut train: Vec<usize> = Vec::with_capacity(t);
    let mut i: usize = 0;
    while i < t
        invariant
            i <= t,
            train@ == Seq::new(i as nat, |k: int| k as usize),
        decreases t - i,
    {
        train.push(i);
        i = i + 1;
    }
    let mut valid: Vec<usize> = Vec::with_capacity(n - t);
    let mut j: usize = t;
    while j < n
        invariant
            t <= j <= n,
            valid@ == Seq::new((j - t) as nat, |k: int| (t + k) as usize),
        decreases n - j,
    {
        valid.push(j);
        j = j + 1;
    }
    assert(train@ + valid@ =~= Seq::new(n as nat, |r: int| r as usize));
    Split { train, valid }
}

} // verus!
