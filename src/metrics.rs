//! The confusion matrix of a binary classifier and the metrics derived from it.

use vstd::prelude::*;

verus! {

/// Number of positions below `n` where the prediction is `p` and the truth is `a`.
pub open spec fn count_outcome(pred: Seq<bool>, actual: Seq<bool>, p: bool, a: bool, n: int) -> nat
    decreases n,
{
    if n <= 0 {
        0
    } else {
        count_outcome(pred, actual, p, a, n - 1) + if pred[n - 1] == p && actual[n - 1] == a {
            1nat
        } else {
            0nat
        }
    }
}

/// Counts of the four outcomes of a binary prediction.
#[derive(Clone, Copy, Debug, PartialEq, Eq, Structural)]
pub struct ConfusionMatrix {
    pub true_pos: usize,
    pub true_neg: usize,
    pub false_pos: usize,
    pub false_neg: usize,
}

/// A non-negative rational number `num / den` with `den > 0`.
#[derive(Clone, Copy, Debug, PartialEq, Eq, Structural)]
pub struct Fraction {
    pub num: usize,
    pub den: usize,
}

impl ConfusionMatrix {
    /// Number of samples counted.
    pub open spec fn total_spec(self) -> int {
        self.true_pos + self.true_neg + self.false_pos + self.false_neg
    }

    /// Number of correct predictions.
    pub open spec fn correct_spec(self) -> int {
        self.true_pos + self.true_neg
    }

    /// The numerator of the Matthews correlation coefficient: TP·TN − FP·FN.
    pub open spec fn mcc_numerator_spec(self) -> int {
        self.true_pos * self.true_neg - self.false_pos * self.false_neg
    }

    /// The four factors under the square root in the Matthews correlation
    /// coefficient's denominator: (TP+FP), (TP+FN), (TN+FP), (TN+FN).
    pub open spec fn mcc_factors_spec(self) -> (int, int, int, int) {
        (
            self.true_pos + self.false_pos,
            self.true_pos + self.false_neg,
            self.true_neg + self.false_pos,
            self.true_neg + self.false_neg,
        )
    }

    /// The square of the Matthews correlation coefficient's denominator.
    pub open spec fn mcc_denominator_sq_spec(self) -> int {
        let f = self.mcc_factors_spec();
        f.0 * f.1 * f.2 * f.3
    }

    /// Number of samples counted.
    pub fn total(&self) -> (r: usize)
        requires
            self.total_spec() <= usize::MAX,
        ensures
            r == self.total_spec(),
    {
        self.true_pos + self.true_neg + self.false_pos + self.false_neg
    }

    /// The accuracy (TP+TN) / (TP+TN+FP+FN); `None` when nothing was counted,
    /// where the ratio is undefined.
    pub fn accuracy(&self) -> (r: Option<Fraction>)
        requires
            self.total_spec() <= usize::MAX,
        ensures
            r is None <==> self.total_spec() == 0,
            r matches Some(f) ==> f.num == self.correct_spec() && f.den == self.total_spec(),
    {
        let den = self.total();
        if den == 0 {
            None
        } else {
            Some(Fraction { num: self.true_pos + self.true_neg, den })
        }
    }

    /// The numerator TP·TN − FP·FN of the Matthews correlation coefficient.
    pub fn mcc_numerator(&self) -> (r: i128)
        requires
            self.total_spec() <= usize::MAX,
        ensures
            r == self.mcc_numerator_spec(),
    {
        let tp = self.true_pos as i128;
        let tn = self.true_neg as i128;
        let fp = self.false_pos as i128;
        let fneg = self.false_neg as i128;
        proof {
            lemma_product_of_parts(tp as int, tn as int);
            lemma_product_of_parts(fp as int, fneg as int);
        }
        tp * tn - fp * fneg
    }

    /// The factors (TP+FP), (TP+FN), (TN+FP), (TN+FN) whose product is the
    /// square of the Matthews correlation coefficient's denominator.
    pub fn mcc_factors(&self) -> (r: (usize, usize, usize, usize))
        requires
            self.total_spec() <= usize::MAX,
        ensures
            r.0 == self.mcc_factors_spec().0,
            r.1 == self.mcc_factors_spec().1,
            r.2 == self.mcc_factors_spec().2,
            r.3 == self.mcc_factors_spec().3,
    {
        (
            self.true_pos + self.false_pos,
            self.true_pos + self.false_neg,
            self.true_neg + self.false_pos,
            self.true_neg + self.false_neg,
        )
    }
}

/// Two counts whose sum fits a `usize` have a product far inside `i128`.
proof fn lemma_product_of_parts(a: int, b: int)
    requires
        0 <= a,
        0 <= b,
        a + b <= usize::MAX,
    ensures
        0 <= a * b < 0x4000_0000_0000_0000_0000_0000_0000_0000,
{
    assert(4 * (a * b) <= (a + b) * (a + b)) by (nonlinear_arith);
    assert((a + b) * (a + b) <= 0xffff_ffff_ffff_ffff * 0xffff_ffff_ffff_ffff) by (nonlinear_arith)
        requires
            0 <= a + b <= 0xffff_ffff_ffff_ffff,
    ;
    assert(0 <= a * b) by (nonlinear_arith)
        requires
            0 <= a,
            0 <= b,
    ;
}

/// Counts the outcomes of predictions against the true classes, position by
/// position.
pub fn confusion_matrix(pred: &Vec<bool>, actual: &Vec<bool>) -> (r: ConfusionMatrix)
    requires
        pred@.len() == actual@.len(),
    ensures
        r.true_pos == count_outcome(pred@, actual@, true, true, pred@.len() as int),
        r.true_neg == count_outcome(pred@, actual@, false, false, pred@.len() as int),
        r.false_pos == count_outcome(pred@, actual@, true, false, pred@.len() as int),
        r.false_neg == count_outcome(pred@, actual@, false, true, pred@.len() as int),
        r.total_spec() == pred@.len(),
{
    let mut cm = ConfusionMatrix { true_pos: 0, true_neg: 0, false_pos: 0, false_neg: 0 };
    let mut i: usize = 0;
    while i < pred.len()
        invariant
            pred@.len() == actual@.len(),
            i <= pred@.len(),
            cm.true_pos == count_outcome(pred@, actual@, true, true, i as int),
            cm.true_neg == count_outcome(pred@, actual@, false, false, i as int),
            cm.false_pos == count_outcome(pred@, actual@, true, false, i as int),
            cm.false_neg == count_outcome(pred@, actual@, false, true, i as int),
            cm.total_spec() == i,
        decreases pred@.len() - i,
    {
        let p = pred[i];
        let a = actual[i];
        if p && a {
            cm.true_pos = cm.true_pos + 1;
        } else if !p && !a {
            cm.true_neg = cm.true_neg + 1;
        } else if p {
            cm.false_pos = cm.false_pos + 1;
        } else {
            cm.false_neg = cm.false_neg + 1;
        }
        i = i + 1;
    }
    cm
}

/// Every position falls under exactly one of the four outcomes, so the four
/// counts add up to the number of positions.
pub proof fn lemma_outcomes_cover(pred: Seq<bool>, actual: Seq<bool>, n: int)
    requires
        0 <= n,
    ensures
        count_outcome(pred, actual, true, true, n) + count_outcome(pred, actual, false, false, n)
            + count_outcome(pred, actual, true, false, n) + count_outcome(
            pred,
            actual,
            false,
            true,
            n,
        ) == n,
    decreases n,
{
    if n > 0 {
        lemma_outcomes_cover(pred, actual, n - 1);
    }
}

/// The counts of a confusion matrix built from predictions and true classes
/// of equal length add up to that length.
pub proof fn lemma_confusion_total(pred: Seq<bool>, actual: Seq<bool>)
    requires
        pred.len() == actual.len(),
    ensures
        count_outcome(pred, actual, true, true, pred.len() as int) + count_outcome(
            pred,
            actual,
            false,
            false,
            pred.len() as int,
        ) + count_outcome(pred, actual, true, false, pred.len() as int) + count_outcome(
            pred,
            actual,
            false,
            true,
            pred.len() as int,
        ) == pred.len(),
{
    lemma_outcomes_cover(pred, actual, pred.len() as int);
}

/// Accuracy lies in [0, 1]: the correct predictions never outnumber the
/// samples.
pub proof fn lemma_accuracy_bounded(cm: ConfusionMatrix)
    ensures
        0 <= cm.correct_spec() <= cm.total_spec(),
{
}

/// The Matthews correlation coefficient lies in [-1, 1]: the square of its
/// numerator never exceeds the square of its denominator. Where the
/// denominator is 0, so is the numerator, and the coefficient is taken as 0.
pub proof fn lemma_mcc_bounded(cm: ConfusionMatrix)
    ensures
        cm.mcc_numerator_spec() * cm.mcc_numerator_spec() <= cm.mcc_denominator_sq_spec(),
        cm.mcc_denominator_sq_spec() >= 0,
        cm.mcc_denominator_sq_spec() == 0 ==> cm.mcc_numerator_spec() == 0,
{
    let a = cm.true_pos as int;
    let b = cm.true_neg as int;
    let c = cm.false_pos as int;
    let d = cm.false_neg as int;
    lemma_mcc_square(a, b, c, d);
}

proof fn lemma_mcc_square(a: int, b: int, c: int, d: int)
    requires
        0 <= a,
        0 <= b,
        0 <= c,
        0 <= d,
    ensures
        (a * b - c * d) * (a * b - c * d) <= (a + c) * (a + d) * (b + c) * (b + d),
        (a + c) * (a + d) * (b + c) * (b + d) >= 0,
        (a + c) * (a + d) * (b + c) * (b + d) == 0 ==> a * b - c * d == 0,
{
    let s = a * b + c * d;
    let x = a * d + b * c;
    let y = a * c + b * d;
    assert((a + c) * (b + d) == s + x) by (nonlinear_arith)
        requires
            s == a * b + c * d,
            x == a * d + b * c,
    ;
    assert((a + d) * (b + c) == s + y) by (nonlinear_arith)
        requires
            s == a * b + c * d,
            y == a * c + b * d,
    ;
    assert((a + c) * (a + d) * (b + c) * (b + d) == (s + x) * (s + y)) by (nonlinear_arith)
        requires
            (a + c) * (b + d) == s + x,
            (a + d) * (b + c) == s + y,
    ;
    assert((a * b - c * d) * (a * b - c * d) == s * s - 4 * (a * b) * (c * d)) by (nonlinear_arith)
        requires
            s == a * b + c * d,
    ;
    assert(0 <= s && 0 <= x && 0 <= y && 0 <= (a * b) * (c * d)) by (nonlinear_arith)
        requires
            0 <= a,
            0 <= b,
            0 <= c,
            0 <= d,
            s == a * b + c * d,
            x == a * d + b * c,
            y == a * c + b * d,
    ;
    assert(s * s <= (s + x) * (s + y)) by (nonlinear_arith)
        requires
            0 <= s,
            0 <= x,
            0 <= y,
    ;
    assert((a + c) * (a + d) * (b + c) * (b + d) >= 0) by (nonlinear_arith)
        requires
            0 <= a,
            0 <= b,
            0 <= c,
            0 <= d,
    ;
    if (a + c) * (a + d) * (b + c) * (b + d) == 0 {
        assert(a + c == 0 || a + d == 0 || b + c == 0 || b + d == 0) by (nonlinear_arith)
            requires
                (a + c) * (a + d) * (b + c) * (b + d) == 0,
        ;
        assert(a * b - c * d == 0) by (nonlinear_arith)
            requires
                a + c == 0 || a + d == 0 || b + c == 0 || b + d == 0,
                0 <= a,
                0 <= b,
                0 <= c,
                0 <= d,
        ;
    }
}

} // verus!
