use wine_quality::clean::{complete_rows, labelled_rows, rows_of_labels, values_at};
use wine_quality::label::{binarize, labels_as_bool, quality_into_num};
use wine_quality::metrics::{confusion_matrix, ConfusionMatrix, Fraction};
use wine_quality::split::{split_rows, train_len, SplitRatio};

fn mcc_value(cm: &ConfusionMatrix) -> f64 {
    let (a, b, c, d) = cm.mcc_factors();
    let den = (a as f64) * (b as f64) * (c as f64) * (d as f64);
    if den == 0.0 {
        0.0
    } else {
        cm.mcc_numerator() as f64 / den.sqrt()
    }
}

#[test]
fn quality_scores_become_binary_labels() {
    let q = vec![Some(3), Some(6), Some(7), Some(5), Some(8)];
    assert_eq!(
        quality_into_num(&q),
        vec![Some(0), Some(1), Some(1), Some(0), Some(1)]
    );
}

#[test]
fn missing_quality_stays_missing() {
    let q = vec![None, Some(10), None, Some(-4)];
    assert_eq!(quality_into_num(&q), vec![None, Some(1), None, Some(0)]);
    assert_eq!(quality_into_num(&vec![]), vec![]);
}

#[test]
fn threshold_boundaries() {
    assert_eq!(binarize(5), 0);
    assert_eq!(binarize(6), 1);
    assert_eq!(binarize(i64::MIN), 0);
    assert_eq!(binarize(i64::MAX), 1);
}

#[test]
fn nonzero_labels_are_positive() {
    assert_eq!(labels_as_bool(&vec![0, 1, 0, 2, 255]), vec![false, true, false, true, true]);
}

#[test]
fn incomplete_rows_are_dropped_in_order() {
    let present = vec![
        vec![true, false, true, true, true],
        vec![true, true, true, false, true],
    ];
    assert_eq!(complete_rows(&present, 5), vec![0, 2, 4]);
    assert_eq!(complete_rows(&vec![], 3), vec![0, 1, 2]);
    assert_eq!(complete_rows(&present, 0).len(), 0);
}

#[test]
fn values_at_kept_rows() {
    let col = vec![Some(7u8), None, Some(9), Some(4)];
    assert_eq!(values_at(&col, &vec![0, 2, 3]), vec![7, 9, 4]);
}

#[test]
fn labelled_rows_match_kept_rows() {
    let quality = vec![Some(3), Some(6), None, Some(7), Some(5), Some(8)];
    let others = vec![vec![true, true, true, false, true, true]];
    let r = labelled_rows(&quality, others);
    assert_eq!(r.rows, vec![0, 1, 4, 5]);
    assert_eq!(r.labels, vec![false, true, false, true]);
    assert_eq!(r.rows.len(), r.labels.len());
}

#[test]
fn hundred_rows_split_ninety_ten() {
    let s = split_rows(100, SplitRatio::nine_tenths());
    assert_eq!(s.train.len(), 90);
    assert_eq!(s.valid.len(), 10);
    assert_eq!(s.train, (0..90).collect::<Vec<usize>>());
    assert_eq!(s.valid, (90..100).collect::<Vec<usize>>());
}

#[test]
fn split_rounds_down() {
    let s = split_rows(7, SplitRatio::nine_tenths());
    assert_eq!(s.train, vec![0, 1, 2, 3, 4, 5]);
    assert_eq!(s.valid, vec![6]);
    let s = split_rows(5, SplitRatio::nine_tenths());
    assert_eq!(s.train.len(), 4);
    assert_eq!(s.valid, vec![4]);
    let s = split_rows(0, SplitRatio::nine_tenths());
    assert!(s.train.is_empty() && s.valid.is_empty());
}

#[test]
fn split_covers_each_row_once() {
    for n in 0..40usize {
        let s = split_rows(n, SplitRatio::nine_tenths());
        let mut all = s.train.clone();
        all.extend(s.valid.iter().copied());
        assert_eq!(all, (0..n).collect::<Vec<usize>>());
        assert_eq!(s.train.len(), n * 9 / 10);
    }
}

#[test]
fn train_len_of_largest_size() {
    let expected = ((usize::MAX as u128) * 9 / 10) as usize;
    assert_eq!(train_len(usize::MAX, SplitRatio::nine_tenths()), expected);
    assert_eq!(train_len(10, SplitRatio { num: 0, den: 3 }), 0);
    assert_eq!(train_len(10, SplitRatio { num: 3, den: 3 }), 10);
}

#[test]
fn confusion_counts_each_outcome() {
    let pred = vec![true, true, false, false, true, false];
    let actual = vec![true, false, false, true, true, false];
    let cm = confusion_matrix(&pred, &actual);
    assert_eq!(
        cm,
        ConfusionMatrix { true_pos: 2, true_neg: 2, false_pos: 1, false_neg: 1 }
    );
    assert_eq!(cm.total(), pred.len());
}

#[test]
fn accuracy_and_mcc_of_known_matrix() {
    let cm = ConfusionMatrix { true_pos: 8, true_neg: 1, false_pos: 1, false_neg: 0 };
    assert_eq!(cm.accuracy(), Some(Fraction { num: 9, den: 10 }));
    assert_eq!(cm.mcc_numerator(), 8);
    assert_eq!(cm.mcc_factors(), (9, 8, 2, 1));
    assert!((mcc_value(&cm) - 8.0 / 12.0).abs() < 1e-12);
}

#[test]
fn metrics_stay_in_range() {
    let cms = [
        ConfusionMatrix { true_pos: 0, true_neg: 0, false_pos: 5, false_neg: 7 },
        ConfusionMatrix { true_pos: 5, true_neg: 7, false_pos: 0, false_neg: 0 },
        ConfusionMatrix { true_pos: 3, true_neg: 4, false_pos: 2, false_neg: 9 },
    ];
    for cm in cms.iter() {
        let acc = cm.accuracy().unwrap();
        assert!(acc.num <= acc.den);
        let m = mcc_value(cm);
        assert!((-1.0..=1.0).contains(&m));
    }
    assert!((mcc_value(&cms[0]) + 1.0).abs() < 1e-12);
    assert!((mcc_value(&cms[1]) - 1.0).abs() < 1e-12);
}

#[test]
fn empty_validation_set_has_no_accuracy() {
    let cm = confusion_matrix(&vec![], &vec![]);
    assert_eq!(cm.total(), 0);
    assert_eq!(cm.accuracy(), None);
    assert_eq!(cm.mcc_numerator(), 0);
    assert_eq!(cm.mcc_factors(), (0, 0, 0, 0));
    assert_eq!(mcc_value(&cm), 0.0);
}

#[test]
fn one_class_only_gives_zero_mcc() {
    let cm = confusion_matrix(&vec![true, true, true], &vec![true, true, true]);
    assert_eq!(cm.accuracy(), Some(Fraction { num: 3, den: 3 }));
    assert_eq!(cm.mcc_numerator(), 0);
    assert_eq!(mcc_value(&cm), 0.0);
}

#[test]
fn rows_of_labels_keep_complete_labelled_rows() {
    let labels = vec![Some(1u8), None, Some(0), Some(2), Some(0)];
    let others = vec![vec![true, true, true, true, false], vec![true, true, false, true, true]];
    let r = rows_of_labels(&labels, others);
    assert_eq!(r.rows, vec![0, 3]);
    assert_eq!(r.labels, vec![true, true]);
}
