use polars::prelude::{Column, NamedFrom};
use wine_quality::clean::{labelled_rows_of_column, LabelError};
use wine_quality::label::quality_column_into_num;

fn quality_column() -> Column {
    Column::new("quality".into(), vec![Some(3i64), Some(6), None, Some(7), Some(5), Some(8)])
}

#[test]
fn quality_column_becomes_binary_labels() {
    let c = quality_column_into_num(&quality_column()).unwrap();
    let cells: Vec<Option<u8>> = c.u8().unwrap().iter().collect();
    assert_eq!(cells, vec![Some(0), Some(1), None, Some(1), Some(0), Some(1)]);
}

#[test]
fn text_column_is_not_labelled() {
    let c = Column::new("quality".into(), vec!["good", "bad"]);
    assert!(quality_column_into_num(&c).is_err());
    assert!(matches!(
        labelled_rows_of_column(&c, vec![]),
        Err(LabelError::NotIntegers(_))
    ));
}

#[test]
fn labelled_rows_from_column() {
    let others = vec![vec![true, true, true, false, true, true]];
    let r = labelled_rows_of_column(&quality_column(), others).ok().unwrap();
    assert_eq!(r.kept.rows, vec![0, 1, 4, 5]);
    assert_eq!(r.kept.labels, vec![false, true, false, true]);
    let cells: Vec<Option<u8>> = r.column.u8().unwrap().iter().collect();
    assert_eq!(cells, vec![Some(0), Some(1), None, Some(1), Some(0), Some(1)]);
}

#[test]
fn mismatched_columns_are_refused() {
    let others = vec![vec![true, true]];
    assert!(matches!(
        labelled_rows_of_column(&quality_column(), others),
        Err(LabelError::RowCountMismatch)
    ));
}

#[test]
fn narrower_integer_column_is_refused() {
    let c = Column::new("quality".into(), vec![3i32, 6]);
    assert!(quality_column_into_num(&c).is_err());
    assert!(matches!(
        labelled_rows_of_column(&c, vec![]),
        Err(LabelError::NotIntegers(_))
    ));
}
