use vegafusion::is_valid::is_valid;
use vegafusion::length::{vega_length, ArrayArg, LengthArg, LengthResult, ScalarArg};

fn scalar(r: LengthResult) -> Option<i64> {
    match r {
        LengthResult::Scalar(v) => v,
        LengthResult::Array(_) => panic!("expected a scalar"),
    }
}

fn array(r: LengthResult) -> Vec<Option<i64>> {
    match r {
        LengthResult::Array(v) => v,
        LengthResult::Scalar(_) => panic!("expected an array"),
    }
}

#[test]
fn scalar_lengths() {
    assert_eq!(scalar(vega_length(&LengthArg::Scalar(ScalarArg::List(Some(3))))), Some(3));
    assert_eq!(scalar(vega_length(&LengthArg::Scalar(ScalarArg::List(None)))), None);
    assert_eq!(scalar(vega_length(&LengthArg::Scalar(ScalarArg::Str(Some("hello".to_string()))))), Some(5));
    assert_eq!(scalar(vega_length(&LengthArg::Scalar(ScalarArg::Str(Some("héllo".to_string()))))), Some(5));
    assert_eq!(scalar(vega_length(&LengthArg::Scalar(ScalarArg::Str(Some("é".to_string()))))), Some(1));
    assert_eq!(scalar(vega_length(&LengthArg::Scalar(ScalarArg::Str(Some("a\u{1F600}".to_string()))))), Some(3));
    assert_eq!(scalar(vega_length(&LengthArg::Scalar(ScalarArg::Str(Some("\u{FFFF}".to_string()))))), Some(1));
    assert_eq!(scalar(vega_length(&LengthArg::Scalar(ScalarArg::Str(None)))), None);
    assert_eq!(scalar(vega_length(&LengthArg::Scalar(ScalarArg::Other))), None);
}

#[test]
fn string_column_lengths() {
    let arg = LengthArg::Array(ArrayArg::Strings(vec![Some("ab".to_string()), None, Some(String::new()), Some("日本\u{10000}".to_string())]));
    assert_eq!(array(vega_length(&arg)), vec![Some(2), None, Some(0), Some(4)]);
}

#[test]
fn list_column_lengths() {
    let arg = LengthArg::Array(ArrayArg::List { offsets: vec![0, 2, 2, 7] });
    assert_eq!(array(vega_length(&arg)), vec![Some(2), Some(0), Some(5)]);
    let arg = LengthArg::Array(ArrayArg::List { offsets: vec![4] });
    assert!(array(vega_length(&arg)).is_empty());
}

#[test]
fn fixed_size_list_column_length() {
    let arg = LengthArg::Array(ArrayArg::FixedSizeList { size: 4, rows: 10 });
    assert_eq!(scalar(vega_length(&arg)), Some(4));
}

#[test]
fn other_column_is_null() {
    let arg = LengthArg::Array(ArrayArg::Other { rows: 3 });
    assert_eq!(array(vega_length(&arg)), vec![None, None, None]);
}

#[test]
fn is_valid_marks_non_null() {
    assert_eq!(is_valid(&vec![Some(1.5), None, Some(f64::NAN)]), vec![true, false, true]);
    assert!(is_valid::<i32>(&vec![]).is_empty());
}
