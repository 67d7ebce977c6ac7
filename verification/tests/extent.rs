use vegafusion::extent::{extent_of, Column, Extent, ExtentTransform, ExtentTransformSpec, Table};

fn table() -> Table {
    Table {
        columns: vec![
            Column { name: "a".to_string(), values: vec![Some(3), None, Some(-2), Some(7)] },
            Column { name: "b".to_string(), values: vec![None, None] },
            Column { name: "a".to_string(), values: vec![Some(100)] },
        ],
    }
}

#[test]
fn new_copies_spec() {
    let spec = ExtentTransformSpec { field: "a".to_string(), signal: Some("s".to_string()) };
    let tx = ExtentTransform::new(&spec);
    assert_eq!(tx.field, "a");
    assert_eq!(tx.signal, Some("s".to_string()));
}

#[test]
fn extent_with_signal() {
    let tx = ExtentTransform { field: "a".to_string(), signal: Some("s".to_string()) };
    assert_eq!(tx.call(&table()), vec![Extent { min: Some(-2), max: Some(7) }]);
    assert_eq!(tx.output_signals(), vec!["s".to_string()]);
}

#[test]
fn extent_of_all_null_column() {
    let tx = ExtentTransform { field: "b".to_string(), signal: Some("s".to_string()) };
    assert_eq!(tx.call(&table()), vec![Extent { min: None, max: None }]);
}

#[test]
fn extent_without_signal() {
    let tx = ExtentTransform { field: "missing".to_string(), signal: None };
    assert!(tx.call(&table()).is_empty());
    assert!(tx.output_signals().is_empty());
}

#[test]
fn extent_of_values() {
    assert_eq!(extent_of(&vec![]), Extent { min: None, max: None });
    assert_eq!(extent_of(&vec![Some(5)]), Extent { min: Some(5), max: Some(5) });
    assert_eq!(
        extent_of(&vec![Some(i64::MAX), Some(i64::MIN), None]),
        Extent { min: Some(i64::MIN), max: Some(i64::MAX) }
    );
}
