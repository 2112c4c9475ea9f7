use wayglance::dynamic::FromData;
use wayglance::error::ConvError;
use wayglance::layout::{Alignment, Anchors, Layer, Margins, Orientation};
use wayglance::value::DataValue;

fn table(pairs: Vec<(&str, DataValue)>) -> DataValue {
    DataValue::Table(pairs.into_iter().map(|(k, v)| (k.to_string(), v)).collect())
}

#[test]
fn layer_keywords_parse_case_insensitively() {
    let cases = vec![
        ("background", Layer::Background),
        ("Bottom", Layer::Bottom),
        ("TOP", Layer::Top),
        ("overlay", Layer::Overlay),
    ];
    for (kw, expected) in cases {
        let v = DataValue::Str(kw.to_string());
        assert_eq!(Layer::from_data(&v).unwrap(), expected);
    }
}

#[test]
fn layer_rejects_unknown_keyword_and_non_string() {
    assert_eq!(
        Layer::from_data(&DataValue::Str("middle".to_string())).unwrap_err(),
        ConvError::UnknownKeyword
    );
    assert_eq!(
        Layer::from_data(&DataValue::Int(1)).unwrap_err(),
        ConvError::ExpectedString
    );
}

#[test]
fn orientation_keywords_parse() {
    assert_eq!(
        Orientation::from_data(&DataValue::Str("Horizontal".to_string())).unwrap(),
        Orientation::Horizontal
    );
    assert_eq!(
        Orientation::from_data(&DataValue::Str("vertical".to_string())).unwrap(),
        Orientation::Vertical
    );
    assert_eq!(
        Orientation::from_data(&DataValue::Str("diagonal".to_string())).unwrap_err(),
        ConvError::UnknownKeyword
    );
}

#[test]
fn alignment_keywords_parse() {
    let cases = vec![
        ("start", Alignment::Start),
        ("center", Alignment::Center),
        ("end", Alignment::End),
        ("fill", Alignment::Fill),
        ("Baseline", Alignment::Baseline),
    ];
    for (kw, expected) in cases {
        let v = DataValue::Str(kw.to_string());
        assert_eq!(Alignment::from_data(&v).unwrap(), expected);
    }
}

#[test]
fn anchors_default_unset_edges_to_false() {
    let v = table(vec![
        ("top", DataValue::Bool(true)),
        ("left", DataValue::Bool(true)),
    ]);
    let a = Anchors::from_data(&v).unwrap();
    assert_eq!(
        a,
        Anchors { top: true, right: false, bottom: false, left: true }
    );
}

#[test]
fn anchors_reject_non_bool_edges_and_non_tables() {
    let v = table(vec![("top", DataValue::Int(1))]);
    assert_eq!(Anchors::from_data(&v).unwrap_err(), ConvError::ExpectedBool);
    assert_eq!(
        Anchors::from_data(&DataValue::Bool(true)).unwrap_err(),
        ConvError::ExpectedTable
    );
}

#[test]
fn margins_default_unset_sides_to_zero() {
    let v = table(vec![
        ("top", DataValue::Int(12)),
        ("right", DataValue::Int(-4)),
    ]);
    let m = Margins::from_data(&v).unwrap();
    assert_eq!(m, Margins { top: 12, right: -4, bottom: 0, left: 0 });
}

#[test]
fn margins_reject_bad_fields() {
    let v = table(vec![("bottom", DataValue::Str("12".to_string()))]);
    assert_eq!(Margins::from_data(&v).unwrap_err(), ConvError::ExpectedInt);
    let too_big = table(vec![("left", DataValue::Int(1 << 40))]);
    assert_eq!(
        Margins::from_data(&too_big).unwrap_err(),
        ConvError::IntOutOfRange
    );
}
