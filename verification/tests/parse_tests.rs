use wayglance::dynamic::{FromData, MaybeDynamic};
use wayglance::error::ConvError;
use wayglance::value::{DataValue, FuncKey};

fn table(pairs: Vec<(&str, DataValue)>) -> DataValue {
    DataValue::Table(pairs.into_iter().map(|(k, v)| (k.to_string(), v)).collect())
}

fn interval_descriptor(key: u64, ms: i64) -> DataValue {
    table(vec![
        ("__wayglance_dynamic", DataValue::Str("interval".to_string())),
        ("callback", DataValue::Func(FuncKey { key })),
        ("interval", DataValue::Int(ms)),
    ])
}

#[test]
fn static_scalar_round_trips() {
    // Parsing a plain scalar yields Static, and re-deriving its value
    // gives back the original scalar.
    let v = DataValue::Str("hello".to_string());
    match <MaybeDynamic<String> as FromData>::from_data(&v).unwrap() {
        MaybeDynamic::Static(s) => assert_eq!(s, "hello"),
        _ => panic!("a plain scalar parses to Static"),
    }
}

#[test]
fn interval_descriptor_keeps_its_period() {
    // An interval descriptor written with interval = 250 yields a binding
    // firing at a 250 ms cadence.
    let v = interval_descriptor(7, 250);
    match <MaybeDynamic<String> as FromData>::from_data(&v).unwrap() {
        MaybeDynamic::Interval { callback, interval } => {
            assert_eq!(callback, FuncKey { key: 7 });
            assert_eq!(interval, 250);
        }
        _ => panic!("an interval descriptor parses to Interval"),
    }
}

#[test]
fn signal_descriptor_with_single_name() {
    let v = table(vec![
        ("__wayglance_dynamic", DataValue::Str("signal".to_string())),
        ("callback", DataValue::Func(FuncKey { key: 2 })),
        ("signal", DataValue::Str("clock".to_string())),
    ]);
    match <MaybeDynamic<String> as FromData>::from_data(&v).unwrap() {
        MaybeDynamic::Signal { callback, signals } => {
            assert_eq!(callback, FuncKey { key: 2 });
            assert_eq!(signals, vec!["clock".to_string()]);
        }
        _ => panic!("a signal descriptor parses to Signal"),
    }
}

#[test]
fn signal_descriptor_with_name_list() {
    let v = table(vec![
        ("__wayglance_dynamic", DataValue::Str("signal".to_string())),
        ("callback", DataValue::Func(FuncKey { key: 2 })),
        (
            "signal",
            DataValue::List(vec![
                DataValue::Str("a".to_string()),
                DataValue::Str("b".to_string()),
            ]),
        ),
    ]);
    match <MaybeDynamic<String> as FromData>::from_data(&v).unwrap() {
        MaybeDynamic::Signal { signals, .. } => {
            assert_eq!(signals, vec!["a".to_string(), "b".to_string()]);
        }
        _ => panic!("a signal descriptor parses to Signal"),
    }
}

#[test]
fn unknown_descriptor_kind_is_rejected() {
    let v = table(vec![
        ("__wayglance_dynamic", DataValue::Str("oneshot".to_string())),
        ("callback", DataValue::Func(FuncKey { key: 2 })),
    ]);
    assert_eq!(
        <MaybeDynamic<String> as FromData>::from_data(&v).err().unwrap(),
        ConvError::UnknownDynamicKind
    );
}

#[test]
fn missing_callback_is_rejected() {
    let v = table(vec![
        ("__wayglance_dynamic", DataValue::Str("interval".to_string())),
        ("interval", DataValue::Int(100)),
    ]);
    assert_eq!(
        <MaybeDynamic<String> as FromData>::from_data(&v).err().unwrap(),
        ConvError::ExpectedCallback
    );
}

#[test]
fn missing_or_negative_interval_is_rejected() {
    let missing = table(vec![
        ("__wayglance_dynamic", DataValue::Str("interval".to_string())),
        ("callback", DataValue::Func(FuncKey { key: 1 })),
    ]);
    assert_eq!(
        <MaybeDynamic<String> as FromData>::from_data(&missing).err().unwrap(),
        ConvError::ExpectedInterval
    );
    let negative = interval_descriptor(1, -5);
    assert_eq!(
        <MaybeDynamic<String> as FromData>::from_data(&negative).err().unwrap(),
        ConvError::ExpectedInterval
    );
}

#[test]
fn bad_signal_field_is_rejected() {
    let v = table(vec![
        ("__wayglance_dynamic", DataValue::Str("signal".to_string())),
        ("callback", DataValue::Func(FuncKey { key: 1 })),
        ("signal", DataValue::Int(3)),
    ]);
    assert_eq!(
        <MaybeDynamic<String> as FromData>::from_data(&v).err().unwrap(),
        ConvError::ExpectedSignalNames
    );
}

#[test]
fn non_literal_non_descriptor_is_rejected() {
    let v = DataValue::Int(3);
    assert_eq!(
        <MaybeDynamic<String> as FromData>::from_data(&v).err().unwrap(),
        ConvError::ExpectedLiteralOrDynamic
    );
}

#[test]
fn plain_table_without_discriminator_is_static() {
    // A table without the discriminator field is not a descriptor; for a
    // string list it parses by the target type's own rules.
    let v = DataValue::List(vec![
        DataValue::Str("x".to_string()),
        DataValue::Str("y".to_string()),
    ]);
    match <MaybeDynamic<Vec<String>> as FromData>::from_data(&v).unwrap() {
        MaybeDynamic::Static(items) => {
            assert_eq!(items, vec!["x".to_string(), "y".to_string()]);
        }
        _ => panic!("a plain list parses to Static"),
    }
}

#[test]
fn primitive_parsers_accept_and_reject() {
    assert_eq!(bool::from_data(&DataValue::Bool(true)).unwrap(), true);
    assert_eq!(
        bool::from_data(&DataValue::Int(1)).err().unwrap(),
        ConvError::ExpectedBool
    );
    assert_eq!(i64::from_data(&DataValue::Int(-3)).unwrap(), -3);
    assert_eq!(
        i64::from_data(&DataValue::Str("3".to_string())).err().unwrap(),
        ConvError::ExpectedInt
    );
    assert_eq!(i32::from_data(&DataValue::Int(7)).unwrap(), 7);
    assert_eq!(
        i32::from_data(&DataValue::Int(1 << 40)).err().unwrap(),
        ConvError::IntOutOfRange
    );
    assert_eq!(
        String::from_data(&DataValue::Str("s".to_string())).unwrap(),
        "s".to_string()
    );
    assert_eq!(
        String::from_data(&DataValue::Nil).err().unwrap(),
        ConvError::ExpectedString
    );
}

#[test]
fn option_parser_reads_nil_as_none() {
    assert_eq!(
        <Option<String> as FromData>::from_data(&DataValue::Nil).unwrap(),
        None
    );
    assert_eq!(
        <Option<String> as FromData>::from_data(&DataValue::Str("x".to_string())).unwrap(),
        Some("x".to_string())
    );
    assert_eq!(
        <Option<String> as FromData>::from_data(&DataValue::Int(1)).err().unwrap(),
        ConvError::ExpectedString
    );
}

#[test]
fn string_list_parser_rejects_mixed_lists() {
    let v = DataValue::List(vec![
        DataValue::Str("x".to_string()),
        DataValue::Int(2),
    ]);
    assert_eq!(
        <Vec<String> as FromData>::from_data(&v).err().unwrap(),
        ConvError::ExpectedStringList
    );
}

#[test]
fn signal_descriptor_drops_duplicate_names() {
    // The names are a set: listing one twice is harmless, and each name
    // keeps its first position.
    let v = table(vec![
        ("__wayglance_dynamic", DataValue::Str("signal".to_string())),
        ("callback", DataValue::Func(FuncKey { key: 2 })),
        (
            "signal",
            DataValue::List(vec![
                DataValue::Str("a".to_string()),
                DataValue::Str("b".to_string()),
                DataValue::Str("a".to_string()),
            ]),
        ),
    ]);
    match <MaybeDynamic<String> as FromData>::from_data(&v).unwrap() {
        MaybeDynamic::Signal { signals, .. } => {
            assert_eq!(signals, vec!["a".to_string(), "b".to_string()]);
        }
        _ => panic!("a signal descriptor parses to Signal"),
    }
}

#[test]
fn numeric_discriminator_is_rejected() {
    // A number renders as its decimal text, which names no kind.
    let v = table(vec![
        ("__wayglance_dynamic", DataValue::Int(5)),
        ("callback", DataValue::Func(FuncKey { key: 2 })),
    ]);
    assert_eq!(
        <MaybeDynamic<String> as FromData>::from_data(&v).err().unwrap(),
        ConvError::UnknownDynamicKind
    );
}

#[test]
fn non_coercible_discriminator_falls_through() {
    // A discriminator the script runtime cannot read as text does not mark
    // a descriptor; the table falls through to the plain parse.
    let v = table(vec![("__wayglance_dynamic", DataValue::Bool(true))]);
    assert_eq!(
        <MaybeDynamic<String> as FromData>::from_data(&v).err().unwrap(),
        ConvError::ExpectedLiteralOrDynamic
    );
}

#[test]
fn error_descriptions_are_stable() {
    assert_eq!(
        ConvError::UnknownDynamicKind.describe(),
        "invalid dynamic value type (expected 'signal' or 'interval')"
    );
    assert_eq!(
        ConvError::ExpectedSignalNames.describe(),
        "expected a signal name or a list of signal names"
    );
    assert_eq!(
        ConvError::ExpectedFunction.describe(),
        "expected a function for on_click"
    );
}
