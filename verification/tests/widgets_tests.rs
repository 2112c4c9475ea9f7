use wayglance::dynamic::{FromData, MaybeDynamic};
use wayglance::error::ConvError;
use wayglance::layout::{Alignment, Orientation};
use wayglance::value::{DataValue, FuncKey};
use wayglance::widgets::{PropAction, Properties, Widget, widget_from_data};

fn table(pairs: Vec<(&str, DataValue)>) -> DataValue {
    DataValue::Table(pairs.into_iter().map(|(k, v)| (k.to_string(), v)).collect())
}

fn label(text: &str) -> DataValue {
    table(vec![
        ("type", DataValue::Str("label".to_string())),
        ("text", DataValue::Str(text.to_string())),
    ])
}

#[test]
fn label_parses_with_static_text() {
    match widget_from_data(&label("hi")).unwrap() {
        Widget::Label(l) => match l.text {
            MaybeDynamic::Static(t) => assert_eq!(t, "hi"),
            _ => panic!("a plain text field is static"),
        },
        _ => panic!("a label table parses to a label"),
    }
}

#[test]
fn button_parses_with_child_and_click_handler() {
    let v = table(vec![
        ("type", DataValue::Str("button".to_string())),
        ("on_click", DataValue::Func(FuncKey { key: 4 })),
        ("child", label("press me")),
    ]);
    match widget_from_data(&v).unwrap() {
        Widget::Button(b) => {
            assert_eq!(b.on_click, FuncKey { key: 4 });
            assert!(matches!(*b.child, Widget::Label(_)));
        }
        _ => panic!("a button table parses to a button"),
    }
}

#[test]
fn container_parses_nested_children() {
    let v = table(vec![
        ("type", DataValue::Str("container".to_string())),
        ("orientation", DataValue::Str("vertical".to_string())),
        ("spacing", DataValue::Int(8)),
        ("children", DataValue::List(vec![label("a"), label("b")])),
    ]);
    match widget_from_data(&v).unwrap() {
        Widget::Container(c) => {
            assert_eq!(c.orientation, Orientation::Vertical);
            assert_eq!(c.spacing, 8);
            assert_eq!(c.children.len(), 2);
        }
        _ => panic!("a container table parses to a container"),
    }
}

#[test]
fn container_children_default_to_empty() {
    let v = table(vec![
        ("type", DataValue::Str("container".to_string())),
        ("orientation", DataValue::Str("horizontal".to_string())),
    ]);
    match widget_from_data(&v).unwrap() {
        Widget::Container(c) => {
            assert_eq!(c.spacing, 0);
            assert!(c.children.is_empty());
        }
        _ => panic!("a container table parses to a container"),
    }
}

#[test]
fn unknown_widget_type_is_rejected() {
    let v = table(vec![("type", DataValue::Str("slider".to_string()))]);
    assert_eq!(
        widget_from_data(&v).err().unwrap(),
        ConvError::UnknownWidgetType
    );
}

#[test]
fn widget_without_type_or_table_is_rejected() {
    let v = table(vec![("text", DataValue::Str("x".to_string()))]);
    assert_eq!(widget_from_data(&v).err().unwrap(), ConvError::ExpectedString);
    assert_eq!(
        widget_from_data(&DataValue::Int(1)).err().unwrap(),
        ConvError::ExpectedTable
    );
}

#[test]
fn button_without_click_handler_is_rejected() {
    let v = table(vec![
        ("type", DataValue::Str("button".to_string())),
        ("child", label("x")),
    ]);
    assert_eq!(
        widget_from_data(&v).err().unwrap(),
        ConvError::ExpectedFunction
    );
}

#[test]
fn bad_nested_child_error_bubbles_up() {
    let v = table(vec![
        ("type", DataValue::Str("container".to_string())),
        ("orientation", DataValue::Str("horizontal".to_string())),
        (
            "children",
            DataValue::List(vec![label("fine"), DataValue::Int(3)]),
        ),
    ]);
    assert_eq!(widget_from_data(&v).err().unwrap(), ConvError::ExpectedTable);
}

#[test]
fn properties_fall_back_to_defaults() {
    let fields: Vec<(String, DataValue)> = Vec::new();
    let p = Properties::parse(&fields).unwrap();
    assert!(matches!(p.id, MaybeDynamic::Static(None)));
    assert!(matches!(p.halign, MaybeDynamic::Static(None)));
    assert!(matches!(p.hexpand, MaybeDynamic::Static(false)));
    match &p.class_list {
        MaybeDynamic::Static(classes) => assert!(classes.is_empty()),
        _ => panic!("an absent class list defaults to the empty constant"),
    }
}

#[test]
fn properties_parse_given_fields() {
    let fields = vec![
        ("id".to_string(), DataValue::Str("clock".to_string())),
        (
            "class_list".to_string(),
            DataValue::List(vec![DataValue::Str("big".to_string())]),
        ),
        ("halign".to_string(), DataValue::Str("center".to_string())),
        ("hexpand".to_string(), DataValue::Bool(true)),
    ];
    let p = Properties::parse(&fields).unwrap();
    assert!(matches!(p.id, MaybeDynamic::Static(Some(ref s)) if s == "clock"));
    assert!(matches!(p.halign, MaybeDynamic::Static(Some(Alignment::Center))));
    assert!(matches!(p.hexpand, MaybeDynamic::Static(true)));
}

#[test]
fn properties_reject_bad_fields() {
    let fields = vec![("hexpand".to_string(), DataValue::Int(1))];
    assert_eq!(
        Properties::parse(&fields).err().unwrap(),
        ConvError::ExpectedLiteralOrDynamic
    );
}

#[test]
fn apply_plans_constants_and_interval_bindings() {
    let fields = vec![
        ("id".to_string(), DataValue::Str("clock".to_string())),
        (
            "class_list".to_string(),
            table(vec![
                ("__wayglance_dynamic", DataValue::Str("interval".to_string())),
                ("callback", DataValue::Func(FuncKey { key: 11 })),
                ("interval", DataValue::Int(500)),
            ]),
        ),
    ];
    let p = Properties::parse(&fields).unwrap();
    let plan = p.apply();
    assert!(matches!(plan.id, PropAction::Assign(ref s) if s == "clock"));
    assert!(matches!(
        plan.class_list,
        PropAction::BindInterval { callback: FuncKey { key: 11 }, interval: 500 }
    ));
    // Absent optional properties leave the widget's defaults in place.
    assert!(matches!(plan.halign, PropAction::Keep));
    assert!(matches!(plan.valign, PropAction::Keep));
    assert!(matches!(plan.hexpand, PropAction::Assign(false)));
}

#[test]
fn apply_plans_signal_bindings() {
    // A signal-valued common property binds through the signal path, with
    // the shared callback and its names carried into the plan.
    let fields = vec![
        (
            "class_list".to_string(),
            table(vec![
                ("__wayglance_dynamic", DataValue::Str("signal".to_string())),
                ("callback", DataValue::Func(FuncKey { key: 12 })),
                (
                    "signal",
                    DataValue::List(vec![
                        DataValue::Str("a".to_string()),
                        DataValue::Str("b".to_string()),
                    ]),
                ),
            ]),
        ),
        (
            "hexpand".to_string(),
            table(vec![
                ("__wayglance_dynamic", DataValue::Str("signal".to_string())),
                ("callback", DataValue::Func(FuncKey { key: 13 })),
                ("signal", DataValue::Str("compact".to_string())),
            ]),
        ),
    ];
    let p = Properties::parse(&fields).unwrap();
    let plan = p.apply();
    match plan.class_list {
        PropAction::BindSignal { callback, signals } => {
            assert_eq!(callback, FuncKey { key: 12 });
            assert_eq!(signals, vec!["a".to_string(), "b".to_string()]);
        }
        _ => panic!("a signal-valued property binds through the signal path"),
    }
    match plan.hexpand {
        PropAction::BindSignal { callback, signals } => {
            assert_eq!(callback, FuncKey { key: 13 });
            assert_eq!(signals, vec!["compact".to_string()]);
        }
        _ => panic!("a signal-valued property binds through the signal path"),
    }
}
