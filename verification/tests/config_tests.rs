use wayglance::config::{Config, get_config_dir, monitor_selected, resolve_style_path};
use wayglance::dynamic::FromData;
use wayglance::error::ConvError;
use wayglance::layout::Layer;
use wayglance::value::DataValue;
use wayglance::widgets::Widget;

fn table(pairs: Vec<(&str, DataValue)>) -> DataValue {
    DataValue::Table(pairs.into_iter().map(|(k, v)| (k.to_string(), v)).collect())
}

fn minimal_config() -> Vec<(&'static str, DataValue)> {
    vec![
        ("title", DataValue::Str("My Bar".to_string())),
        ("layer", DataValue::Str("top".to_string())),
        (
            "child",
            table(vec![
                ("type", DataValue::Str("label".to_string())),
                ("text", DataValue::Str("hello".to_string())),
            ]),
        ),
    ]
}

#[test]
fn minimal_config_parses_with_defaults() {
    let c = Config::from_data(&table(minimal_config())).unwrap();
    assert_eq!(c.title, "My Bar");
    assert_eq!(c.style, None);
    assert_eq!(c.layer, Layer::Top);
    assert_eq!(c.exclusive_zone, false);
    assert!(c.anchors.is_none());
    assert!(c.margins.is_none());
    assert!(c.monitors.is_empty());
    assert!(matches!(c.child, Widget::Label(_)));
}

#[test]
fn full_config_parses() {
    let mut pairs = minimal_config();
    pairs.push(("style", DataValue::Str("style.css".to_string())));
    pairs.push(("exclusive_zone", DataValue::Bool(true)));
    pairs.push((
        "anchors",
        table(vec![("top", DataValue::Bool(true))]),
    ));
    pairs.push((
        "margins",
        table(vec![("top", DataValue::Int(4))]),
    ));
    pairs.push((
        "monitors",
        DataValue::List(vec![DataValue::Str("eDP-1".to_string())]),
    ));
    let c = Config::from_data(&table(pairs)).unwrap();
    assert_eq!(c.style, Some("style.css".to_string()));
    assert!(c.exclusive_zone);
    assert!(c.anchors.unwrap().top);
    assert_eq!(c.margins.unwrap().top, 4);
    assert_eq!(c.monitors, vec!["eDP-1".to_string()]);
}

#[test]
fn config_without_title_is_rejected() {
    let v = table(vec![
        ("layer", DataValue::Str("top".to_string())),
    ]);
    assert_eq!(
        Config::from_data(&v).err().unwrap(),
        ConvError::ExpectedString
    );
}

#[test]
fn config_with_bad_layer_is_rejected() {
    let mut pairs = minimal_config();
    pairs.retain(|(k, _)| *k != "layer");
    pairs.push(("layer", DataValue::Str("sideways".to_string())));
    assert_eq!(
        Config::from_data(&table(pairs)).err().unwrap(),
        ConvError::UnknownKeyword
    );
}

#[test]
fn config_must_be_a_table() {
    assert_eq!(
        Config::from_data(&DataValue::Int(2)).err().unwrap(),
        ConvError::ExpectedTable
    );
}

#[test]
fn config_dir_is_the_paths_parent() {
    assert_eq!(
        get_config_dir("/home/user/.config/shell/init.lua"),
        Some("/home/user/.config/shell".to_string())
    );
    assert_eq!(get_config_dir("/init.lua"), Some("/".to_string()));
    assert_eq!(get_config_dir("init.lua"), Some("".to_string()));
    assert_eq!(get_config_dir("/"), None);
    assert_eq!(get_config_dir(""), None);
}

#[test]
fn style_paths_resolve_relative_to_the_config_dir() {
    assert_eq!(
        resolve_style_path("/abs/style.css", "/home/user"),
        "/abs/style.css"
    );
    assert_eq!(
        resolve_style_path("style.css", "/home/user"),
        "/home/user/style.css"
    );
    assert_eq!(resolve_style_path("style.css", ""), "style.css");
}

#[test]
fn monitor_selection_matches_connectors() {
    let none: Vec<String> = Vec::new();
    assert!(monitor_selected(&none, "eDP-1"));
    let some = vec!["eDP-1".to_string(), "HDMI-2".to_string()];
    assert!(monitor_selected(&some, "HDMI-2"));
    assert!(!monitor_selected(&some, "DP-3"));
}
