use lush::lua::{LuaFloat, LuaNumeric, LuaStr, LuaTable, LuaValue};
use lush::parser::{
    parse_dock_click_bindings, parse_on_click_bindings, parse_output_selector, parse_signals,
    parse_string_list, parse_string_map, parse_widget, parse_windows, Callbacks, ConfigError,
};
use lush::widget::{ClickAction, DockClickAction, LuaNumber, WidgetKind, WidgetProps};

fn s(t: &str) -> LuaValue {
    LuaValue::String(LuaStr { text: Ok(t.to_string()), numeric: None })
}

fn num_str(t: &str, n: i64) -> LuaValue {
    LuaValue::String(LuaStr { text: Ok(t.to_string()), numeric: Some(LuaNumeric::Int(n)) })
}

fn float(bits: f64, lua_text: &str, display: &str) -> LuaValue {
    let whole = if bits >= 0.0 && bits.fract() == 0.0 { Some(bits as u64) } else { None };
    LuaValue::Number(LuaFloat {
        bits: bits.to_bits(),
        lua_text: lua_text.to_string(),
        display: display.to_string(),
        whole,
        truncated: Some(bits.trunc() as i128),
    })
}

fn map(fields: Vec<(&str, LuaValue)>) -> LuaValue {
    LuaValue::Table(table(fields))
}

fn table(fields: Vec<(&str, LuaValue)>) -> LuaTable {
    LuaTable {
        pairs: fields.into_iter().map(|(k, v)| (s(k), v)).collect(),
        sequence: Vec::new(),
    }
}

fn list(items: Vec<LuaValue>) -> LuaValue {
    LuaValue::Table(LuaTable { pairs: Vec::new(), sequence: items })
}

fn runtime(r: ConfigError) -> String {
    match r {
        ConfigError::Runtime(m) => m,
        ConfigError::Conversion { from, to, message } => {
            panic!("conversion error {} -> {} ({:?})", from, to, message)
        }
    }
}

#[test]
fn windows_field_is_required() {
    let cfg = table(vec![]);
    let mut cbs = Callbacks::new(0);
    let mut warnings = Vec::new();
    let err = parse_windows(&cfg, &mut cbs, &mut warnings).unwrap_err();
    assert_eq!(runtime(err), "config must call lush.ui.windows({...})");
}

#[test]
fn at_least_one_window_is_required() {
    let cfg = table(vec![("windows", list(vec![s("not a window")]))]);
    let mut cbs = Callbacks::new(0);
    let mut warnings = Vec::new();
    let err = parse_windows(&cfg, &mut cbs, &mut warnings).unwrap_err();
    assert_eq!(
        runtime(err),
        "lush.ui.windows({...}) must contain at least one lush.ui.window(...)"
    );
}

#[test]
fn window_defaults_and_fields() {
    let root = map(vec![
        ("__kind", s("label")),
        ("__line", LuaValue::Integer(3)),
        ("text", s("hi")),
        (
            "on_click",
            map(vec![("left", s("notify-send hi")), ("Right", LuaValue::Function(7))]),
        ),
    ]);
    let window = map(vec![
        ("name", s("bar")),
        ("anchor", s("bottom")),
        ("visible", LuaValue::Boolean(false)),
        ("margin_top", LuaValue::Integer(4)),
        ("height", num_str("30", 30)),
        ("root", root),
    ]);
    let cfg = table(vec![("windows", list(vec![window]))]);
    let mut cbs = Callbacks::new(0);
    let mut warnings = Vec::new();
    let windows = parse_windows(&cfg, &mut cbs, &mut warnings).unwrap();
    assert_eq!(windows.len(), 1);
    let w = &windows[0];
    assert_eq!(w.name.as_deref(), Some("bar"));
    assert_eq!(w.anchors, vec!["bottom".to_string()]);
    assert!(!w.visible);
    assert_eq!(w.layer, "top");
    assert!(!w.exclusive);
    assert_eq!(w.margin_top, 4);
    assert_eq!(w.margin_left, 0);
    assert_eq!(w.height, Some(30));
    assert_eq!(w.width, None);
    assert_eq!(w.output, None);
    assert_eq!(w.root.kind, WidgetKind::Label);
    assert_eq!(w.root.line, Some(3));
    match &w.root.props {
        WidgetProps::Label(l) => {
            assert_eq!(l.text.as_deref(), Some("hi"));
            match &l.on_click.left {
                Some(ClickAction::Shell(cmd)) => assert_eq!(cmd, "notify-send hi"),
                other => panic!("unexpected left binding {:?}", other),
            }
            match &l.on_click.right {
                Some(ClickAction::LuaCallback(id)) => assert_eq!(*id, 1),
                other => panic!("unexpected right binding {:?}", other),
            }
            assert!(l.on_click.middle.is_none());
        }
        other => panic!("unexpected props {:?}", other),
    }
    assert_eq!(cbs.last, 1);
    assert_eq!(cbs.registered, vec![(1, 7)]);
    assert!(warnings.is_empty());
}

#[test]
fn position_sets_anchors_when_anchor_is_default() {
    let window = map(vec![("position", s("left")), ("root", map(vec![]))]);
    let cfg = table(vec![("windows", list(vec![window]))]);
    let mut cbs = Callbacks::new(0);
    let mut warnings = Vec::new();
    let windows = parse_windows(&cfg, &mut cbs, &mut warnings).unwrap();
    assert_eq!(windows[0].anchors, vec!["left", "top", "bottom"]);
    assert_eq!(windows[0].root.kind, WidgetKind::HBox);
}

#[test]
fn explicit_anchor_list_and_bad_anchor() {
    let window = map(vec![
        ("anchor", list(vec![s("top"), s("right")])),
        ("position", s("bottom")),
        ("root", map(vec![])),
    ]);
    let cfg = table(vec![("windows", list(vec![window]))]);
    let mut cbs = Callbacks::new(0);
    let mut warnings = Vec::new();
    let windows = parse_windows(&cfg, &mut cbs, &mut warnings).unwrap();
    assert_eq!(windows[0].anchors, vec!["top", "right"]);

    let bad = map(vec![
        ("__line", LuaValue::Integer(9)),
        ("anchor", list(vec![s("top"), LuaValue::Integer(1)])),
        ("root", map(vec![])),
    ]);
    let cfg = table(vec![("windows", list(vec![bad]))]);
    let err = parse_windows(&cfg, &mut cbs, &mut warnings).unwrap_err();
    assert_eq!(
        runtime(err),
        "config.lua:9: window.anchor table must contain only strings"
    );
}

#[test]
fn window_without_root_is_refused() {
    let cfg = table(vec![("windows", list(vec![map(vec![("name", s("x"))])]))]);
    let mut cbs = Callbacks::new(0);
    let mut warnings = Vec::new();
    let err = parse_windows(&cfg, &mut cbs, &mut warnings).unwrap_err();
    assert_eq!(runtime(err), "window({...}) must define root = <widget>");
}

#[test]
fn unknown_widget_kind() {
    let t = table(vec![("__kind", s("window")), ("__line", LuaValue::Integer(12))]);
    let mut cbs = Callbacks::new(0);
    let err = parse_widget(&t, &mut cbs).unwrap_err();
    assert_eq!(runtime(err), "config.lua:12: unknown widget kind 'window'");
}

#[test]
fn unsupported_click_key_and_bad_action() {
    let t = table(vec![
        ("__kind", s("button")),
        ("__line", LuaValue::Integer(5)),
        ("on_click", map(vec![("scroll", s("x"))])),
    ]);
    let mut cbs = Callbacks::new(0);
    let err = parse_widget(&t, &mut cbs).unwrap_err();
    assert_eq!(
        runtime(err),
        "config.lua:5: on_click key 'scroll' is unsupported; use left|middle|right|wheel_up|wheel_down"
    );

    let t = table(vec![
        ("__line", LuaValue::Integer(5)),
        ("on_click", map(vec![("left", LuaValue::Integer(1))])),
    ]);
    let err = parse_on_click_bindings(&t, &mut cbs).unwrap_err();
    assert_eq!(
        runtime(err),
        "config.lua:5: on_click.left must be a shell command string or function() ... end"
    );

    let t = table(vec![("on_click", LuaValue::Boolean(true))]);
    let err = parse_on_click_bindings(&t, &mut cbs).unwrap_err();
    assert_eq!(
        runtime(err),
        "on_click must be a shell command string, function() ... end, or a table of button bindings"
    );
}

#[test]
fn single_function_binds_left_button() {
    let t = table(vec![("on_click", LuaValue::Function(3))]);
    let mut cbs = Callbacks::new(41);
    let b = parse_on_click_bindings(&t, &mut cbs).unwrap();
    match b.left {
        Some(ClickAction::LuaCallback(id)) => assert_eq!(id, 42),
        other => panic!("unexpected {:?}", other),
    }
    assert_eq!(cbs.registered, vec![(42, 3)]);
}

#[test]
fn dock_click_bindings() {
    let t = table(vec![]);
    let b = parse_dock_click_bindings(&t).unwrap();
    assert_eq!(b.left, Some(DockClickAction::Activate));
    assert_eq!(b.right, None);

    let t = table(vec![("on_click", map(vec![("Right", s(" Minimize ")), ("middle", s("unminimize"))]))]);
    let b = parse_dock_click_bindings(&t).unwrap();
    assert_eq!(b.left, Some(DockClickAction::Activate));
    assert_eq!(b.right, Some(DockClickAction::Minimize));
    assert_eq!(b.middle, Some(DockClickAction::Restore));

    let t = table(vec![("on_click", s("none"))]);
    let b = parse_dock_click_bindings(&t).unwrap();
    assert_eq!(b.left, Some(DockClickAction::NoAction));

    let t = table(vec![("__line", LuaValue::Integer(2)), ("on_click", s("Jump"))]);
    let err = parse_dock_click_bindings(&t).unwrap_err();
    assert_eq!(
        runtime(err),
        "config.lua:2: invalid dock click action 'jump'; expected one of: none, activate, close, minimize, restore"
    );

    let t = table(vec![("on_click", LuaValue::Integer(1))]);
    let err = parse_dock_click_bindings(&t).unwrap_err();
    assert_eq!(runtime(err), "on_click for dock must be a string action or table");
}

#[test]
fn output_selectors() {
    let t = table(vec![("output", LuaValue::Integer(1))]);
    assert_eq!(parse_output_selector(&t).unwrap(), Some("1".to_string()));
    let t = table(vec![("output", float(2.0, "2.0", "2"))]);
    assert_eq!(parse_output_selector(&t).unwrap(), Some("2".to_string()));
    let t = table(vec![("output", s("DP-1"))]);
    assert_eq!(parse_output_selector(&t).unwrap(), Some("DP-1".to_string()));
    let t = table(vec![]);
    assert_eq!(parse_output_selector(&t).unwrap(), None);
    let t = table(vec![("__line", LuaValue::Integer(7)), ("output", LuaValue::Integer(-1))]);
    assert_eq!(
        runtime(parse_output_selector(&t).unwrap_err()),
        "config.lua:7: window.output must be a non-negative integer or string"
    );
    let t = table(vec![("output", float(1.5, "1.5", "1.5"))]);
    assert!(parse_output_selector(&t).is_err());
}

#[test]
fn string_maps_keep_first_position_and_last_value() {
    let v = LuaValue::Table(LuaTable {
        pairs: vec![
            (s("charging"), s("+")),
            (LuaValue::Integer(1), s("one")),
            (s("flag"), LuaValue::Boolean(true)),
            (s("skip"), list(vec![])),
            (LuaValue::Boolean(true), s("ignored key")),
            (s("1"), float(0.5, "0.5", "0.5")),
        ],
        sequence: Vec::new(),
    });
    let m = parse_string_map(&v).unwrap();
    assert_eq!(
        m,
        vec![
            ("charging".to_string(), "+".to_string()),
            ("1".to_string(), "0.5".to_string()),
            ("flag".to_string(), "1".to_string()),
        ]
    );
    assert!(parse_string_map(&s("not a table")).unwrap().is_empty());
}

#[test]
fn string_lists() {
    let v = list(vec![s("a"), LuaValue::Integer(5), float(2.5, "2.5", "2.5")]);
    assert_eq!(parse_string_list(&v).unwrap(), vec!["a", "5", "2.5"]);
    assert_eq!(parse_string_list(&s("solo")).unwrap(), vec!["solo"]);
    assert!(parse_string_list(&LuaValue::Integer(3)).unwrap().is_empty());
    match parse_string_list(&list(vec![s("a"), list(vec![])])).unwrap_err() {
        ConfigError::Conversion { from, to, message } => {
            assert_eq!(from, "table");
            assert_eq!(to, "String");
            assert_eq!(message.as_deref(), Some("expected string or number"));
        }
        other => panic!("unexpected {:?}", other),
    }
    let bad = LuaValue::String(LuaStr {
        text: Err("invalid utf-8 sequence of 1 bytes from index 0".to_string()),
        numeric: None,
    });
    match parse_string_list(&bad).unwrap_err() {
        ConfigError::Conversion { from, to, .. } => {
            assert_eq!(from, "string");
            assert_eq!(to, "&str");
        }
        other => panic!("unexpected {:?}", other),
    }
}

#[test]
fn children_register_callbacks_before_parent() {
    let child = map(vec![("__kind", s("label")), ("on_click", LuaValue::Function(11))]);
    let t = table(vec![
        ("__kind", s("button")),
        ("on_click", LuaValue::Function(10)),
        ("children", list(vec![s("skipped"), child])),
        ("class", s("main")),
        ("classes", list(vec![s("wide"), s("dark")])),
        ("angle", float(90.0, "90.0", "90")),
    ]);
    let mut cbs = Callbacks::new(0);
    let w = parse_widget(&t, &mut cbs).unwrap();
    assert_eq!(w.base.children.len(), 1);
    assert_eq!(w.base.classes, vec!["main", "wide", "dark"]);
    assert_eq!(cbs.registered, vec![(1, 11), (2, 10)]);
    match &w.props {
        WidgetProps::Button(b) => {
            assert!(matches!(b.on_click.left, Some(ClickAction::LuaCallback(2))));
            assert_eq!(b.angle, Some(LuaNumber::Float(90.0f64.to_bits())));
        }
        other => panic!("unexpected {:?}", other),
    }
}

#[test]
fn scroll_without_child_warns() {
    let root = map(vec![("__kind", s("scroll")), ("__line", LuaValue::Integer(4))]);
    let cfg = table(vec![("windows", list(vec![map(vec![("root", root)])]))]);
    let mut cbs = Callbacks::new(0);
    let mut warnings = Vec::new();
    parse_windows(&cfg, &mut cbs, &mut warnings).unwrap();
    assert_eq!(warnings, vec!["config.lua:4: scroll requires one child in 'children'"]);
}

#[test]
fn integer_fields_read_numbers_and_numeric_strings() {
    let t = table(vec![
        ("__kind", s("list")),
        ("count", float(3.7, "3.7", "3.7")),
        ("spacing", num_str("6", 6)),
        ("bind", LuaValue::Integer(12)),
    ]);
    let mut cbs = Callbacks::new(0);
    let w = parse_widget(&t, &mut cbs).unwrap();
    match &w.props {
        WidgetProps::List(l) => {
            assert_eq!(l.count, Some(3));
            assert_eq!(l.spacing, Some(6));
            assert_eq!(l.bind.as_deref(), Some("12"));
        }
        other => panic!("unexpected {:?}", other),
    }
}

#[test]
fn display_signals() {
    let v = list(vec![s("volume"), LuaValue::Integer(3), LuaValue::Boolean(true)]);
    assert_eq!(parse_signals(&v).unwrap(), vec!["volume", "3"]);
    assert_eq!(parse_signals(&s("brightness")).unwrap(), vec!["brightness"]);
    assert!(parse_signals(&LuaValue::Nil).unwrap().is_empty());
}
