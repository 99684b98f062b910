use cosmic_eyes::fixed::Fixed;
use cosmic_eyes::offset::Offset;
use cosmic_eyes::persist::{
    instance_key, instance_signals, legacy_offset_path, load_offset, offset_path, output_key,
    parse_record, sanitize_key, save_offset, scale_applies, state_dir, Environment,
};

fn fx(raw: i64) -> Fixed {
    Fixed::from_units(raw)
}

fn offset(dx: i64, dy: i64) -> Offset {
    Offset::new(fx(dx), fx(dy)).unwrap()
}

fn components(o: Option<Offset>) -> Option<(i64, i64)> {
    o.map(|o| (o.x().raw, o.y().raw))
}

fn env(
    state_home: Option<&str>,
    home: Option<&str>,
    panel_output: Option<&str>,
    signals: Vec<Option<&str>>,
) -> Environment {
    Environment {
        state_home: state_home.map(String::from),
        home: home.map(String::from),
        panel_output: panel_output.map(String::from),
        instance_signals: signals.into_iter().map(|s| s.map(String::from)).collect(),
    }
}

#[test]
fn sanitize_replaces_what_is_no_key_character() {
    assert_eq!(sanitize_key("hello world!"), "hello_world_");
    assert_eq!(sanitize_key("DP-1"), "DP-1");
    assert_eq!(sanitize_key("a-b_c9"), "a-b_c9");
    assert_eq!(sanitize_key("eDP/1:0"), "eDP_1_0");
    assert_eq!(sanitize_key("caf\u{e9}"), "caf_");
    assert_eq!(sanitize_key("a\tb"), "a_b");
}

#[test]
fn sanitize_maps_white_space_at_the_ends_too() {
    assert_eq!(sanitize_key(" a b "), "_a_b_");
    assert_eq!(sanitize_key("  DP-1 \n"), "__DP-1__");
    assert_eq!(sanitize_key("\u{a0}x\u{3000}"), "_x_");
    assert_eq!(sanitize_key("   "), "___");
    assert_eq!(sanitize_key("\t\n"), "__");
}

#[test]
fn sanitize_keeps_the_length() {
    for raw in [" ", "a", " a b ", "caf\u{e9}\u{1f600}", "x/y/z", "\n\n\n\n"] {
        assert_eq!(sanitize_key(raw).chars().count(), raw.chars().count());
    }
}

#[test]
fn sanitize_gives_the_default_for_nothing() {
    assert_eq!(sanitize_key(""), "default");
}

#[test]
fn sanitize_is_idempotent() {
    for raw in ["", "  ", "DP-1", " a b ", "caf\u{e9}!", "default", "___", "x y\tz"] {
        let once = sanitize_key(raw);
        assert_eq!(sanitize_key(&once), once);
        assert!(!once.is_empty());
        assert!(once.chars().all(|c| c.is_ascii_alphanumeric() || c == '-' || c == '_'));
    }
}

#[test]
fn output_key_is_made_from_the_output_name() {
    assert_eq!(output_key(&env(None, None, Some("HDMI-A-1"), vec![])), "HDMI-A-1");
    assert_eq!(output_key(&env(None, None, Some("my screen"), vec![])), "my_screen");
    assert_eq!(output_key(&env(None, None, Some(" DP-1 "), vec![])), "_DP-1_");
    assert_eq!(output_key(&env(None, None, Some(""), vec![])), "default");
    assert_eq!(output_key(&env(None, None, None, vec![])), "default");
}

#[test]
fn instance_signals_are_named_in_order() {
    let names = instance_signals();
    assert_eq!(
        names,
        vec![
            "COSMIC_EYES_OFFSET_KEY",
            "COSMIC_APPLET_INSTANCE",
            "COSMIC_APPLET_INSTANCE_ID",
            "COSMIC_APPLET_UUID",
            "COSMIC_PANEL_INSTANCE",
            "COSMIC_PANEL_NAME",
            "COSMIC_PANEL_ANCHOR",
            "COSMIC_PANEL_EDGE",
            "COSMIC_DOCK_INSTANCE",
            "COSMIC_DOCK_NAME",
            "COSMIC_DOCK_ANCHOR",
            "COSMIC_DOCK_EDGE",
        ]
    );
}

#[test]
fn instance_key_takes_the_first_signal_that_is_present() {
    let e = env(None, None, None, vec![None, Some("panel 1"), Some("other")]);
    assert_eq!(instance_key(&e), "panel_1");
    let e = env(None, None, None, vec![Some("mine"), Some("panel 1")]);
    assert_eq!(instance_key(&e), "mine");
}

#[test]
fn instance_key_passes_over_empty_signals() {
    let e = env(None, None, None, vec![Some(""), None, Some(""), Some("top"), Some("left")]);
    assert_eq!(instance_key(&e), "top");
}

#[test]
fn instance_key_takes_a_signal_of_white_space() {
    let e = env(None, None, None, vec![Some(""), Some("  "), None, Some(" top ")]);
    assert_eq!(instance_key(&e), "__");
    let e = env(None, None, None, vec![None, Some(" top "), Some("left")]);
    assert_eq!(instance_key(&e), "_top_");
}

#[test]
fn instance_key_is_the_default_without_signals() {
    assert_eq!(instance_key(&env(None, None, None, vec![])), "default");
    assert_eq!(instance_key(&env(None, None, None, vec![None, None])), "default");
    assert_eq!(instance_key(&env(None, None, None, vec![Some(""), None])), "default");
    assert_eq!(instance_key(&env(None, None, None, vec![Some(" "), None])), "_");
}

#[test]
fn state_dir_prefers_the_configured_root() {
    let e = env(Some("/var/state"), Some("/home/u"), None, vec![]);
    assert_eq!(state_dir(&e), Some(String::from("/var/state")));
}

#[test]
fn state_dir_falls_back_to_the_home_directory() {
    let e = env(None, Some("/home/u"), None, vec![]);
    assert_eq!(state_dir(&e), Some(String::from("/home/u/.local/state")));
    let e = env(None, Some("/home/u/"), None, vec![]);
    assert_eq!(state_dir(&e), Some(String::from("/home/u/.local/state")));
    let e = env(None, Some(""), None, vec![]);
    assert_eq!(state_dir(&e), Some(String::from(".local/state")));
}

#[test]
fn state_dir_is_none_without_roots() {
    assert_eq!(state_dir(&env(None, None, None, vec![])), None);
}

#[test]
fn offset_path_joins_root_namespace_and_keys() {
    let e = env(Some("/state"), None, Some("DP-1"), vec![None, Some("left panel")]);
    assert_eq!(
        offset_path(&e),
        Some(String::from("/state/cosmic-ext-eyes/offset-DP-1-left_panel.txt"))
    );
    assert_eq!(
        legacy_offset_path(&e),
        Some(String::from("/state/cosmic-ext-eyes/offset-DP-1.txt"))
    );
}

#[test]
fn offset_path_uses_the_defaults() {
    let e = env(None, Some("/home/u"), None, vec![]);
    assert_eq!(
        offset_path(&e),
        Some(String::from("/home/u/.local/state/cosmic-ext-eyes/offset-default-default.txt"))
    );
    assert_eq!(
        legacy_offset_path(&e),
        Some(String::from("/home/u/.local/state/cosmic-ext-eyes/offset-default.txt"))
    );
}

#[test]
fn offset_path_is_none_without_roots() {
    let e = env(None, None, Some("DP-1"), vec![Some("x")]);
    assert_eq!(offset_path(&e), None);
    assert_eq!(legacy_offset_path(&e), None);
}

#[test]
fn save_writes_three_fields_and_a_line_end() {
    assert_eq!(save_offset(fx(1_250_000), offset(4_000_000, -2_000_000)), "1.25 4 -2\n");
    assert_eq!(save_offset(fx(2_000_000), offset(-500_000, 333_333)), "2 -0.5 0.333333\n");
    assert_eq!(save_offset(fx(100_000), offset(0, 0)), "0.1 0 0\n");
}

#[test]
fn load_returns_the_stored_offset_at_the_same_scale() {
    let got = load_offset(fx(1_250_000), Some("1.25 4.0 -2.0"), None);
    assert_eq!(components(got), Some((4_000_000, -2_000_000)));
}

#[test]
fn load_returns_nothing_at_another_scale() {
    let got = load_offset(fx(2_000_000), Some("1.25 4.0 -2.0"), None);
    assert_eq!(components(got), None);
}

#[test]
fn load_gives_back_what_save_wrote() {
    let cases: Vec<(i64, i64, i64)> = vec![
        (1_250_000, 4_000_000, -2_000_000),
        (1_000_000, 0, 0),
        (2_000_000, -123_456_789, 987_654_321),
        (100_000, 1, -1),
        (1_500_000, 1_000_000_000_000_000_000, -1_000_000_000_000_000_000),
    ];
    for (scale, dx, dy) in cases {
        let text = save_offset(fx(scale), offset(dx, dy));
        let got = load_offset(fx(scale), Some(&text), None);
        assert_eq!(components(got), Some((dx, dy)));
        let near = load_offset(fx(scale + 10_000), Some(&text), Some("garbage"));
        assert_eq!(components(near), Some((dx, dy)));
        let far = load_offset(fx(scale + 10_001), Some(&text), None);
        assert_eq!(components(far), None);
    }
}

#[test]
fn scale_tolerance_is_one_hundredth() {
    assert!(scale_applies(fx(1_250_000), fx(1_250_000)));
    assert!(scale_applies(fx(1_250_000), fx(1_260_000)));
    assert!(scale_applies(fx(1_250_000), fx(1_240_000)));
    assert!(!scale_applies(fx(1_250_000), fx(1_260_001)));
    assert!(!scale_applies(fx(1_250_000), fx(1_239_999)));
    assert!(!scale_applies(fx(i64::MIN), fx(i64::MAX)));
    assert!(!scale_applies(fx(i64::MAX), fx(i64::MIN)));
}

#[test]
fn load_falls_back_to_the_legacy_file() {
    let got = load_offset(fx(1_000_000), None, Some("1 3 5\n"));
    assert_eq!(components(got), Some((3_000_000, 5_000_000)));
    let got = load_offset(fx(1_000_000), Some("1 3"), Some("1 7 9\n"));
    assert_eq!(components(got), Some((7_000_000, 9_000_000)));
    let got = load_offset(fx(1_000_000), Some("1 x 5"), Some("1 7 9\n"));
    assert_eq!(components(got), Some((7_000_000, 9_000_000)));
    let got = load_offset(fx(1_000_000), Some(""), Some("1 7 9\n"));
    assert_eq!(components(got), Some((7_000_000, 9_000_000)));
}

#[test]
fn load_prefers_the_keyed_file() {
    let got = load_offset(fx(1_000_000), Some("1 3 5\n"), Some("1 7 9\n"));
    assert_eq!(components(got), Some((3_000_000, 5_000_000)));
}

#[test]
fn load_does_not_fall_back_from_a_stale_record() {
    let got = load_offset(fx(1_000_000), Some("2 3 5\n"), Some("1 7 9\n"));
    assert_eq!(components(got), None);
}

#[test]
fn load_returns_nothing_without_files() {
    assert_eq!(components(load_offset(fx(1_000_000), None, None)), None);
    assert_eq!(components(load_offset(fx(1_000_000), Some("nonsense"), Some("1 2"))), None);
    assert_eq!(components(load_offset(fx(1_000_000), None, Some("2 1 1"))), None);
}

#[test]
fn record_takes_any_white_space_between_fields() {
    let r = parse_record("  1.5\t-3.25\n\n 8 ").unwrap();
    assert_eq!(r.scale.raw, 1_500_000);
    assert_eq!(r.offset.x().raw, -3_250_000);
    assert_eq!(r.offset.y().raw, 8_000_000);
    let r = parse_record("1\u{a0}2\u{2003}3").unwrap();
    assert_eq!((r.scale.raw, r.offset.x().raw, r.offset.y().raw), (1_000_000, 2_000_000, 3_000_000));
}

#[test]
fn record_does_not_read_beyond_the_third_field() {
    let r = parse_record("1 2 3 junk 4").unwrap();
    assert_eq!((r.scale.raw, r.offset.x().raw, r.offset.y().raw), (1_000_000, 2_000_000, 3_000_000));
}

#[test]
fn record_needs_three_good_fields() {
    assert!(parse_record("").is_none());
    assert!(parse_record("1").is_none());
    assert!(parse_record("1 2").is_none());
    assert!(parse_record("1 2 x").is_none());
    assert!(parse_record("x 2 3").is_none());
    assert!(parse_record("1,2,3").is_none());
    assert!(parse_record("1 2 3e1").is_none());
}

#[test]
fn record_refuses_an_offset_beyond_the_limit() {
    assert!(parse_record("1 1000000000000 0").is_some());
    assert!(parse_record("1 1000000000000.000001 0").is_none());
    assert!(parse_record("1 0 -1000000000000.000001").is_none());
    assert!(parse_record("9000000000000 0 0").is_some());
}
