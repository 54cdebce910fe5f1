use zjstatus::config::{ConfigMap, Tab, ZellijState};
use zjstatus::datetime::DateTimeWidget;
use zjstatus::tabs::TabsWidget;
use zjstatus::widget::Widget;

// 2024-01-01T13:05:00Z
const NEW_YEAR_AFTERNOON: i64 = 1704114300;

fn cfg(pairs: &[(&str, &str)]) -> ConfigMap {
    let mut c = ConfigMap::new();
    for (k, v) in pairs {
        c.set(String::from(*k), String::from(*v));
    }
    c
}

fn tabs_state(tabs: &[(&str, bool)]) -> ZellijState {
    ZellijState {
        tabs: tabs
            .iter()
            .map(|(name, active)| Tab { name: String::from(*name), active: *active })
            .collect(),
    }
}

#[test]
fn datetime_renders_format_placeholder_in_utc() {
    let c = cfg(&[("datetime_format", "%H:%M"), ("datetime", "{format}")]);
    let w = DateTimeWidget::new(&c);
    assert_eq!(w.render_at(NEW_YEAR_AFTERNOON), "13:05");
}

#[test]
fn datetime_renders_date_and_time_placeholders() {
    let c = cfg(&[("datetime", "{date} {time}")]);
    let w = DateTimeWidget::new(&c);
    assert_eq!(w.render_at(NEW_YEAR_AFTERNOON), "2024-01-01 13:05");
}

#[test]
fn datetime_malformed_timezone_falls_back_to_utc() {
    let c = cfg(&[
        ("datetime_format", "%H:%M"),
        ("datetime", "{format}"),
        ("datetime_timezone", "Not/AZone"),
    ]);
    let w = DateTimeWidget::new(&c);
    assert_eq!(w.time_zone, "Etc/UTC");
    assert_eq!(w.render_at(NEW_YEAR_AFTERNOON), "13:05");
    let state = tabs_state(&[]);
    let out = w.process("datetime", &state);
    assert_eq!(out.len(), 5);
}

#[test]
fn datetime_honors_configured_timezone() {
    let c = cfg(&[
        ("datetime_format", "%H:%M"),
        ("datetime", "{format}"),
        ("datetime_timezone", "Europe/Berlin"),
    ]);
    let w = DateTimeWidget::new(&c);
    assert_eq!(w.render_at(NEW_YEAR_AFTERNOON), "14:05");
}

#[test]
fn datetime_changing_only_timezone_changes_only_offset_portion() {
    let utc = DateTimeWidget::new(&cfg(&[("datetime_format", "%H:%M"), ("datetime", "{format}")]));
    let berlin = DateTimeWidget::new(&cfg(&[
        ("datetime_format", "%H:%M"),
        ("datetime", "{format}"),
        ("datetime_timezone", "Europe/Berlin"),
    ]));
    // one hour ahead in winter, same minutes
    assert_eq!(utc.render_at(NEW_YEAR_AFTERNOON), "13:05");
    assert_eq!(berlin.render_at(NEW_YEAR_AFTERNOON), "14:05");
}

#[test]
fn datetime_honors_configured_locale() {
    let c = cfg(&[
        ("datetime_format", "%A"),
        ("datetime", "{format}"),
        ("datetime_locale", "fr_FR"),
    ]);
    let w = DateTimeWidget::new(&c);
    assert_eq!(w.render_at(NEW_YEAR_AFTERNOON), "lundi");
}

#[test]
fn datetime_unknown_locale_falls_back_to_invariant() {
    let c = cfg(&[
        ("datetime_format", "%A"),
        ("datetime", "{format}"),
        ("datetime_locale", "no_SUCHLOC"),
    ]);
    let w = DateTimeWidget::new(&c);
    assert!(w.locale.is_none());
    assert_eq!(w.render_at(NEW_YEAR_AFTERNOON), "Monday");
}

#[test]
fn datetime_literal_content_is_returned_unchanged() {
    let c = cfg(&[("datetime", "just text")]);
    let w = DateTimeWidget::new(&c);
    let state = tabs_state(&[]);
    assert_eq!(w.process("datetime", &state), "just text");
    assert_eq!(w.render_at(0), "just text");
}

#[test]
fn datetime_styled_parts_render_independently() {
    let c = cfg(&[("datetime", "#[fg=red]{date} #[fg=blue]{time}")]);
    let w = DateTimeWidget::new(&c);
    assert_eq!(
        w.render_at(NEW_YEAR_AFTERNOON),
        "\u{1b}[31m2024-01-01 \u{1b}[0m\u{1b}[34m13:05\u{1b}[0m"
    );
}

#[test]
fn datetime_render_is_deterministic_at_fixed_instant() {
    let c = cfg(&[("datetime", "{date} {time}"), ("datetime_timezone", "Asia/Tokyo")]);
    let w = DateTimeWidget::new(&c);
    assert_eq!(w.render_at(NEW_YEAR_AFTERNOON), w.render_at(NEW_YEAR_AFTERNOON));
}

#[test]
fn datetime_malformed_format_string_degrades_to_empty() {
    let c = cfg(&[("datetime_format", "%"), ("datetime", "{format}")]);
    let w = DateTimeWidget::new(&c);
    assert_eq!(w.render_at(NEW_YEAR_AFTERNOON), "");
}

#[test]
fn tabs_render_active_and_normal_templates() {
    let c = cfg(&[("tab_normal", "[{name}]"), ("tab_active", "<{name}>")]);
    let w = TabsWidget::new(&c);
    let state = tabs_state(&[("a", false), ("b", true)]);
    assert_eq!(w.process("tabs", &state), "[a]<b>");
}

#[test]
fn tabs_active_template_defaults_to_normal() {
    let c = cfg(&[("tab_normal", "[{name}]")]);
    let w = TabsWidget::new(&c);
    let state = tabs_state(&[("a", false), ("b", true)]);
    assert_eq!(w.process("tabs", &state), "[a][b]");
}

#[test]
fn tabs_empty_snapshot_renders_empty() {
    let c = cfg(&[("tab_normal", "[{name}]")]);
    let w = TabsWidget::new(&c);
    let state = tabs_state(&[]);
    assert_eq!(w.process("tabs", &state), "");
}

#[test]
fn tabs_one_segment_per_tab() {
    let c = cfg(&[("tab_normal", "#[fg=green]{name}")]);
    let w = TabsWidget::new(&c);
    let state = tabs_state(&[("a", false), ("b", false), ("c", false)]);
    let out = w.process("tabs", &state);
    assert_eq!(out.matches("\u{1b}[32m").count(), 3);
    assert_eq!(
        out,
        "\u{1b}[32ma\u{1b}[0m\u{1b}[32mb\u{1b}[0m\u{1b}[32mc\u{1b}[0m"
    );
}

#[test]
fn tabs_literal_template_ignores_tab_names() {
    let c = cfg(&[("tab_normal", "-")]);
    let w = TabsWidget::new(&c);
    let state = tabs_state(&[("whatever", false), ("name", true)]);
    assert_eq!(w.process("tabs", &state), "--");
}

#[test]
fn tabs_unrecognized_placeholder_left_untouched() {
    let c = cfg(&[("tab_normal", "[{foo}]")]);
    let w = TabsWidget::new(&c);
    let state = tabs_state(&[("a", false)]);
    assert_eq!(w.process("tabs", &state), "[{foo}]");
}

#[test]
fn tabs_substitution_is_single_pass() {
    let c = cfg(&[("tab_normal", "{name}{name}")]);
    let w = TabsWidget::new(&c);
    assert_eq!(w.process("tabs", &tabs_state(&[("x", false)])), "xx");
    // a name holding the token itself is not expanded again
    assert_eq!(
        w.process("tabs", &tabs_state(&[("a{name}b", false)])),
        "a{name}ba{name}b"
    );
}

#[test]
fn tabs_process_is_idempotent_for_unchanged_snapshot() {
    let c = cfg(&[("tab_normal", "[{name}]"), ("tab_active", "<{name}>")]);
    let w = TabsWidget::new(&c);
    let state = tabs_state(&[("a", false), ("b", true)]);
    assert_eq!(w.process("tabs", &state), w.process("tabs", &state));
}

#[test]
fn process_click_is_a_no_op() {
    let c = cfg(&[("tab_normal", "[{name}]")]);
    let w = TabsWidget::new(&c);
    let state = tabs_state(&[("a", true)]);
    w.process_click(&state, 0);
    w.process_click(&state, 17);
    let d = DateTimeWidget::new(&ConfigMap::new());
    d.process_click(&state, 3);
}

#[test]
fn widgets_compose_in_configuration_order() {
    let c = cfg(&[
        ("tab_normal", "[{name}]"),
        ("datetime", "{time}"),
    ]);
    let tabs = TabsWidget::new(&c);
    let clock = DateTimeWidget::new(&c);
    let state = tabs_state(&[("main", true)]);
    let mut line = String::new();
    line.push_str(&tabs.process("tabs", &state));
    line.push_str(&clock.render_at(NEW_YEAR_AFTERNOON));
    assert_eq!(line, "[main]13:05");
}
