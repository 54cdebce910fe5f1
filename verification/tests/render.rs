use zjstatus::config::ConfigMap;
use zjstatus::render::FormattedPart;

fn cfg(pairs: &[(&str, &str)]) -> ConfigMap {
    let mut c = ConfigMap::new();
    for (k, v) in pairs {
        c.set(String::from(*k), String::from(*v));
    }
    c
}

#[test]
fn no_directive_round_trips_content() {
    let part = FormattedPart::from_format_string("{name} x");
    assert_eq!(part.content, "{name} x");
    assert_eq!(part.format_string("hello"), "hello");
    assert_eq!(part.format_string(""), "");
}

#[test]
fn directive_block_is_stripped_and_styled() {
    let part = FormattedPart::from_format_string("#[fg=red,bold]T");
    assert_eq!(part.content, "T");
    assert_eq!(part.format_string("T"), "\u{1b}[1m\u{1b}[31mT\u{1b}[0m");
}

#[test]
fn background_and_italic_directives() {
    let part = FormattedPart::from_format_string("#[bg=blue,italic]x");
    assert_eq!(part.format_string("x"), "\u{1b}[3m\u{1b}[44mx\u{1b}[0m");
}

#[test]
fn unknown_directive_is_dropped() {
    let part = FormattedPart::from_format_string("#[wat,fg=nocolor]X");
    assert_eq!(part.content, "X");
    assert_eq!(part.format_string("X"), "X");
}

#[test]
fn unclosed_directive_block_is_literal_content() {
    let part = FormattedPart::from_format_string("#[fg=red");
    assert_eq!(part.content, "#[fg=red");
    assert_eq!(part.format_string("#[fg=red"), "#[fg=red");
}

#[test]
fn multiple_parts_split_on_directive_blocks() {
    let c = ConfigMap::new();
    let parts = FormattedPart::multiple_from_format_string("#[fg=red]{date} #[fg=blue]{time}", &c);
    assert_eq!(parts.len(), 2);
    assert_eq!(parts[0].content, "{date} ");
    assert_eq!(parts[1].content, "{time}");
}

#[test]
fn multiple_parts_keep_leading_literal_text() {
    let c = ConfigMap::new();
    let parts = FormattedPart::multiple_from_format_string("lead #[bold]rest", &c);
    assert_eq!(parts.len(), 2);
    assert_eq!(parts[0].content, "lead ");
    assert_eq!(parts[1].content, "rest");
}

#[test]
fn multiple_parts_of_empty_setting_is_one_empty_part() {
    let c = ConfigMap::new();
    let parts = FormattedPart::multiple_from_format_string("", &c);
    assert_eq!(parts.len(), 1);
    assert_eq!(parts[0].content, "");
}

#[test]
fn config_lookup_takes_latest_entry_and_defaults() {
    let mut c = cfg(&[("datetime_format", "%H")]);
    c.set(String::from("datetime_format"), String::from("%M"));
    assert_eq!(c.get_or("datetime_format", "x"), "%M");
    assert_eq!(c.get_or("missing_key", "fallback"), "fallback");
    assert!(c.get("missing_key").is_none());
}
