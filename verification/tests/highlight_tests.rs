use rnano::highlight::{highlight_line, rules_for_extension, Rule};
use rnano::style::{Color, Theme};

#[test]
fn comment_to_eol() {
    let spans = highlight_line("fn main() { // comment", &rules_for_extension("rs"));
    assert!(spans.iter().any(|(_, _, c)| *c == Color::DarkGrey));
}

#[test]
fn keyword_boundary() {
    let rules = rules_for_extension("rs");
    let spans = highlight_line("let x = 1;", &rules);
    assert!(spans
        .iter()
        .any(|(s, e, c)| *s == 0 && *e == 3 && *c == Color::Yellow));
    let spans2 = highlight_line("inlet = 1;", &rules);
    assert!(!spans2
        .iter()
        .any(|(s, _, c)| *s == 2 && *c == Color::Yellow));
}

#[test]
fn string_delimited() {
    let spans = highlight_line("let s = \"hello\";", &rules_for_extension("rs"));
    assert!(spans.iter().any(|(_, _, c)| *c == Color::Green));
}

#[test]
fn no_rules_for_unknown_ext() {
    assert!(rules_for_extension("xyz").is_empty());
}

#[test]
fn toml_section_header() {
    let spans = highlight_line("[package]", &rules_for_extension("toml"));
    assert!(spans.iter().any(|(_, _, c)| *c == Color::Yellow));
}

#[test]
fn spans_are_sorted_and_disjoint() {
    let line = "let s = \"a // b\"; // done fn";
    let spans = highlight_line(line, &rules_for_extension("rs"));
    assert_eq!(
        spans,
        vec![
            (0, 3, Color::Yellow),
            (8, 16, Color::Green),
            (26, 28, Color::Yellow),
        ]
    );
    for w in spans.windows(2) {
        assert!(w[0].1 <= w[1].0);
    }
}

#[test]
fn delimited_runs_to_end_of_line_when_unclosed() {
    let spans = highlight_line("x = 'abc", &rules_for_extension("py"));
    assert_eq!(spans, vec![(4, 8, Color::Green)]);
}

#[test]
fn line_prefix_skips_leading_space() {
    let spans = highlight_line("  # Title", &rules_for_extension("md"));
    assert_eq!(spans, vec![(0, 9, Color::Yellow)]);
    let spans = highlight_line("a # b", &rules_for_extension("markdown"));
    assert!(spans.is_empty());
}

#[test]
fn keyword_next_to_underscore_or_unicode_letter() {
    let rules = vec![Rule::Keyword { word: "if", color: Color::Cyan }];
    assert!(highlight_line("_if if éif", &rules) == vec![(4, 6, Color::Cyan)]);
}

#[test]
fn shell_and_json_rules() {
    assert_eq!(rules_for_extension("bash").len(), 14);
    assert_eq!(rules_for_extension("fish").len(), 14);
    assert_eq!(rules_for_extension("json").len(), 4);
    let spans = highlight_line("{\"a\": null}", &rules_for_extension("json"));
    assert_eq!(spans, vec![(1, 4, Color::Green), (6, 10, Color::Cyan)]);
}

#[test]
fn themes_by_name() {
    let light = Theme::from_name("light");
    assert_eq!(light.title_bg, Color::White);
    assert_eq!(light.search_hl_bg, Color::Blue);
    let dark = Theme::from_name("dark");
    assert_eq!(dark.title_bg, Color::Blue);
    assert_eq!(Theme::from_name("solarized"), dark);
}
