use rnano::config::{parse, Config};

#[test]
fn defaults_are_sane() {
    let cfg = Config::default();
    assert_eq!(cfg.tab_width, 4);
    assert!(!cfg.line_numbers);
    assert!(!cfg.soft_wrap);
    assert!(!cfg.backup);
    assert_eq!(cfg.undo_depth, 1000);
    assert_eq!(cfg.highlight_max_kb, 512);
}

#[test]
fn parse_all_keys() {
    let text = "
# rnano config
tab_width        = 2
line_numbers     = true
soft_wrap        = true
backup           = true
undo_depth       = 500
highlight_max_kb = 256
";
    let cfg = parse(text).unwrap();
    assert_eq!(cfg.tab_width, 2);
    assert!(cfg.line_numbers);
    assert!(cfg.soft_wrap);
    assert!(cfg.backup);
    assert_eq!(cfg.undo_depth, 500);
    assert_eq!(cfg.highlight_max_kb, 256);
}

#[test]
fn parse_blank_lines_and_comments() {
    let cfg = parse("\n# comment\n\ntab_width = 8\n").unwrap();
    assert_eq!(cfg.tab_width, 8);
}

#[test]
fn parse_quoted_values() {
    let cfg = parse("backup = \"true\"\n").unwrap();
    assert!(cfg.backup);
}

#[test]
fn parse_inline_comment() {
    let cfg = parse("tab_width = 2 # two spaces\n").unwrap();
    assert_eq!(cfg.tab_width, 2);
}

#[test]
fn parse_section_header_ignored() {
    let cfg = parse("[editor]\ntab_width = 3\n").unwrap();
    assert_eq!(cfg.tab_width, 3);
}

#[test]
fn parse_unknown_key_ignored() {
    let cfg = parse("future_feature = 42\ntab_width = 3\n").unwrap();
    assert_eq!(cfg.tab_width, 3);
}

#[test]
fn parse_bad_bool_errors() {
    assert!(parse("line_numbers = yes\n").is_err());
    assert!(parse("backup = 1\n").is_err());
}

#[test]
fn parse_bad_int_errors() {
    assert!(parse("tab_width = abc\n").is_err());
}

#[test]
fn tab_width_clamped_to_one() {
    let cfg = parse("tab_width = 0\n").unwrap();
    assert_eq!(cfg.tab_width, 1);
}

#[test]
fn apply_cli_backup_forces_true() {
    let mut cfg = Config::default();
    assert!(!cfg.backup);
    cfg.apply_cli(true);
    assert!(cfg.backup);
}

#[test]
fn apply_cli_false_does_not_override_file() {
    let mut cfg = Config {
        backup: true,
        ..Config::default()
    };
    cfg.apply_cli(false);
    assert!(cfg.backup);
}

#[test]
fn parse_error_messages_name_the_line() {
    let e = parse("tab_width = 4\nline_numbers = yes\n").unwrap_err();
    assert_eq!(e.message(), "line 2: expected `true` or `false`, got `yes`");
    let e = parse("just words\n").unwrap_err();
    assert_eq!(e.message(), "line 1: expected `key = value`");
    let e = parse("undo_depth = -3\n").unwrap_err();
    assert_eq!(e.message(), "line 1: `undo_depth` must be a positive integer");
    let e = parse("highlight_max_kb = x\n").unwrap_err();
    assert_eq!(e.message(), "line 1: `highlight_max_kb` must be a non-negative integer");
    let e = parse("autosave_interval = x\n").unwrap_err();
    assert_eq!(e.message(), "line 1: `autosave_interval` must be a non-negative integer");
}

#[test]
fn parse_strings_and_hash_inside_quotes() {
    let cfg = parse("theme = \"light\"\non_save_hook = \"echo #1 %f\" # run\nsyntax = false\r\n").unwrap();
    assert_eq!(cfg.theme, "light");
    assert_eq!(cfg.on_save_hook, "echo #1 %f");
    assert!(!cfg.syntax);
}

#[test]
fn parse_tabs_around_equals_and_autosave() {
    let cfg = parse("autosave_interval\t=\t30\nundo_depth = 0\n").unwrap();
    assert_eq!(cfg.autosave_interval, 30);
    assert_eq!(cfg.undo_depth, 1);
}
