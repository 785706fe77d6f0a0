use error_rail::types::ErrorFormatter;
use error_rail::{ComposableError, ErrorFormatConfig};

fn sample() -> ComposableError<&'static str> {
    ComposableError::new("root").with_context("outer").with_context("top")
}

#[test]
fn default_builder_render() {
    let e = sample();
    assert_eq!(e.fmt().render("root"), "top -> outer -> root");
}

#[test]
fn reversed_builder_render() {
    let e = sample();
    assert_eq!(e.fmt().reverse_context(true).render("root"), "outer -> top -> root");
}

#[test]
fn custom_separator_render() {
    let e = sample();
    assert_eq!(e.fmt().with_separator(" | ").render("root"), "top | outer | root");
}

#[test]
fn compact_render() {
    let e = sample();
    assert_eq!(e.fmt().compact().render("root"), "top | outer | root");
}

#[test]
fn pretty_render_is_a_tree() {
    let e = sample();
    assert_eq!(e.fmt().pretty().render("root"), "\u{250c} top\n\u{251c}\u{2500} outer\n\u{2514}\u{2500} root");
}

#[test]
fn cascade_switches_arrow_to_newline() {
    let e = sample();
    assert_eq!(e.fmt().cascade(true).render("root"), "top\n  outer\n    root");
    assert_eq!(e.fmt().with_separator(" :: ").cascade(true).render("root"), "top ::   outer ::     root");
}

#[test]
fn cascaded_render() {
    let e = sample();
    assert_eq!(e.fmt().cascaded().render("root"), "top\n  outer\n    root");
}

#[test]
fn code_shown_and_hidden() {
    let e = sample().set_code(500);
    assert_eq!(e.fmt().render("root"), "top -> outer -> root (code: 500)");
    assert_eq!(e.fmt().show_code(false).render("root"), "top -> outer -> root");
}

#[test]
fn config_presets() {
    let d = ErrorFormatConfig::default();
    assert_eq!(d.separator, " -> ");
    assert!(d.show_code && !d.multiline && !d.cascade);
    let p = ErrorFormatConfig::pretty();
    assert_eq!(p.separator, "\n");
    assert_eq!(p.context_prefix.as_deref(), Some("\u{251c}\u{2500} "));
    assert_eq!(p.root_prefix.as_deref(), Some("\u{2514}\u{2500} "));
    assert!(p.multiline);
    let c = ErrorFormatConfig::compact();
    assert_eq!(c.separator, " | ");
    let n = ErrorFormatConfig::no_code();
    assert!(!n.show_code);
    let k = ErrorFormatConfig::cascaded();
    assert!(k.cascade && k.multiline);
}

#[test]
fn config_format_item_adds_prefix_and_suffix() {
    let mut c = ErrorFormatConfig::default();
    c.context_prefix = Some("<".to_string());
    c.context_suffix = Some(">".to_string());
    assert_eq!(c.format_item("x"), "<x>");
    assert_eq!(c.separator(), " -> ");
}

#[test]
fn config_format_chain_linear_with_suffixes() {
    let mut c = ErrorFormatConfig::default();
    c.context_prefix = Some("[".to_string());
    c.context_suffix = Some("]".to_string());
    c.root_prefix = Some("{".to_string());
    c.root_suffix = Some("}".to_string());
    let items = vec!["a".to_string(), "b".to_string(), "c".to_string()];
    assert_eq!(c.format_chain(&items), "[a] -> [b] -> {c}");
    let empty: Vec<String> = Vec::new();
    assert_eq!(c.format_chain(&empty), "");
}

#[test]
fn error_chain_with_config() {
    let e = sample();
    assert_eq!(e.error_chain_with(ErrorFormatConfig::compact(), "root"), "top | outer | root");
}

#[test]
fn legacy_formatter_renders_like_default() {
    let e = sample().set_code(7);
    assert_eq!(e.legacy_fmt().render("root"), "top -> outer -> root (code: 7)");
    assert_eq!(
        e.legacy_fmt().reverse_context(true).with_separator(", ").show_code(false).render("root"),
        "outer, top, root"
    );
}

#[test]
fn legacy_formatter_without_contexts() {
    let e = ComposableError::new("only");
    assert_eq!(e.legacy_fmt().render("only"), "only");
}

#[test]
fn format_with_configures_builder() {
    let e = sample().set_code(3);
    assert_eq!(e.format_with(|b| b.compact().show_code(false), "root"), "top | outer | root");
    assert_eq!(e.format_with(|b| b.reverse_context(true), "root"), "outer -> top -> root (code: 3)");
}

struct PlainFormatter;

impl ErrorFormatter for PlainFormatter {}

struct BracketFormatter;

impl ErrorFormatter for BracketFormatter {
    fn format_item(&self, item: &str) -> String {
        format!("<{}>", item)
    }

    fn separator(&self) -> &str {
        " / "
    }
}

#[test]
fn default_formatter_joins_items_with_arrow() {
    let e = sample();
    assert_eq!(e.error_chain_with(PlainFormatter, "root"), "top -> outer -> root");
    assert_eq!(PlainFormatter.format_item("x"), "x");
    assert_eq!(PlainFormatter.separator(), " -> ");
}

#[test]
fn default_chain_uses_overridden_pieces() {
    let e = sample();
    assert_eq!(e.error_chain_with(BracketFormatter, "root"), "<top> / <outer> / <root>");
}
