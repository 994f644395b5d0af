use accepted::buffer::Buffer;
use accepted::config::{Config, ConfigWithDefault, LanguageConfig};

fn lang(indent: Option<usize>, snippets: &[(&str, &str)]) -> LanguageConfig {
    let mut lc = LanguageConfig::default();
    lc.indent_width = indent;
    lc.snippets = snippets
        .iter()
        .map(|(k, v)| (k.to_string(), v.to_string()))
        .collect();
    lc
}

fn layered() -> ConfigWithDefault {
    let default = Config {
        file: vec![("rs".to_string(), lang(Some(4), &[("main", "fn main() {}")]))],
        file_default: Some(lang(Some(8), &[("common", "shared")])),
    };
    let config = Config {
        file: vec![("rs".to_string(), lang(Some(2), &[("main", "fn main() -> i32 {}")]))],
        file_default: None,
    };
    ConfigWithDefault { default, config }
}

#[test]
fn parsed_layer_wins_over_defaults() {
    let c = layered();
    assert_eq!(c.get_indent_width(&"rs".to_string()), Some(2));
}

#[test]
fn unknown_extension_falls_back_to_defaults() {
    let c = layered();
    // the parsed layer leaves the width unset for py, so the default
    // table's fallback entry answers
    assert_eq!(c.get_indent_width(&"py".to_string()), Some(8));
    assert_eq!(c.get_compiler(&"py".to_string()), None);
}

#[test]
fn partial_entry_falls_back_within_its_layer() {
    // the extension's entry leaves the width unset: the same layer's
    // fallback entry answers for that key, before the default table does
    let config = Config {
        file: vec![("rs".to_string(), lang(None, &[]))],
        file_default: Some(lang(Some(8), &[])),
    };
    let default = Config {
        file: vec![("rs".to_string(), lang(Some(4), &[]))],
        file_default: None,
    };
    let c = ConfigWithDefault { default, config };
    assert_eq!(c.get_indent_width(&"rs".to_string()), Some(8));
}

#[test]
fn commands_answer_per_key() {
    let mut entry = lang(Some(2), &[]);
    entry.lsp = Some(vec!["rls".to_string()]);
    let mut fd = lang(None, &[]);
    fd.compiler = Some(vec!["rustc".to_string()]);
    let config = Config { file: vec![("rs".to_string(), entry)], file_default: Some(fd) };
    let c = ConfigWithDefault { default: Config::default(), config };
    // the entry answers the server command; the compiler it leaves unset
    // comes from the same layer's fallback entry
    assert_eq!(c.get_lsp(&"rs".to_string()), Some(&vec!["rls".to_string()]));
    assert_eq!(c.get_compiler(&"rs".to_string()), Some(&vec!["rustc".to_string()]));
}

#[test]
fn snippets_come_from_the_parsed_layer_alone() {
    let c = layered();
    // the default table's snippets never enter the merge
    let snips = c.snippets(&"rs".to_string());
    assert_eq!(snips, vec![("main".to_string(), "fn main() -> i32 {}".to_string())]);
    let py = c.snippets(&"py".to_string());
    assert_eq!(py, Vec::new());
}

#[test]
fn snippet_fallback_wins_duplicate_names() {
    let config = Config {
        file: vec![("rs".to_string(), lang(None, &[("a", "1"), ("b", "2")]))],
        file_default: Some(lang(None, &[("b", "9"), ("c", "3")])),
    };
    let default = Config {
        file: Vec::new(),
        file_default: Some(lang(None, &[("z", "0")])),
    };
    let c = ConfigWithDefault { default, config };
    assert_eq!(
        c.snippets(&"rs".to_string()),
        vec![
            ("a".to_string(), "1".to_string()),
            ("b".to_string(), "9".to_string()),
            ("c".to_string(), "3".to_string()),
        ]
    );
}

#[test]
fn unset_width_falls_back_to_default_table() {
    // each setting falls back on its own: an entry that leaves the width
    // unset does not shadow the default table's width
    let default = Config {
        file: vec![("rs".to_string(), lang(Some(4), &[]))],
        file_default: None,
    };
    let config = Config {
        file: vec![("rs".to_string(), lang(None, &[]))],
        file_default: None,
    };
    let c = ConfigWithDefault { default, config };
    assert_eq!(c.get_indent_width(&"rs".to_string()), Some(4));
}

#[test]
fn set_language_reads_the_layered_indent_width() {
    let c = layered();
    let mut buf = Buffer::new();
    buf.open("m.rs".to_string(), vec![vec!['a']]);
    buf.set_language(&c);
    assert_eq!(buf.indent_width(), 2);
    assert_eq!(
        buf.snippet,
        vec![("main".to_string(), "fn main() -> i32 {}".to_string())]
    );
    let mut other = Buffer::new();
    other.open("m.py".to_string(), vec![vec!['a']]);
    other.set_language(&c);
    assert_eq!(other.indent_width(), 8);
    assert_eq!(other.snippet, Vec::new());
}
