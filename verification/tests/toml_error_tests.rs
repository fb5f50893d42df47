use seiran_compiler::project::toml_error::{label_of_range, TomlErrorParts};

const UNCLOSED_STRING: &str = "[page]\nmargin_top = \"10mm\n";

fn toml_error(content: &str) -> toml::de::Error {
    toml::from_str::<toml::value::Table>(content).expect_err("the document does not parse")
}

#[test]
fn suppresses_toml_builtin_snippet() {
    let parts = TomlErrorParts::new("style.toml", UNCLOSED_STRING, toml_error(UNCLOSED_STRING));

    let rendered = parts.source.to_string();
    assert!(!rendered.contains("TOML parse error at line"), "{rendered}");
}

#[test]
fn records_span_at_syntax_error() {
    let parts = TomlErrorParts::new("style.toml", UNCLOSED_STRING, toml_error(UNCLOSED_STRING));

    assert_eq!(parts.span_offset, 25);
}

#[test]
fn keeps_display_path_and_content() {
    let parts = TomlErrorParts::new("custom/style.toml", UNCLOSED_STRING, toml_error(UNCLOSED_STRING));

    assert_eq!(parts.name, "custom/style.toml");
    assert_eq!(parts.content, UNCLOSED_STRING);
}

#[test]
fn labels_cover_the_range_or_start_empty() {
    assert_eq!(label_of_range(Some((3, 8))), (3, 5));
    assert_eq!(label_of_range(Some((8, 3))), (8, 0));
    assert_eq!(label_of_range(None), (0, 0));
}
