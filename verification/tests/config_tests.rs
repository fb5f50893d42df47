use seiran_compiler::project::config::{
    build_language_string, contains_str, parse_font_values, has_sei_extension, resolve_optional_path, resolve_output_dir_path,
    resolve_paths, resolve_sources, validate_bcp47_language, validate_document_language, validate_document_name,
    validate_font_language_constraints, validate_image_config, validate_keywords, validate_non_empty_sources, validate_output_dir,
    validate_unique_font_names, ConfigValidationError, ConfigWarning, DocumentNameError, LanguageError, LanguageIdError,
    OptionalFile, OutputConfig, PreFontConfig, PreFontFeature, PreImageConfig, Feature, RawPaths, TextDirection,
};
use seiran_compiler::project::font::FontType;
use seiran_compiler::project::font_map::FontMap;
use seiran_compiler::project::source::MemoryProjectSource;

#[test]
fn resolve_output_dir_path_keeps_absolute_path_as_is() {
    let current_dir = "/home/user/project";
    let output_dir = "/var/out";

    let resolved = resolve_output_dir_path(current_dir, Some(output_dir));

    assert_eq!(resolved, "/var/out");
}

#[test]
fn resolve_output_dir_path_joins_relative_path_to_current_dir() {
    let current_dir = "/home/user/project";
    let output_dir = "build/out";

    let resolved = resolve_output_dir_path(current_dir, Some(output_dir));

    assert_eq!(resolved, "/home/user/project/build/out");
}

#[test]
fn resolve_output_dir_path_uses_current_dir_when_none() {
    let current_dir = "/home/user/project";

    let resolved = resolve_output_dir_path(current_dir, None);

    assert_eq!(resolved, "/home/user/project");
}

#[test]
fn build_language_string_handles_all_combinations() {
    assert_eq!(build_language_string(None, None), None);
    assert_eq!(build_language_string(Some("ja"), None), Some("ja".to_string()));
    assert_eq!(build_language_string(None, Some("JAN")), Some("und-x-hbotJAN".to_string()));
    assert_eq!(build_language_string(Some("en-US"), Some("ENG")), Some("en-US-x-hbotENG".to_string()));
}

fn raw_paths(sources: &[&str], style: Option<&str>, references: Option<&str>, font: &str) -> RawPaths {
    RawPaths {
        sources: sources.iter().map(|s| s.to_string()).collect(),
        style_path: style.map(|s| s.to_string()),
        references_path: references.map(|s| s.to_string()),
        font_paths: FontMap::from_fn(|_| font.to_string()),
    }
}

#[test]
fn resolve_paths_reports_missing_paths_without_touching_disk() {
    let raw = raw_paths(&["a.sei"], Some("style.toml"), Some("references.toml"), "fonts/dummy.ttf");
    let source = MemoryProjectSource::new();

    let (resolved, errors, warnings) = resolve_paths(&raw, &source, "/project");

    assert!(errors.iter().any(|e| matches!(e, ConfigValidationError::StylePathResolution { .. })));
    assert!(errors.iter().any(|e| matches!(e, ConfigValidationError::ReferencesPathResolution { .. })));
    assert!(errors.iter().any(|e| matches!(e, ConfigValidationError::SourcePathResolution { .. })));
    let font_errors = errors.iter().filter(|e| matches!(e, ConfigValidationError::FontPathResolution { .. })).count();
    assert_eq!(font_errors, 19);
    assert!(matches!(&errors[2], ConfigValidationError::FontPathResolution { font_type: FontType::Serif, path }
        if path == "/project/fonts/dummy.ttf"));
    assert_eq!(errors.len(), 22);
    assert!(resolved.font_paths.is_empty());
    assert!(resolved.sources.is_empty());
    assert!(resolved.style_path.is_none());
    assert!(warnings.is_empty());
}

#[test]
fn resolve_paths_succeeds_when_memory_source_has_all_paths() {
    let raw = raw_paths(&[], Some("style.toml"), None, "fonts/dummy.ttf");
    let source = MemoryProjectSource::new()
        .with_text("/project/style.toml", "")
        .with_bytes("/project/fonts/dummy.ttf", Vec::new());

    let (resolved, errors, _) = resolve_paths(&raw, &source, "/project");

    assert!(errors.is_empty(), "{errors:?}");
    assert_eq!(resolved.style_path, Some("/project/style.toml".to_string()));
    assert!(resolved.references_path.is_none());
    assert_eq!(resolved.font_paths.len(), 19);
    assert!(resolved.font_paths.iter().all(|p| p == "/project/fonts/dummy.ttf"));
}

#[test]
fn resolve_sources_warns_once_per_non_sei_source_in_declaration_order() {
    let sources: Vec<String> = vec!["dir/b.txt".to_string(), "dir/source.sei".to_string(), "dir/a.md".to_string()];
    let source = MemoryProjectSource::new()
        .with_text("/p/dir/b.txt", "")
        .with_text("/p/dir/source.sei", "")
        .with_text("/p/dir/a.md", "");
    let mut errors = Vec::new();
    let mut warnings = Vec::new();

    let resolved = resolve_sources(&sources, "/p", &source, &mut errors, &mut warnings);

    let paths: Vec<&str> = warnings
        .iter()
        .map(|warning| {
            let ConfigWarning::SourceExtension { path } = warning;
            path.as_str()
        })
        .collect();
    assert_eq!(paths, vec!["dir/b.txt", "dir/a.md"]);
    assert!(errors.is_empty());
    assert_eq!(resolved, vec!["/p/dir/b.txt", "/p/dir/source.sei", "/p/dir/a.md"]);
}

#[test]
fn resolve_sources_keeps_found_paths_and_reports_missing_ones_in_order() {
    let sources: Vec<String> = vec!["a.sei".to_string(), "/abs/b.sei".to_string(), "c.sei".to_string()];
    let source = MemoryProjectSource::new().with_text("/p/a.sei", "");
    let mut errors = Vec::new();
    let mut warnings = Vec::new();

    let resolved = resolve_sources(&sources, "/p", &source, &mut errors, &mut warnings);

    assert_eq!(resolved, vec!["/p/a.sei"]);
    assert_eq!(errors.len(), 2);
    assert!(matches!(&errors[0], ConfigValidationError::SourcePathResolution { path } if path == "/abs/b.sei"));
    assert!(matches!(&errors[1], ConfigValidationError::SourcePathResolution { path } if path == "/p/c.sei"));
    assert!(warnings.is_empty());
}

#[test]
fn resolve_optional_path_reports_the_joined_path_of_a_missing_file() {
    let source = MemoryProjectSource::new().with_text("/p/style.toml", "");
    let mut errors = Vec::new();

    let found = resolve_optional_path(Some("style.toml"), "/p", &source, &mut errors, OptionalFile::Style);
    let missing = resolve_optional_path(Some("refs.toml"), "/p", &source, &mut errors, OptionalFile::References);
    let absent = resolve_optional_path(None, "/p", &source, &mut errors, OptionalFile::Style);

    assert_eq!(found, Some("/p/style.toml".to_string()));
    assert_eq!(missing, None);
    assert_eq!(absent, None);
    assert_eq!(errors.len(), 1);
    assert!(matches!(&errors[0], ConfigValidationError::ReferencesPathResolution { path } if path == "/p/refs.toml"));
}

#[test]
fn sei_extension_follows_the_last_dot_of_the_file_name() {
    assert!(has_sei_extension("a.sei"));
    assert!(has_sei_extension("/x/y/b.c.sei"));
    assert!(has_sei_extension("dir/a.sei/"));
    assert!(!has_sei_extension("a.SEI"));
    assert!(!has_sei_extension(".sei"));
    assert!(!has_sei_extension("a.sei.txt"));
    assert!(!has_sei_extension("sei"));
    assert!(!has_sei_extension("a.sei/.."));
    assert!(!has_sei_extension(""));
}

#[test]
fn document_name_checks_reject_each_bad_form() {
    assert_eq!(validate_document_name(""), Err(DocumentNameError::Empty));
    assert_eq!(validate_document_name("a/b"), Err(DocumentNameError::PathSeparator));
    assert_eq!(validate_document_name("a\\b"), Err(DocumentNameError::PathSeparator));
    assert_eq!(validate_document_name("."), Err(DocumentNameError::DotName));
    assert_eq!(validate_document_name(".."), Err(DocumentNameError::DotName));
    assert_eq!(validate_document_name("report"), Ok(()));
    assert_eq!(validate_document_name("..."), Ok(()));
}

#[test]
fn keyword_and_list_checks_find_the_first_empty_entry() {
    let keywords = vec!["a".to_string(), "".to_string(), "".to_string()];
    assert_eq!(validate_keywords(Some(&keywords)), Err(1));
    assert_eq!(validate_keywords(None), Ok(()));
    assert_eq!(validate_keywords(Some(&vec!["x".to_string()])), Ok(()));
    assert_eq!(validate_non_empty_sources(&Vec::new()), Err(()));
    assert_eq!(validate_non_empty_sources(&vec!["a.sei".to_string()]), Ok(()));
    assert_eq!(validate_output_dir(Some("")), Err(()));
    assert_eq!(validate_output_dir(Some("out")), Ok(()));
    assert_eq!(validate_output_dir(None), Ok(()));
}

#[test]
fn language_checks_reject_reserved_subtags_before_parsing() {
    assert_eq!(validate_bcp47_language(Some("ja-x-hbotJAN")), Err(LanguageError::ReservedSubtag));
    assert_eq!(validate_bcp47_language(Some("en-x-hbscLatn")), Err(LanguageError::ReservedSubtag));
    assert_eq!(validate_bcp47_language(Some("en-US")), Ok(()));
    assert_eq!(
        validate_bcp47_language(Some("not a language!")),
        Err(LanguageError::Invalid(LanguageIdError::InvalidLanguage))
    );
    assert_eq!(validate_bcp47_language(None), Ok(()));
    assert_eq!(validate_document_language(Some("ja")), Ok(()));
    assert_eq!(
        validate_document_language(Some("!!")),
        Err(LanguageError::Invalid(LanguageIdError::InvalidLanguage))
    );
}

#[test]
fn contains_str_finds_inner_occurrences() {
    assert!(contains_str("abcdef", "cde"));
    assert!(contains_str("abc", ""));
    assert!(!contains_str("abc", "abcd"));
    assert!(!contains_str("abcabd", "abe"));
}

#[test]
fn text_direction_accepts_exactly_four_spellings() {
    assert_eq!(TextDirection::parse("left-to-right"), Ok(TextDirection::LeftToRight));
    assert_eq!(TextDirection::parse("right-to-left"), Ok(TextDirection::RightToLeft));
    assert_eq!(TextDirection::parse("top-to-bottom"), Ok(TextDirection::TopToBottom));
    assert_eq!(TextDirection::parse("bottom-to-top"), Ok(TextDirection::BottomToTop));
    for bad in ["ltr", "LTR", "left to right", ""] {
        assert!(TextDirection::parse(bad).is_err(), "{bad}");
    }
}

/// Font settings whose names are `font_<kind>`, with `edit` applied to the serif kind.
fn font_configs(edit: impl Fn(FontType, &mut PreFontConfig)) -> FontMap<PreFontConfig> {
    FontMap::from_fn(|t: FontType| {
        let mut config = PreFontConfig {
            font_name: format!("font_{}", t.as_toml_key()),
            font_path: "dummy.ttf".to_string(),
            font_index: 0,
            language: None,
            script: None,
            ot_language: None,
            direction: None,
            variation_axis_names: None,
            features: None,
        };
        edit(t, &mut config);
        config
    })
}


#[test]
fn unique_font_names_pass_without_errors() {
    let mut errors = Vec::new();

    validate_unique_font_names(&font_configs(|_, _| {}), &mut errors);

    assert!(errors.is_empty(), "{errors:?}");
}


#[test]
fn ot_language_with_script_passes_the_language_constraint() {
    let configs = font_configs(|t, c| {
        if t == FontType::Serif {
            c.script = Some("latn".to_string());
            c.ot_language = Some("JAN".to_string());
        }
    });
    let mut errors = Vec::new();

    validate_font_language_constraints(&configs, &mut errors);

    assert!(errors.is_empty(), "{errors:?}");
}












#[test]
fn pdf_path_is_the_name_with_a_pdf_extension_under_the_output_dir() {
    for (dir, name) in [
        ("/out", "report"),
        ("/out/", "report"),
        ("/out", "report.v2"),
        ("/out", ".hidden"),
        ("/out", "draft."),
        ("/", "x"),
        ("/a/b", "..."),
    ] {
        let config = OutputConfig { name: name.to_string(), output_dir: dir.to_string() };

        let mut expected = std::path::PathBuf::from(dir);
        expected.push(name);
        expected.set_extension("pdf");
        assert_eq!(config.pdf_path(), expected.display().to_string(), "{dir} + {name}");
    }
    let config = OutputConfig { name: "report".to_string(), output_dir: "/out".to_string() };
    assert_eq!(config.pdf_path(), "/out/report.pdf");
}


#[test]
fn max_dpi_is_accepted_from_one_to_two_thousand_four_hundred() {
    for max_dpi in [1, 300, 2400] {
        assert!(validate_image_config(&PreImageConfig { max_dpi, downsample: false }).is_ok());
    }
    let low = validate_image_config(&PreImageConfig { max_dpi: 0, downsample: true });
    assert!(matches!(low, Err(ConfigValidationError::Field { ref path, ref message })
        if path == "image.max_dpi" && message == "lower than 1"), "{low:?}");
    let high = validate_image_config(&PreImageConfig { max_dpi: 2401, downsample: true });
    assert!(matches!(high, Err(ConfigValidationError::Field { ref path, ref message })
        if path == "image.max_dpi" && message == "greater than 2400"), "{high:?}");
}

#[test]
fn the_image_section_defaults_to_three_hundred_dpi_with_downsampling() {
    let image = PreImageConfig::default();

    assert_eq!(image.max_dpi, 300);
    assert!(image.downsample);
    assert!(validate_image_config(&image).is_ok());
}

/// Serif settings with `edit` applied, read as font values.
fn serif_values(edit: impl Fn(&mut PreFontConfig)) -> Result<seiran_compiler::project::config::FontValues, Vec<ConfigValidationError>> {
    let configs = font_configs(|t, c| {
        if t == FontType::Serif {
            edit(c);
        }
    });
    parse_font_values(FontType::Serif, configs.get(FontType::Serif))
}

fn error_paths(errors: &[ConfigValidationError]) -> Vec<&str> {
    errors
        .iter()
        .map(|e| match e {
            ConfigValidationError::Field { path, .. } => path.as_str(),
            other => panic!("a field error: {other:?}"),
        })
        .collect()
}





#[test]
fn font_values_pad_three_letter_language_tags_and_build_the_language_string() {
    let values = serif_values(|c| {
        c.language = Some("ja".to_string());
        c.script = Some("kana".to_string());
        c.ot_language = Some("JAN".to_string());
        c.direction = Some("top-to-bottom".to_string());
        c.font_index = 2;
    })
    .unwrap();

    assert_eq!(values.font_index, 2);
    assert_eq!(values.script, Some(*b"kana"));
    assert_eq!(values.ot_language_tag, Some(*b"JAN "));
    assert_eq!(values.language, Some("ja-x-hbotJAN".to_string()));
    assert_eq!(values.direction, Some(TextDirection::TopToBottom));
    assert_eq!(values.variation_axis_tags, None);
    assert_eq!(values.features, None);
}

#[test]
fn font_values_read_axis_and_feature_tags_in_order() {
    let values = serif_values(|c| {
        c.variation_axis_names = Some(vec!["wght".to_string(), "wdth".to_string()]);
        c.features = Some(vec![
            PreFontFeature { tag: "liga".to_string(), value: 0 },
            PreFontFeature { tag: "smcp".to_string(), value: 1 },
        ]);
    })
    .unwrap();

    assert_eq!(values.variation_axis_tags, Some(vec![*b"wght", *b"wdth"]));
    assert_eq!(values.features, Some(vec![Feature { tag: *b"liga", value: 0 }, Feature { tag: *b"smcp", value: 1 }]));

    let empty = serif_values(|c| c.features = Some(Vec::new())).unwrap();
    assert_eq!(empty.features, None, "an empty feature list is no list");
    let no_axes = serif_values(|c| c.variation_axis_names = Some(Vec::new())).unwrap();
    assert_eq!(no_axes.variation_axis_tags, Some(Vec::new()));
}

#[test]
fn font_value_problems_are_all_reported_in_field_order() {
    let errors = serif_values(|c| {
        c.script = Some("la".to_string());
        c.ot_language = Some("J!N".to_string());
        c.direction = Some("ltr".to_string());
        c.variation_axis_names = Some(vec!["wght".to_string(), "w".to_string(), "wdth".to_string(), "ｗｇｈｔ".to_string()]);
        c.features = Some(vec![PreFontFeature { tag: "ligature".to_string(), value: 1 }]);
    })
    .unwrap_err();

    assert_eq!(error_paths(&errors), vec![
        "font_configs.serif.script",
        "font_configs.serif.ot_language",
        "font_configs.serif.direction",
        "font_configs.serif.variation_axes",
        "font_configs.serif.variation_axes",
        "font_configs.serif.features",
    ]);
    assert!(matches!(&errors[2], ConfigValidationError::Field { message, .. }
        if message == "direction は 'left-to-right' / 'right-to-left' / 'top-to-bottom' / 'bottom-to-top' のいずれかである必要があります"));
}

use seiran_compiler::length::Length;
use seiran_compiler::project::validate::{
    decimal_text, validate_and_convert, PreConfig, PreDocumentConfig, PreOutputConfig, PrePdfConfig,
};

/// A configuration that passes every check.
fn valid_config() -> PreConfig {
    PreConfig {
        document: PreDocumentConfig::default(),
        output: PreOutputConfig { name: "test".to_string(), output_dir: Some("out".to_string()) },
        pdf: PrePdfConfig { height: Length::from_sp(842 * 65536), width: Length::from_sp(595 * 65536), show_bookmarks: true },
        image: PreImageConfig::default(),
        font_configs: font_configs(|_, _| {}),
        sources: vec!["dummy.sei".to_string()],
        style_path: None,
        references_path: None,
    }
}

fn render_pt(l: Length) -> String {
    format!("{}pt", l.sp() as f64 / 65536.0)
}

fn failure_list(config: &PreConfig) -> Vec<(String, String)> {
    match validate_and_convert(config, &render_pt) {
        Ok(_) => Vec::new(),
        Err(errors) => errors
            .into_iter()
            .map(|e| match e {
                ConfigValidationError::Field { path, message } => (path, message),
                other => panic!("a field error: {other:?}"),
            })
            .collect(),
    }
}

#[test]
fn a_valid_configuration_gives_the_values_of_every_kind() {
    let values = validate_and_convert(&valid_config(), &render_pt).expect("a valid configuration");

    assert_eq!(values.len(), 19);
    assert!(values.iter().all(|v| v.script.is_none() && v.language.is_none()));
}

#[test]
fn configuration_problems_are_reported_in_section_and_field_order() {
    let mut config = valid_config();
    config.document.language = Some("!!".to_string());
    config.document.keywords = Some(vec!["a".to_string(), "b".to_string(), String::new()]);
    config.output.name = "a/b".to_string();
    config.output.output_dir = Some(String::new());
    config.pdf.width = Length::from_sp(0);
    config.image.max_dpi = 0;
    config.sources = Vec::new();
    config.font_configs = font_configs(|t, c| {
        if t == FontType::SerifBold {
            c.font_name = String::new();
            c.language = Some("en-x-hbotENG".to_string());
            c.ot_language = Some("ENG".to_string());
            c.direction = Some("ltr".to_string());
        }
        if t == FontType::Math {
            c.font_name = "font_serif".to_string();
        }
    });

    let failures = failure_list(&config);

    let paths: Vec<&str> = failures.iter().map(|(p, _)| p.as_str()).collect();
    assert_eq!(paths, vec![
        "document.language",
        "document.keywords",
        "output.name",
        "output.output_dir",
        "pdf.width",
        "image.max_dpi",
        "font_configs.serif_bold.font_name",
        "font_configs.serif_bold.language",
        "sources",
        "font_configs.math",
        "font_configs.serif_bold",
        "font_configs.serif_bold.direction",
    ]);
    assert_eq!(failures[1].1, "keywords[2] は空にできません");
    assert_eq!(failures[4].1, "正値である必要があります（受け取った値: 0pt）");
    assert_eq!(failures[5].1, "lower than 1");
    assert_eq!(failures[6].1, "length is lower than 1");
    assert_eq!(failures[8].1, "sources は最低 1 つのファイルを指定する必要があります");
    assert_eq!(failures[9].1, "フォント名 'font_serif' が重複しています");
}

#[test]
fn decimal_text_writes_numbers_without_leading_zeros() {
    for n in [0usize, 7, 10, 42, 1000, 123456789, usize::MAX] {
        assert_eq!(decimal_text(n), n.to_string());
    }
}

/// Validates the valid configuration with `edit` applied.
fn run_validate(edit: impl FnOnce(&mut PreConfig)) -> Result<(), Vec<ConfigValidationError>> {
    let mut config = valid_config();
    edit(&mut config);
    validate_and_convert(&config, &render_pt).map(|_| ())
}

/// Validates the valid configuration with `edit` applied to the serif section.
fn run_validate_with_serif_extra(edit: impl Fn(&mut PreFontConfig)) -> Result<(), Vec<ConfigValidationError>> {
    run_validate(|config| {
        config.font_configs = font_configs(|t, c| {
            if t == FontType::Serif {
                edit(c);
            }
        });
    })
}

fn has_field_error(errors: &[ConfigValidationError], check: impl Fn(&str, &str) -> bool) -> bool {
    errors.iter().any(|e| matches!(e, ConfigValidationError::Field { path, message } if check(path, message)))
}

#[test]
fn validate_values_fails_on_duplicate_font_names_with_font_type_in_path() {
    let errors = run_validate(|config| {
        config.font_configs = font_configs(|t, c| {
            if t == FontType::SerifBold {
                c.font_name = "font_serif".to_string();
            }
        });
    })
    .unwrap_err();

    let dup_path = errors
        .iter()
        .find_map(|error| match error {
            ConfigValidationError::Field { path, message } if message.contains("重複") => Some(path.as_str()),
            _ => None,
        })
        .expect("expected duplicate font name error");
    assert_eq!(dup_path, "font_configs.serif_bold");
}

#[test]
fn validate_values_fails_on_empty_sources() {
    let errors = run_validate(|config| config.sources = vec![]).unwrap_err();

    assert!(has_field_error(&errors, |path, _| path == "sources"));
}

#[test]
fn validate_values_fails_on_omitted_sources() {
    let errors = run_validate(|config| config.sources = Vec::new()).unwrap_err();

    assert!(has_field_error(&errors, |path, _| path == "sources"));
}

#[test]
fn validate_values_fails_on_empty_output_dir() {
    let errors = run_validate(|config| config.output.output_dir = Some(String::new())).unwrap_err();

    assert!(has_field_error(&errors, |path, _| path == "output.output_dir"));
}

#[test]
fn validate_values_fails_on_out_of_range_max_dpi() {
    let errors = run_validate(|config| config.image.max_dpi = 9999).unwrap_err();

    assert!(has_field_error(&errors, |path, _| path == "image.max_dpi"));
}

#[test]
fn validate_values_accepts_valid_bcp47_languages() {
    for lang in ["ja", "en-US", "zh-Hant", "zh-Hans-CN", "und"] {
        assert!(run_validate_with_serif_extra(|c| c.language = Some(lang.to_string())).is_ok(), "expected '{lang}' to be accepted");
    }
}

#[test]
fn validate_values_rejects_invalid_bcp47_language() {
    let errors = run_validate_with_serif_extra(|c| c.language = Some("!!".to_string())).unwrap_err();

    assert!(has_field_error(&errors, |path, message| path.contains("language") && message.contains("BCP 47")));
}

#[test]
fn validate_values_rejects_reserved_private_use_in_language() {
    for forbidden in ["en-x-hbsclatn", "ja-x-hbotJAN"] {
        let errors = run_validate_with_serif_extra(|c| c.language = Some(forbidden.to_string())).unwrap_err();
        assert!(
            has_field_error(&errors, |path, message| path.contains("language")
                && (message.contains("-x-hbsc") || message.contains("-x-hbot"))),
            "expected '{forbidden}' to be rejected"
        );
    }
}

#[test]
fn validate_values_accepts_structurally_valid_ot_script_tags() {
    for script in ["latn", "kana", "hani", "DFLT", "Hani", "Latn", "LATN", "dflt", "Dflt"] {
        assert!(
            run_validate_with_serif_extra(|c| c.script = Some(script.to_string())).is_ok(),
            "expected script='{script}' to pass structural validation"
        );
    }
}

#[test]
fn validate_values_rejects_structurally_invalid_ot_script_tag() {
    for script in ["kan", "kanaa", "kan1", "ka一"] {
        let errors = run_validate_with_serif_extra(|c| c.script = Some(script.to_string())).unwrap_err();
        assert!(has_field_error(&errors, |path, _| path.contains("script")), "expected script='{script}' to be rejected");
    }
}

#[test]
fn validate_values_accepts_valid_ot_language_with_script() {
    for ot_lang in ["JAN", "ENG", "DEU", "ZHS"] {
        let result = run_validate_with_serif_extra(|c| {
            c.script = Some("latn".to_string());
            c.ot_language = Some(ot_lang.to_string());
        });
        assert!(result.is_ok(), "expected ot_language='{ot_lang}' to be accepted");
    }
}

#[test]
fn validate_values_rejects_invalid_ot_language_tag() {
    for ot_lang in ["JA", "JAPAN", "J!N"] {
        let errors = run_validate_with_serif_extra(|c| {
            c.script = Some("latn".to_string());
            c.ot_language = Some(ot_lang.to_string());
        })
        .unwrap_err();
        assert!(has_field_error(&errors, |path, _| path.contains("ot_language")), "expected ot_language='{ot_lang}' to be rejected");
    }
}

#[test]
fn validate_values_rejects_ot_language_without_script() {
    let errors = run_validate_with_serif_extra(|c| c.ot_language = Some("JAN".to_string())).unwrap_err();

    assert!(has_field_error(&errors, |path, message| path == "font_configs.serif"
        && message.contains("ot_language") && message.contains("script")));
}

#[test]
fn validate_values_accepts_all_valid_directions() {
    for direction in ["left-to-right", "right-to-left", "top-to-bottom", "bottom-to-top"] {
        assert!(
            run_validate_with_serif_extra(|c| c.direction = Some(direction.to_string())).is_ok(),
            "expected direction='{direction}' to be accepted"
        );
    }
}

#[test]
fn validate_values_rejects_invalid_direction() {
    for direction in ["ltr", "LTR", "left to right", "", "leftToRight", "horizontal"] {
        let errors = run_validate_with_serif_extra(|c| c.direction = Some(direction.to_string())).unwrap_err();
        assert!(has_field_error(&errors, |path, _| path.contains("direction")), "expected direction='{direction}' to be rejected");
    }
}

#[test]
fn validate_values_accepts_valid_document_language() {
    for lang in ["ja", "en-US", "zh-Hant", "und"] {
        assert!(run_validate(|config| config.document.language = Some(lang.to_string())).is_ok(),
            "expected document.language='{lang}' to be accepted");
    }
}

#[test]
fn validate_values_rejects_invalid_document_language() {
    let errors = run_validate(|config| config.document.language = Some("!!".to_string())).unwrap_err();

    assert!(has_field_error(&errors, |path, message| path.contains("language") && message.contains("BCP 47")));
}

#[test]
fn validate_values_rejects_empty_keyword_entry() {
    let errors = run_validate(|config| {
        config.document.keywords = Some(vec!["foo".to_string(), String::new(), "bar".to_string()]);
    })
    .unwrap_err();

    assert!(has_field_error(&errors, |path, message| path.contains("keywords") && message.contains("空")));
}

#[test]
fn each_field_check_can_be_called_alone() {
    let mut errors = Vec::new();
    validate_unique_font_names(&font_configs(|_, _| {}), &mut errors);
    validate_font_language_constraints(&font_configs(|_, _| {}), &mut errors);
    assert!(errors.is_empty(), "{errors:?}");
    assert!(validate_image_config(&PreImageConfig { max_dpi: 9999, downsample: true }).is_err());
    assert_eq!(validate_non_empty_sources(&vec![]), Err(()));
    assert_eq!(validate_output_dir(Some("")), Err(()));
    assert_eq!(validate_keywords(Some(&vec!["foo".to_string(), String::new()])), Err(1));
}

use seiran_compiler::project::resolve::resolve;

#[test]
fn resolve_builds_the_configuration_when_values_and_paths_are_valid() {
    let mut config = valid_config();
    config.sources = vec!["main.sei".to_string(), "notes.txt".to_string()];
    config.font_configs = font_configs(|_, c| c.font_path = "fonts/a.ttf".to_string());
    let source = MemoryProjectSource::new()
        .with_text("/p/main.sei", "")
        .with_text("/p/notes.txt", "")
        .with_bytes("/p/fonts/a.ttf", Vec::new());

    let (project, warnings) = resolve(config, &source, "/p", &render_pt).expect("a valid project");

    assert_eq!(project.output.name, "test");
    assert_eq!(project.output.output_dir, "/p/out");
    assert_eq!(project.sources, vec!["/p/main.sei".to_string(), "/p/notes.txt".to_string()]);
    assert_eq!(project.font_configs.len(), 19);
    assert!(project.font_configs.iter().all(|f| f.font_path == "/p/fonts/a.ttf"));
    assert_eq!(warnings.len(), 1);
}

#[test]
fn resolve_reports_value_problems_before_path_problems() {
    let mut config = valid_config();
    config.output.name = String::new();
    let source = MemoryProjectSource::new();

    let failures = resolve(config, &source, "/p", &render_pt).expect_err("refused").into_vec();

    assert!(failures.len() >= 2, "{failures:?}");
    assert!(matches!(&failures[0], ConfigValidationError::Field { path, .. } if path == "output.name"), "{failures:?}");
    let first_path_problem = failures.iter().position(|e| !matches!(e, ConfigValidationError::Field { .. })).expect("a path problem");
    assert!(failures[first_path_problem..].iter().all(|e| !matches!(e, ConfigValidationError::Field { .. })), "{failures:?}");
    assert!(matches!(failures.last(), Some(ConfigValidationError::SourcePathResolution { path }) if path == "/p/dummy.sei"), "{failures:?}");
}
