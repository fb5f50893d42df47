use seiran_compiler::failures::Failures;
use seiran_compiler::project::font::FontType;
use seiran_compiler::project::font_data::{path_before, read_plan, FontData, FontReadError};
use seiran_compiler::project::font_map::FontMap;
use seiran_compiler::project::path::ProjectPath;
use seiran_compiler::project::source::{MemoryProjectSource, SourceReadError};
use seiran_compiler::project::source_set::SourceSet;
use seiran_compiler::project::test_support::{
    font_sections_with_serif_extra, make_font_sections, valid_output_section, valid_pdf_section,
};
use seiran_compiler::publication::{
    ImageFormat, PublicationFont, PublicationImage, PublicationResources,
};

#[test]
fn read_text_returns_registered_content() {
    let mut source = MemoryProjectSource::new().with_text("config.toml", "title = \"x\"");

    let text = source.read_text(&ProjectPath::new("config.toml")).expect("登録済みのはず");

    assert_eq!(text, "title = \"x\"");
}

#[test]
fn read_bytes_reports_not_found_for_unregistered_path() {
    let mut source = MemoryProjectSource::new();

    let result = source.read_bytes(&ProjectPath::new("missing.ttf"));

    assert!(matches!(result, Err(SourceReadError::NotFound)));
}

#[test]
fn read_count_tracks_every_call_including_misses() {
    let mut source = MemoryProjectSource::new().with_bytes("a.ttf", b"AAAA".to_vec());

    let _ = source.read_bytes(&ProjectPath::new("a.ttf"));
    let _ = source.read_bytes(&ProjectPath::new("a.ttf"));
    let _ = source.read_bytes(&ProjectPath::new("missing.ttf"));

    assert_eq!(source.read_count("a.ttf"), 2);
    assert_eq!(source.read_count("missing.ttf"), 1);
    assert_eq!(source.read_count("never-asked.ttf"), 0);
}

#[test]
fn exists_reflects_registered_files_only() {
    let source = MemoryProjectSource::new().with_text("config.toml", "x");

    assert!(source.path_exists(&ProjectPath::new("config.toml")));
    assert!(!source.path_exists(&ProjectPath::new("missing.toml")));
}

#[test]
fn read_text_rejects_invalid_utf8_in_memory() {
    let mut source = MemoryProjectSource::new().with_bytes("bad.txt", vec![0xff, 0xfe]);

    let result = source.read_text(&ProjectPath::new("bad.txt"));

    assert!(matches!(result, Err(SourceReadError::InvalidUtf8(_))));
}

#[test]
fn registering_a_path_again_replaces_its_content() {
    let mut source = MemoryProjectSource::new().with_text("d/a.sei", "old").with_text("d/./a.sei", "new");

    assert_eq!(source.read_text(&ProjectPath::new("d/a.sei")).unwrap(), "new");
    assert!(!source.path_exists(&ProjectPath::new("./d/a.sei")));
}

#[test]
fn io_variant_is_transparent_over_the_original_error() {
    let io_error = std::io::Error::new(std::io::ErrorKind::PermissionDenied, "Permission denied (os error 13)");

    let error = SourceReadError::Io(io_error);

    assert_eq!(error.message(), "Permission denied (os error 13)");
    let SourceReadError::Io(inner) = &error else {
        panic!("Io variant のはず");
    };
    assert_eq!(inner.kind(), std::io::ErrorKind::PermissionDenied, "元の kind を識別できるはず");
}

#[test]
fn invalid_utf8_keeps_the_utf8_error_as_cause() {
    let invalid: Vec<u8> = vec![0xff];
    let utf8_error = std::str::from_utf8(&invalid).expect_err("不正なバイト列は UTF-8 として読めないはず");

    let error = SourceReadError::InvalidUtf8(utf8_error);

    assert_eq!(error.message(), "ファイルを UTF-8 として読めません");
    assert!(matches!(error, SourceReadError::InvalidUtf8(_)), "元の UTF-8 検証エラーを cause として保つはず");
}

#[test]
fn register_issues_sequential_ids_and_get_looks_them_up() {
    let mut set = SourceSet::new();

    let id_a = set.register("a.sei".to_string(), "content-a".to_string());
    let id_b = set.register("b.sei".to_string(), "content-b".to_string());

    assert_eq!(set.get(id_a).name, "a.sei");
    assert_eq!(set.get(id_b).name, "b.sei");
}

#[test]
fn read_reads_through_project_source_without_touching_disk() {
    let mut source = MemoryProjectSource::new()
        .with_text("/project/a.sei", "content-a")
        .with_text("/project/b.sei", "content-b");
    let sources = vec!["/project/a.sei".to_string(), "/project/b.sei".to_string()];

    let source_set = SourceSet::read(&mut source, &sources).expect("メモリ上の fixture を読めるはず");

    let entries = source_set.iter();
    assert_eq!(entries.len(), 2);
    assert_eq!(entries[0].0.index(), 0);
    assert_eq!(entries[0].1.name, "/project/a.sei");
    assert_eq!(entries[0].1.content, "content-a");
    assert_eq!(entries[1].0.index(), 1);
    assert_eq!(entries[1].1.name, "/project/b.sei");
    assert_eq!(entries[1].1.content, "content-b");
}

#[test]
fn read_reports_every_missing_source_in_order() {
    let mut source = MemoryProjectSource::new().with_text("/p/a.sei", "a");
    let sources = vec!["/p/x.sei".to_string(), "/p/a.sei".to_string(), "/p/y.sei".to_string()];

    let Err(failures) = SourceSet::read(&mut source, &sources) else {
        panic!("読込エラーを期待");
    };
    let paths: Vec<String> = failures.into_vec().into_iter().map(|e| e.path).collect();
    assert_eq!(paths, vec!["/p/x.sei".to_string(), "/p/y.sei".to_string()]);
}

fn fail_serif_and_math(font_type: FontType) -> Result<(), FontType> {
    if matches!(font_type, FontType::Serif | FontType::Math) {
        return Err(font_type);
    }
    Ok(())
}

#[test]
fn from_fn_stores_each_value_under_its_font_type() {
    let map = FontMap::from_fn(|font_type: FontType| font_type.as_toml_key());

    for font_type in FontType::all() {
        assert_eq!(*map.get(font_type), font_type.as_toml_key());
    }
}

#[test]
fn par_from_fn_builds_the_same_map_as_from_fn() {
    let sequential = FontMap::from_fn(|font_type: FontType| font_type.as_toml_key());

    let parallel = FontMap::par_from_fn(|font_type: FontType| font_type.as_toml_key());

    assert_eq!(parallel, sequential);
}

#[test]
fn try_from_fn_reports_every_failure_in_font_type_order() {
    let result = FontMap::try_from_fn(fail_serif_and_math);

    let failures: Vec<FontType> = result.expect_err("2 種別が失敗するはず").into_vec();
    assert_eq!(failures, vec![FontType::Serif, FontType::Math]);
}

#[test]
fn par_try_from_fn_reports_every_failure_in_font_type_order() {
    let result = FontMap::par_try_from_fn(fail_serif_and_math);

    let failures: Vec<FontType> = result.expect_err("2 種別が失敗するはず").into_vec();
    assert_eq!(failures, vec![FontType::Serif, FontType::Math]);
}

#[test]
fn try_from_fn_builds_the_map_when_every_font_type_succeeds() {
    let map = FontMap::try_from_fn(|font_type: FontType| Ok::<_, ()>(font_type)).expect("全種別成功のはず");

    for font_type in FontType::all() {
        assert_eq!(*map.get(font_type), font_type);
    }
}

#[test]
fn zip_with_combines_values_of_the_same_font_type() {
    let keys = FontMap::from_fn(|font_type: FontType| font_type.as_toml_key());
    let font_types = FontMap::from_fn(|font_type: FontType| font_type);

    let zipped = keys.zip_with(font_types, |key, font_type| (key, font_type));

    for font_type in FontType::all() {
        assert_eq!(*zipped.get(font_type), (font_type.as_toml_key(), font_type));
    }
}

#[test]
fn debug_lists_values_keyed_by_font_type_in_declaration_order() {
    let map = FontMap::from_fn(|_| 0u8);

    let text = format!(
        "{{{}}}",
        FontType::all()
            .iter()
            .map(|t| format!("{:?}: {:?}", t, map.get(*t)))
            .collect::<Vec<_>>()
            .join(", ")
    );

    assert!(text.starts_with("{Serif: 0, SerifBold: 0, "), "種別をキーに宣言順で出るはず: {text}");
    assert_eq!(map.values().len(), 19);
}

#[test]
fn font_type_keys_are_snake_case_names() {
    assert_eq!(FontType::Serif.as_toml_key(), "serif");
    assert_eq!(FontType::SansSerifBoldItalic.as_toml_key(), "sans_serif_bold_italic");
    assert_eq!(FontType::JapaneseMonospaceBold.as_toml_key(), "japanese_monospace_bold");
    assert_eq!(FontType::all().len(), 19);
    for (i, t) in FontType::all().into_iter().enumerate() {
        assert_eq!(t.index(), i);
        assert_eq!(FontType::at(i), t);
    }
}

#[test]
fn failures_single_and_from_vec() {
    let f = Failures::single(3u8);
    assert_eq!(*f.first(), 3);
    assert_eq!(f.len(), 1);
    assert!(Failures::<u8>::from_vec(Vec::new()).is_none());
    assert_eq!(Failures::from_vec(vec![1u8, 2]).unwrap().into_vec(), vec![1, 2]);
}

#[test]
fn make_font_sections_lists_every_font_type() {
    let text = make_font_sections("f.ttf");
    assert!(text.starts_with("[font_configs.serif]\nfont_name = \"font_serif\"\nfont_path = \"f.ttf\"\n\n"));
    assert_eq!(text.matches("[font_configs.").count(), 19);
    assert!(text.ends_with("[font_configs.japanese_monospace_bold]\nfont_name = \"font_japanese_monospace_bold\"\nfont_path = \"f.ttf\"\n\n"));
}

#[test]
fn output_and_pdf_sections_have_the_fixed_shape() {
    assert_eq!(valid_output_section("doc", "out"), "[output]\nname = \"doc\"\noutput_dir = \"out\"\n\n");
    assert!(valid_pdf_section().starts_with("[pdf]\nheight = \"842pt\"\nwidth = \"595pt\"\n"));
}

#[test]
fn serif_extra_lines_go_before_its_font_path() {
    let text = font_sections_with_serif_extra("f.ttf", "language = \"en\"");
    assert!(text.starts_with(
        "[font_configs.serif]\nfont_name = \"font_serif\"\nlanguage = \"en\"\nfont_path = \"f.ttf\"\n\n[font_configs.serif_bold]"
    ));
}

#[test]
fn image_ref_resolves_only_registered_paths() {
    let fonts = FontMap::from_fn(|_| PublicationFont { bytes: Vec::new() });
    let resources = PublicationResources::new(
        fonts,
        vec![PublicationImage { path: "a.png".to_string(), format: ImageFormat::Png, bytes: vec![1, 2, 3] }],
    );

    let registered = resources.image_ref("a.png");
    let missing = resources.image_ref("b.png");

    assert!(missing.is_none(), "登録していないパスは ImageRef を得られないはず");
    let image = resources.image(registered.expect("登録済みパスは ImageRef を得られるはず"));
    assert_eq!(image.bytes, vec![1, 2, 3]);
    assert_eq!(image.format, ImageFormat::Png);
    assert!(resources.font(FontType::Math).bytes.is_empty());
}

#[test]
fn load_reads_shared_font_path_only_once() {
    let mut source = MemoryProjectSource::new().with_bytes("/fonts/shared.ttf", b"FAKE".to_vec());
    let font_paths = FontMap::from_fn(|_| ProjectPath::new("/fonts/shared.ttf"));

    let font_data = FontData::load(&mut source, &font_paths).expect("読み込めるはず");

    assert_eq!(source.read_count("/fonts/shared.ttf"), 1, "共有パスは 1 回しか読まれないはず");
    for font_type in FontType::all() {
        assert_eq!(font_data.get(font_type), b"FAKE");
    }
}

#[test]
fn load_reports_missing_font_with_its_font_type() {
    let mut source = MemoryProjectSource::new();
    let font_paths = FontMap::from_fn(|_| ProjectPath::new("/fonts/missing.ttf"));

    let result = FontData::load(&mut source, &font_paths);

    let Err(failures) = result else {
        panic!("ReadFont を期待");
    };
    let FontReadError::ReadFont { font_type, path, .. } = failures.first();
    assert_eq!(*font_type, FontType::all()[0], "唯一のフォント種別が報告されるはず");
    assert_eq!(path, "/fonts/missing.ttf");
    assert_eq!(failures.len(), 1);
}

#[test]
fn load_reports_every_missing_path_in_ascending_order_with_its_first_kind() {
    let mut source = MemoryProjectSource::new().with_bytes("/fonts/b.ttf", b"B".to_vec());
    let font_paths = FontMap::from_fn(|t| match t.index() {
        0 => ProjectPath::new("/fonts/z.ttf"),
        1 | 2 => ProjectPath::new("/fonts/b.ttf"),
        3 => ProjectPath::new("/fonts/a.ttf"),
        _ => ProjectPath::new("/fonts/z.ttf"),
    });

    let failures = FontData::load(&mut source, &font_paths).unwrap_err();

    let reported: Vec<(FontType, String)> = failures
        .into_vec()
        .into_iter()
        .map(|e| {
            let FontReadError::ReadFont { font_type, path, .. } = e;
            (font_type, path)
        })
        .collect();
    assert_eq!(
        reported,
        vec![(FontType::at(3), "/fonts/a.ttf".to_string()), (FontType::at(0), "/fonts/z.ttf".to_string())]
    );
    assert_eq!(source.read_count("/fonts/z.ttf"), 1);
    assert_eq!(source.read_count("/fonts/b.ttf"), 1);
}

#[test]
fn read_plan_sorts_paths_by_component_and_drops_repeats() {
    let font_paths = FontMap::from_fn(|t| match t.index() % 4 {
        0 => ProjectPath::new("/b/x.ttf"),
        1 => ProjectPath::new("/a/y/z.ttf"),
        2 => ProjectPath::new("rel.ttf"),
        _ => ProjectPath::new("/a/y.ttf"),
    });

    let plan: Vec<String> = read_plan(&font_paths).iter().map(|p| p.to_path_string()).collect();

    assert_eq!(plan, vec!["/a/y/z.ttf", "/a/y.ttf", "/b/x.ttf", "rel.ttf"]);
}

#[test]
fn path_order_matches_the_derived_order() {
    let paths = ["/a", "/a/b", "/b", "./a", "../a", "a", "a/b", "b", "", "/"];
    for x in paths {
        for y in paths {
            let px = ProjectPath::new(x);
            let py = ProjectPath::new(y);
            assert_eq!(path_before(&px, &py), px < py, "{x} < {y}");
        }
    }
}

#[test]
fn read_loads_each_source_file_content_and_display_path() {
    let mut source = MemoryProjectSource::new().with_text("/work/text.sei", "本文");
    let sources = vec!["/work/text.sei".to_string()];

    let source_set = SourceSet::read(&mut source, &sources).expect("登録した fixture の読込に成功するはず");

    let entries = source_set.iter();
    assert_eq!(entries.len(), 1);
    assert_eq!(entries[0].1.name, "/work/text.sei");
    assert_eq!(entries[0].1.content, "本文");
}

#[test]
fn read_fails_fast_on_missing_file_without_aggregating() {
    let mut source = MemoryProjectSource::new().with_text("/work/text.sei", "本文");
    let sources = vec!["/work/text.sei".to_string(), "/work/__does_not_exist__.sei".to_string()];

    let Err(failures) = SourceSet::read(&mut source, &sources) else {
        panic!("読込エラーを期待");
    };
    let error = failures.into_vec().into_iter().next().expect("非空集合なので 1 件目があるはず");
    assert_eq!(error.path, "/work/__does_not_exist__.sei");
    assert!(matches!(error.source, SourceReadError::NotFound), "{:?}", error.source);
}

#[test]
fn from_reads_keeps_each_text_read_and_reports_failed_reads_in_order() {
    let sources = vec!["/p/a.sei".to_string(), "/p/b.sei".to_string()];
    let set = SourceSet::from_reads(&sources, vec![Ok("A".to_string()), Ok("B".to_string())]).expect("both read");
    let entries: Vec<(String, String)> =
        set.iter().into_iter().map(|(_, e)| (e.name.clone(), e.content.clone())).collect();
    assert_eq!(entries, vec![("/p/a.sei".to_string(), "A".to_string()), ("/p/b.sei".to_string(), "B".to_string())]);

    let Err(failures) = SourceSet::from_reads(&sources, vec![Err(SourceReadError::NotFound), Ok("B".to_string())]) else {
        panic!("a failed read");
    };
    let failures = failures.into_vec();
    assert_eq!(failures.len(), 1);
    assert_eq!(failures[0].path, "/p/a.sei");
    assert!(matches!(failures[0].source, SourceReadError::NotFound));
}
