use seiran_compiler::project::path::ProjectPath;
use seiran_compiler::project::path_resolver::PathResolver;

#[test]
fn new_collapses_redundant_current_dir_components() {
    let a = ProjectPath::new("/a/./b.ttf");
    let b = ProjectPath::new("/a/b.ttf");

    assert_eq!(a, b, "`.` を含むパスは畳んだ形と等しいはず");
}

#[test]
fn as_ref_borrows_the_normalized_path() {
    let path = ProjectPath::new("/a/./b.ttf");

    let borrowed = path.to_path_string();

    assert_eq!(borrowed, "/a/b.ttf", "正規化済みの Path を借りるはず");
}

#[test]
fn ord_sorts_normalized_paths_deterministically() {
    let mut set = std::collections::BTreeSet::new();
    set.insert(ProjectPath::new("fig/b.png"));
    set.insert(ProjectPath::new("fig/a.png"));
    set.insert(ProjectPath::new("fig/./a.png"));

    let sorted: Vec<ProjectPath> = set.into_iter().collect();

    assert_eq!(sorted, vec![ProjectPath::new("fig/a.png"), ProjectPath::new("fig/b.png")]);
}

#[test]
fn display_shows_the_underlying_path() {
    let path = ProjectPath::new("/a/b.ttf");

    assert_eq!(path.to_path_string(), "/a/b.ttf");
}

#[test]
fn resolve_prefixes_relative_paths_with_base_dir() {
    let resolver = PathResolver::new("/project");

    assert_eq!(resolver.resolve("fig/a.png"), ProjectPath::new("/project/fig/a.png"));
}

#[test]
fn resolve_keeps_absolute_paths_as_is() {
    let resolver = PathResolver::new("/project");

    assert_eq!(resolver.resolve("/elsewhere/a.png"), ProjectPath::new("/elsewhere/a.png"));
}

#[test]
fn resolve_collapses_current_dir_components() {
    let resolver = PathResolver::new("/project");

    assert_eq!(resolver.resolve("./fig/./a.png"), ProjectPath::new("/project/fig/a.png"));
}

#[test]
fn resolve_keeps_parent_dir_components() {
    let resolver = PathResolver::new("/project/sub");

    assert_eq!(resolver.resolve("../a.png"), ProjectPath::new("/project/sub/../a.png"));
}

#[test]
fn resolve_is_idempotent_on_resolved_paths() {
    let resolver = PathResolver::new("/project");
    let once = resolver.resolve("fig/a.png");

    assert_eq!(resolver.resolve(&once.to_path_string()), once, "解決済みの絶対パスを再解決しても変わらないはず");
}

#[test]
fn empty_base_dir_leaves_relative_paths_relative() {
    let resolver = PathResolver::new("");

    assert_eq!(resolver.resolve("./tests/image/a.png"), ProjectPath::new("./tests/image/a.png"));
    assert_eq!(resolver.resolve("./tests/image/a.png").to_path_string(), "./tests/image/a.png");
}

#[test]
fn repeated_and_trailing_separators_are_folded() {
    assert_eq!(ProjectPath::new("a//b/").to_path_string(), "a/b");
    assert_eq!(ProjectPath::new("/").to_path_string(), "/");
    assert_eq!(ProjectPath::new("").to_path_string(), "");
    assert!(ProjectPath::new("/x").is_absolute());
    assert!(!ProjectPath::new("x/..").is_absolute());
    assert_eq!(ProjectPath::new("x/../y").to_path_string(), "x/../y");
}
