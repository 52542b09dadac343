use tsimports::language::Language;

#[test]
fn from_extension_table() {
    assert_eq!(Language::from_extension("js"), Some(Language::JS));
    assert_eq!(Language::from_extension("mjs"), Some(Language::JS));
    assert_eq!(Language::from_extension("jsx"), Some(Language::JSX));
    assert_eq!(Language::from_extension("ts"), Some(Language::TS));
    assert_eq!(Language::from_extension("cts"), Some(Language::TS));
    assert_eq!(Language::from_extension("mts"), Some(Language::TS));
    assert_eq!(Language::from_extension("tsx"), Some(Language::TSX));
    assert_eq!(Language::from_extension("rs"), None);
    assert_eq!(Language::from_extension(""), None);
}

#[test]
fn from_path_extensions() {
    assert_eq!(Language::from_path("a/b/c.ts"), Some(Language::TS));
    assert_eq!(Language::from_path("main.mjs"), Some(Language::JS));
    assert_eq!(Language::from_path("x.test.tsx"), Some(Language::TSX));
    assert_eq!(Language::from_path("noext"), None);
    assert_eq!(Language::from_path(".gitignore"), None);
    assert_eq!(Language::from_path("dir.d/file"), None);
    assert_eq!(Language::from_path("dir/.hidden"), None);
    assert_eq!(Language::from_path("trailing."), None);
    assert_eq!(Language::from_path(""), None);
}

#[test]
fn from_path_ignores_trailing_separators() {
    assert_eq!(Language::from_path("x.ts/"), Some(Language::TS));
    assert_eq!(Language::from_path("a/b.tsx//"), Some(Language::TSX));
    assert_eq!(Language::from_path("a.b/c/"), None);
    assert_eq!(Language::from_path("///"), None);
}

#[test]
fn default_language_is_js() {
    assert_eq!(Language::default(), Language::JS);
}
