use tsimports::ImportKind;

#[test]
fn builtin_specifiers() {
    assert_eq!(ImportKind::guess("node:fs"), ImportKind::Builtin);
    assert_eq!(ImportKind::guess("node:anything"), ImportKind::Builtin);
    assert_eq!(ImportKind::guess("fs"), ImportKind::Builtin);
    assert_eq!(ImportKind::guess("bun"), ImportKind::Builtin);
    assert_eq!(ImportKind::guess("assert/strict"), ImportKind::Builtin);
    assert_eq!(ImportKind::guess("path"), ImportKind::Builtin);
    assert_eq!(ImportKind::guess("zlib"), ImportKind::Builtin);
}

#[test]
fn index_specifiers() {
    assert_eq!(ImportKind::guess("."), ImportKind::Index);
    assert_eq!(ImportKind::guess("./"), ImportKind::Index);
    assert_eq!(ImportKind::guess("./index"), ImportKind::Index);
    assert_eq!(ImportKind::guess("./index.ts"), ImportKind::Index);
    assert_eq!(ImportKind::guess("./index.something"), ImportKind::Index);
}

#[test]
fn sibling_and_parent_specifiers() {
    assert_eq!(ImportKind::guess("./bar"), ImportKind::Sibling);
    assert_eq!(ImportKind::guess("./bar/baz"), ImportKind::Sibling);
    assert_eq!(ImportKind::guess("../foo"), ImportKind::Parent);
    assert_eq!(ImportKind::guess("../../foo/qux"), ImportKind::Parent);
}

#[test]
fn external_specifiers() {
    assert_eq!(ImportKind::guess("lodash"), ImportKind::External);
    assert_eq!(ImportKind::guess("@scope/name"), ImportKind::External);
    assert_eq!(ImportKind::guess("@@scoped"), ImportKind::External);
    assert_eq!(ImportKind::guess("src/foo"), ImportKind::External);
}

#[test]
fn internal_specifiers() {
    assert_eq!(ImportKind::guess(""), ImportKind::Internal);
    assert_eq!(ImportKind::guess("123abc"), ImportKind::Internal);
    assert_eq!(ImportKind::guess("@"), ImportKind::Internal);
    assert_eq!(ImportKind::guess("@@@"), ImportKind::Internal);
    assert_eq!(ImportKind::guess("@/my/module"), ImportKind::Internal);
    assert_eq!(ImportKind::guess("~/utils"), ImportKind::Internal);
    assert_eq!(ImportKind::guess("#import"), ImportKind::Internal);
}

#[test]
fn builtin_list_is_exact_match() {
    assert_eq!(ImportKind::guess("fsx"), ImportKind::External);
    assert_eq!(ImportKind::guess("fs2"), ImportKind::External);
    assert_eq!(ImportKind::guess("Fs"), ImportKind::External);
}

#[test]
fn kind_order_matches_output_order() {
    assert!(ImportKind::Builtin < ImportKind::External);
    assert!(ImportKind::External < ImportKind::Internal);
    assert!(ImportKind::Internal < ImportKind::Parent);
    assert!(ImportKind::Parent < ImportKind::Sibling);
    assert!(ImportKind::Sibling < ImportKind::Index);
}
