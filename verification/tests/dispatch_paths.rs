use reify_scan::dispatch::{classification_error, classify_path, extension_of, PathKind};

#[test]
fn directories_expand() {
    assert_eq!(classify_path(true, false, b"some/dir"), PathKind::Directory);
}

#[test]
fn jar_files_are_archives() {
    assert_eq!(classify_path(false, true, b"lib/app.jar"), PathKind::Archive);
}

#[test]
fn clj_files_are_source() {
    assert_eq!(classify_path(false, true, b"src/core.clj"), PathKind::SourceFile);
}

#[test]
fn other_extensions_are_skipped() {
    assert_eq!(classify_path(false, true, b"README.md"), PathKind::Unsupported);
}

#[test]
fn missing_extension_is_skipped() {
    assert_eq!(classify_path(false, true, b"Makefile"), PathKind::Unsupported);
}

#[test]
fn hidden_file_has_no_extension() {
    assert_eq!(classify_path(false, true, b"dir/.clj"), PathKind::Unsupported);
}

#[test]
fn inaccessible_path_fails_its_unit_with_an_io_error() {
    let kind = classify_path(false, false, b"missing.clj");
    assert_eq!(kind, PathKind::Inaccessible);
    assert_eq!(classification_error(kind), Some(reify_scan::errors::ScanError::IoError));
    assert_eq!(classification_error(PathKind::Unsupported), None);
}

#[test]
fn extension_comes_from_final_component() {
    assert_eq!(extension_of(b"a.jar/b.clj"), Some(b"clj".to_vec()));
    assert_eq!(extension_of(b"a.jar/b"), None);
    assert_eq!(extension_of(b"x/y/z.tar.gz"), Some(b"gz".to_vec()));
    assert_eq!(extension_of(b"trailing."), Some(b"".to_vec()));
    assert_eq!(extension_of(b""), None);
}
