use tinybox::image::{image_store, resolve, validate_name, ImageError, IMAGE_DIR};

#[test]
fn rejects_path_traversal_name() {
    assert!(validate_name("../escape").is_err());
    assert!(matches!(resolve("../escape", "/tmp"), Err(ImageError::InvalidName(_))));
}

#[test]
fn image_names_and_store() {
    assert!(validate_name("alpine").is_ok());
    assert!(matches!(validate_name(""), Err(ImageError::EmptyName)));
    assert!(validate_name("a/b").is_err());
    assert!(validate_name("a\\b").is_err());
    assert!(validate_name("a..b").is_err());
    assert!(validate_name("a.b").is_ok());
    assert_eq!(image_store(None), IMAGE_DIR);
    assert_eq!(image_store(Some("/x".into())), "/x");
}

#[test]
fn resolve_finds_images_in_the_store() {
    let store = tempfile::tempdir().unwrap();
    let _alpine = tempfile::Builder::new().prefix("alpine").rand_bytes(0).tempdir_in(store.path()).unwrap();
    let root = store.path().to_str().unwrap();
    assert_eq!(resolve("alpine", root).unwrap(), format!("{root}/alpine"));
    match resolve("missing", root) {
        Err(ImageError::NotFound(path)) => assert_eq!(path, format!("{root}/missing")),
        other => panic!("unexpected {other:?}"),
    }
}

#[test]
fn a_regular_file_counts_as_an_image() {
    let store = tempfile::tempdir().unwrap();
    let _image = tempfile::Builder::new().prefix("busybox.tar").rand_bytes(0).tempfile_in(store.path()).unwrap();
    let root = store.path().to_str().unwrap();
    assert_eq!(resolve("busybox.tar", root).unwrap(), format!("{root}/busybox.tar"));
    assert!(matches!(resolve("", root), Err(ImageError::EmptyName)));
}
