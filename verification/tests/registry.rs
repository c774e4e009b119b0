use tinybox::registry::{blob_url, manifest_url, token_url, ImageRef};

#[test]
fn parse_simple_image() {
    let r = ImageRef::parse("alpine").unwrap();
    assert_eq!(r.repository, "library/alpine");
    assert_eq!(r.tag, "latest");
}

#[test]
fn parse_image_with_tag() {
    let r = ImageRef::parse("alpine:3.18").unwrap();
    assert_eq!(r.repository, "library/alpine");
    assert_eq!(r.tag, "3.18");
}

#[test]
fn parse_image_with_namespace() {
    let r = ImageRef::parse("myuser/myimage:v1").unwrap();
    assert_eq!(r.repository, "myuser/myimage");
    assert_eq!(r.tag, "v1");
}

#[test]
fn registry_urls() {
    assert_eq!(
        token_url("library/alpine"),
        "https://auth.docker.io/token?service=registry.docker.io&scope=repository:library/alpine:pull"
    );
    assert_eq!(manifest_url("library/alpine", "3.18"), "https://registry-1.docker.io/v2/library/alpine/manifests/3.18");
    assert_eq!(blob_url("library/alpine", "sha256:ab"), "https://registry-1.docker.io/v2/library/alpine/blobs/sha256:ab");
}
