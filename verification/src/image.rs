//! The local image store: names of imported images and where they live.
use vstd::prelude::*;
use crate::text::{chars_of, contains_char, contains_char_in, concat};
use crate::paths::{join, join_path};

verus! {

/// The image store unless `TINYBOX_IMAGE_DIR` names another.
pub const IMAGE_DIR: &'static str = "/var/lib/tinybox/images";

/// Why an image name or lookup was refused.
#[derive(Debug)]
pub enum ImageError {
    /// `image name must not be empty`
    EmptyName,
    /// `invalid image name: <name>`
    InvalidName(String),
    /// `image not found: <path>`
    NotFound(String),
}

/// The text holds `..`.
pub open spec fn has_dot_dot(s: Seq<char>) -> bool {
    exists|i: int| 0 <= i < s.len() - 1 && s[i] == '.' && #[trigger] s[i + 1] == '.'
}

/// An image name is not empty and holds no `/`, `\` or `..`.
pub open spec fn name_ok(name: Seq<char>) -> bool {
    name.len() > 0 && !contains_char(name, '/') && !contains_char(name, '\\') && !has_dot_dot(name)
}

/// The store directory: the value of `TINYBOX_IMAGE_DIR` where it is set.
pub fn image_store(env_value: Option<String>) -> (s: String)
    ensures
        s@ == (match env_value { Some(v) => v@, None => IMAGE_DIR@ }),
{
    match env_value {
        Some(v) => v,
        None => IMAGE_DIR.to_owned(),
    }
}

fn dot_dot_in(cs: &Vec<char>) -> (b: bool)
    ensures
        b == has_dot_dot(cs@),
{
    let mut i: usize = 1;
    while i < cs.len()
        invariant
            1 <= i,
            forall|k: int| 0 <= k < i - 1 && k < cs@.len() - 1 ==> !(cs@[k] == '.' && #[trigger] cs@[k + 1] == '.'),
        decreases cs@.len() - i,
    {
        if cs[i - 1] == '.' && cs[i] == '.' {
            assert(cs@[(i - 1) as int] == '.' && cs@[(i - 1) + 1] == '.');
            return true;
        }
        i = i + 1;
    }
    false
}

/// Checks an image name.
pub fn validate_name(name: &str) -> (r: Result<(), ImageError>)
    ensures
        r is Ok <==> name_ok(name@),
        r matches Err(e) ==> (if name@.len() == 0 { e is EmptyName } else { e matches ImageError::InvalidName(n) && n@ == name@ }),
{
    let cs = chars_of(name);
    if cs.len() == 0 {
        return Err(ImageError::EmptyName);
    }
    if contains_char_in(cs.as_slice(), '/') || contains_char_in(cs.as_slice(), '\\') || dot_dot_in(&cs) {
        return Err(ImageError::InvalidName(name.to_owned()));
    }
    Ok(())
}

/// Whether anything is at the path (`Path::exists`).  The answer is the
/// disk's at the moment of the call; nothing is claimed of it.
#[verifier::external_body]
pub(crate) fn path_exists(path: &str) -> bool {
    std::path::Path::new(path).exists()
}

/// Whether a directory is at the path (`Path::is_dir`).  The answer is the
/// disk's at the moment of the call; nothing is claimed of it.
#[verifier::external_body]
pub(crate) fn path_is_dir(path: &str) -> bool {
    std::path::Path::new(path).is_dir()
}

/// Whether a regular file is at the path (`Path::is_file`).  The answer is
/// the disk's at the moment of the call; nothing is claimed of it.
#[verifier::external_body]
pub(crate) fn path_is_file(path: &str) -> bool {
    std::path::Path::new(path).is_file()
}

/// Finds an imported image: its directory (or file) in the store.
pub fn resolve(name: &str, store: &str) -> (r: Result<String, ImageError>)
    ensures
        !name_ok(name@) ==> (r matches Err(e) && (if name@.len() == 0 { e is EmptyName } else {
            e matches ImageError::InvalidName(n) && n@ == name@
        })),
        r matches Ok(p) ==> name_ok(name@) && p@ == join(store@, name@),
        r matches Err(ImageError::NotFound(p)) ==> name_ok(name@) && p@ == join(store@, name@),
        name_ok(name@) ==> (r matches Ok(p) && p@ == join(store@, name@))
            || (r matches Err(ImageError::NotFound(p)) && p@ == join(store@, name@)),
{
    validate_name(name)?;
    let target = join_path(store, name);
    if path_is_dir(target.as_str()) {
        return Ok(target);
    }
    if path_is_file(target.as_str()) {
        return Ok(target);
    }
    Err(ImageError::NotFound(target))
}

impl ImageError {
    /// The error text.
    pub fn message(&self) -> (m: String)
        ensures
            m@ == (match self {
                ImageError::EmptyName => "image name must not be empty"@,
                ImageError::InvalidName(n) => "invalid image name: "@ + n@,
                ImageError::NotFound(p) => "image not found: "@ + p@,
            }),
    {
        match self {
            ImageError::EmptyName => "image name must not be empty".to_owned(),
            ImageError::InvalidName(n) => concat("invalid image name: ", n.as_str()),
            ImageError::NotFound(p) => concat("image not found: ", p.as_str()),
        }
    }
}

} // verus!
