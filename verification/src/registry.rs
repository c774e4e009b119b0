//! Docker Hub image references and the registry endpoints they are pulled
//! from.
use vstd::prelude::*;
use crate::text::{lemma_rfind_char, lemma_split_at_last, chars_of, rfind_char, rfind_char_in, contains_char, contains_char_in, slice_chars, string_of, concat};

verus! {

/// The registry that images are pulled from.
pub const REGISTRY_URL: &'static str = "https://registry-1.docker.io";

/// The service that hands out pull tokens.
pub const AUTH_URL: &'static str = "https://auth.docker.io/token";

/// A repository and a tag.
#[derive(Debug)]
pub struct ImageRef {
    pub repository: String,
    pub tag: String,
}

/// No image reference is refused; this error is never made.
#[derive(Debug)]
pub struct ImageRefError;

/// The repository and tag of a reference: the text after its last `:` is
/// the tag (`latest` where there is none), and a repository without a `/`
/// is an official one under `library/`.
pub open spec fn image_ref(input: Seq<char>) -> (Seq<char>, Seq<char>) {
    let (repo, tag) = match rfind_char(input, ':') {
        Some(p) => (input.subrange(0, p), input.subrange(p + 1, input.len() as int)),
        None => (input, "latest"@),
    };
    (if contains_char(repo, '/') { repo } else { "library/"@ + repo }, tag)
}

/// A reference without `:` has tag `latest`; its repository is the
/// reference itself where it holds a `/`, and `library/` followed by it
/// otherwise.
pub proof fn law_untagged_reference(input: Seq<char>)
    requires
        forall|i: int| 0 <= i < input.len() ==> input[i] != ':',
    ensures
        image_ref(input).1 == seq!['l', 'a', 't', 'e', 's', 't'],
        (exists|i: int| 0 <= i < input.len() && input[i] == '/') ==> image_ref(input).0 == input,
        !(exists|i: int| 0 <= i < input.len() && input[i] == '/')
            ==> image_ref(input).0 == seq!['l', 'i', 'b', 'r', 'a', 'r', 'y', '/'] + input,
{
    reveal_strlit("latest");
    reveal_strlit("library/");
    lemma_rfind_char(input, ':');
    assert(rfind_char(input, ':') is None);
    assert("latest"@ =~= seq!['l', 'a', 't', 'e', 's', 't']);
    assert("library/"@ =~= seq!['l', 'i', 'b', 'r', 'a', 'r', 'y', '/']);
}

/// `repo:tag`, where the tag holds no `:`, has that tag; its repository is
/// `repo` where it holds a `/`, and `library/` followed by it otherwise.
pub proof fn law_tagged_reference(repo: Seq<char>, tag: Seq<char>)
    requires
        forall|i: int| 0 <= i < tag.len() ==> tag[i] != ':',
    ensures
        image_ref(repo + seq![':'] + tag).1 == tag,
        (exists|i: int| 0 <= i < repo.len() && repo[i] == '/') ==> image_ref(repo + seq![':'] + tag).0 == repo,
        !(exists|i: int| 0 <= i < repo.len() && repo[i] == '/')
            ==> image_ref(repo + seq![':'] + tag).0 == seq!['l', 'i', 'b', 'r', 'a', 'r', 'y', '/'] + repo,
{
    reveal_strlit("library/");
    let d = repo + seq![':'] + tag;
    lemma_split_at_last(repo, tag, ':');
    assert(rfind_char(d, ':') == Some(repo.len() as int));
    assert(d.subrange(0, repo.len() as int) == repo);
    assert(d.subrange(repo.len() as int + 1, d.len() as int) == tag);
    assert(image_ref(d) == (if contains_char(repo, '/') { repo } else { "library/"@ + repo }, tag));
    assert("library/"@ =~= seq!['l', 'i', 'b', 'r', 'a', 'r', 'y', '/']);
}

impl ImageRef {
    /// Splits a reference such as `alpine:3.18` or `user/image:v1`.
    pub fn parse(input: &str) -> (r: Result<ImageRef, ImageRefError>)
        ensures
            r matches Ok(i) && (i.repository@, i.tag@) == image_ref(input@),
    {
        let cs = chars_of(input);
        let (repo, tag): (Vec<char>, String) = match rfind_char_in(cs.as_slice(), ':') {
            Some(p) => {
                let n = cs.len();
                (slice_chars(cs.as_slice(), 0, p), string_of(slice_chars(cs.as_slice(), p + 1, n).as_slice()))
            },
            None => {
                assert(cs@.subrange(0, cs@.len() as int) == cs@);
                (slice_chars(cs.as_slice(), 0, cs.len()), "latest".to_owned())
            },
        };
        let repo_text = string_of(repo.as_slice());
        let repository = if contains_char_in(repo.as_slice(), '/') {
            repo_text
        } else {
            concat("library/", repo_text.as_str())
        };
        Ok(ImageRef { repository, tag })
    }
}

/// Where a pull token for `repository` is asked for.
pub open spec fn token_url_text(repository: Seq<char>) -> Seq<char> {
    AUTH_URL@ + "?service=registry.docker.io&scope=repository:"@ + repository + ":pull"@
}

pub fn token_url(repository: &str) -> (u: String)
    ensures
        u@ == token_url_text(repository@),
{
    let a = concat(AUTH_URL, "?service=registry.docker.io&scope=repository:");
    let b = concat(a.as_str(), repository);
    concat(b.as_str(), ":pull")
}

/// Where the manifest of `repository:tag` is fetched.
pub fn manifest_url(repository: &str, tag: &str) -> (u: String)
    ensures
        u@ == REGISTRY_URL@ + "/v2/"@ + repository@ + "/manifests/"@ + tag@,
{
    let a = concat(REGISTRY_URL, "/v2/");
    let b = concat(a.as_str(), repository);
    let c = concat(b.as_str(), "/manifests/");
    concat(c.as_str(), tag)
}

/// Where the layer `digest` of `repository` is downloaded.
pub fn blob_url(repository: &str, digest: &str) -> (u: String)
    ensures
        u@ == REGISTRY_URL@ + "/v2/"@ + repository@ + "/blobs/"@ + digest@,
{
    let a = concat(REGISTRY_URL, "/v2/");
    let b = concat(a.as_str(), repository);
    let c = concat(b.as_str(), "/blobs/");
    concat(c.as_str(), digest)
}

/// The `Authorization` header value for a token.
pub fn bearer(token: &str) -> (h: String)
    ensures
        h@ == "Bearer "@ + token@,
{
    concat("Bearer ", token)
}

} // verus!
