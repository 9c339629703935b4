use vstd::prelude::*;

verus! {

/// The MIME type (as text) that `mime_guess` gives for a path: the first guess
/// for its extension, or `application/octet-stream` when there is none.
pub uninterp spec fn guessed_mime(path: Seq<char>) -> Seq<char>;

/// `mime_guess::from_path(path).first_or_octet_stream()`, written as text.
/// The result is a function of the path alone; nothing more is stated of it.
#[verifier::external_body]
fn guess_mime(path: &str) -> (r: String)
    ensures
        r@ == guessed_mime(path@),
{
    mime_guess::from_path(path).first_or_octet_stream().to_string()
}

/// The number of `/` characters at the start of a path.
pub open spec fn leading_slashes(path: Seq<char>) -> int
    decreases path.len(),
{
    if path.len() > 0 && path[0] == '/' {
        1 + leading_slashes(path.drop_first())
    } else {
        0
    }
}

proof fn lemma_leading_slashes(path: Seq<char>, k: int)
    requires
        0 <= k <= path.len(),
        forall|j: int| 0 <= j < k ==> path[j] == '/',
    ensures
        leading_slashes(path) == k + leading_slashes(path.skip(k)),
    decreases k,
{
    if k > 0 {
        assert(path.drop_first().skip(k - 1) =~= path.skip(k));
        lemma_leading_slashes(path.drop_first(), k - 1);
    } else {
        assert(path.skip(0) =~= path);
    }
}

/// The path without its leading slashes, as `trim_start_matches("/")` gives it.
pub fn trim_leading_slashes(path: &str) -> (r: &str)
    ensures
        r@ == path@.skip(leading_slashes(path@)),
{
    let len = path.unicode_len();
    let mut i: usize = 0;
    while i < len && path.get_char(i) == '/'
        invariant
            0 <= i <= len,
            len == path@.len(),
            forall|j: int| 0 <= j < i ==> path@[j] == '/',
        decreases len - i,
    {
        i = i + 1;
    }
    proof {
        lemma_leading_slashes(path@, i as int);
        if i < len {
            assert(path@.skip(i as int)[0] != '/');
        }
    }
    path.substring_char(i, len)
}

/// The asset that the web app serves for a request path (already without its
/// leading slashes): `index.html` for an empty path or one not in the bundle,
/// else the path itself.
pub fn frontend_path(path: &str, in_bundle: bool) -> (r: String)
    ensures
        r@ == (if path@.len() == 0 || !in_bundle {
            "index.html"@
        } else {
            path@
        }),
{
    if path.is_empty() || !in_bundle {
        String::from_str("index.html")
    } else {
        path.to_owned()
    }
}

/// The answer to a request for an embedded asset.
#[derive(Debug, PartialEq, Eq)]
pub enum EmbedReply {
    /// The asset, with the content type guessed from its path.
    Found { content_type: String, body: Vec<u8> },
    /// No such asset: a 404 with this text.
    NotFound { text: String },
}

/// Answers a request for the embedded asset at `path`, whose content is
/// `content` when the bundle holds it.
pub fn serve_embed(path: &str, content: Option<Vec<u8>>) -> (r: EmbedReply)
    ensures
        match content {
            Some(body) => r matches EmbedReply::Found { content_type, body: b } && content_type@
                == guessed_mime(path@) && b@ == body@,
            None => r matches EmbedReply::NotFound { text } && text@ == "404 Not Found"@,
        },
{
    match content {
        Some(body) => EmbedReply::Found { content_type: guess_mime(path), body },
        None => EmbedReply::NotFound { text: String::from_str("404 Not Found") },
    }
}


/// Law: a trimmed path does not start with `/`, and the asset served is never
/// the empty path.
pub proof fn lemma_served_path_not_empty(path: Seq<char>, in_bundle: bool)
    ensures
        ({
            let trimmed = path.skip(leading_slashes(path));
            &&& trimmed.len() == 0 || trimmed[0] != '/'
            &&& (if trimmed.len() == 0 || !in_bundle {
                "index.html"@
            } else {
                trimmed
            }).len() > 0
        }),
        0 <= leading_slashes(path) <= path.len(),
    decreases path.len(),
{
    reveal_strlit("index.html");
    if path.len() > 0 && path[0] == '/' {
        lemma_served_path_not_empty(path.drop_first(), in_bundle);
        assert(path.skip(leading_slashes(path)) =~= path.drop_first().skip(
            leading_slashes(path.drop_first()),
        ));
    } else {
        assert(path.skip(0) =~= path);
    }
}

} // verus!
