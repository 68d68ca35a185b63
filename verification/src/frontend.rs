//! Where the embedded web dashboard's files are looked up for a request path.

use vstd::prelude::*;
use vstd::string::*;
use crate::text;

verus! {

/// `s` without the slashes at its start.
pub open spec fn without_leading_slashes(s: Seq<char>) -> Seq<char>
    decreases s.len(),
{
    if s.len() > 0 && s[0] == '/' {
        without_leading_slashes(s.subrange(1, s.len() as int))
    } else {
        s
    }
}

/// The asset path of a request path: the path without its leading slashes.
pub fn asset_path(uri_path: &str) -> (r: String)
    ensures
        r@ == without_leading_slashes(uri_path@),
{
    let n = uri_path.unicode_len();
    let mut i: usize = 0;
    proof {
        assert(uri_path@.subrange(0, n as int) =~= uri_path@);
    }
    while i < n && uri_path.get_char(i) == '/'
        invariant
            n == uri_path@.len(),
            i <= n,
            without_leading_slashes(uri_path@.subrange(i as int, n as int)) == without_leading_slashes(
                uri_path@,
            ),
        decreases n - i,
    {
        proof {
            let rest = uri_path@.subrange(i as int, n as int);
            assert(rest.subrange(1, rest.len() as int) =~= uri_path@.subrange(i + 1, n as int));
        }
        i = i + 1;
    }
    String::from_str(uri_path.substring_char(i, n))
}

/// The page of a directory route: `index.html` inside the asset path.
pub open spec fn index_of(path: Seq<char>) -> Seq<char> {
    if path.len() == 0 {
        "index.html"@
    } else if path.last() == '/' {
        path + "index.html"@
    } else {
        path + "/index.html"@
    }
}

/// The `index.html` page of a directory route, for SPA routes like `/dashboard/`.
pub fn index_path(path: &str) -> (r: String)
    ensures
        r@ == index_of(path@),
{
    proof {
        reveal_strlit("index.html");
        reveal_strlit("/index.html");
    }
    let n = path.unicode_len();
    if n == 0 {
        String::from_str("index.html")
    } else if path.get_char(n - 1) == '/' {
        text::concat2(path, "index.html")
    } else {
        text::concat2(path, "/index.html")
    }
}

/// The MIME type that the extension of a path suggests.
pub uninterp spec fn spec_mime_type(path: Seq<char>) -> Seq<char>;

/// Guesses with `mime_guess::from_path(..).first_or_octet_stream()` and
/// writes the type as text; the answer is the name `spec_mime_type` of the path.
#[verifier::external_body]
fn mime_of(path: &str) -> (r: String)
    ensures
        r@ == spec_mime_type(path@),
{
    mime_guess::from_path(path).first_or_octet_stream().to_string()
}

/// The Content-Type of an asset, from its path.
pub fn content_type(path: &str) -> (r: String)
    ensures
        r@ == spec_mime_type(path@),
{
    mime_of(path)
}

} // verus!
