//! The files of the user interface.

use vstd::prelude::*;

use crate::text::{same, starts_with, stripped_start, trim_start_matches};

verus! {

/// What `mime_guess` takes the type of a file to be.
pub uninterp spec fn mime_of(path: Seq<char>) -> Seq<char>;

/// Every system takes the path apart in the same way.
pub open spec fn reads_alike(path: Seq<char>) -> bool {
    !path.contains('\\') && !path.contains(':') && !"//"@.is_prefix_of(path)
}

/// `mime_guess::from_path` and `first_or_octet_stream`: the media type that goes with the
/// extension of a path. The contract says that it depends on the path alone, of a path without
/// backslashes and colons that does not begin with two slashes: not every system reads others
/// alike.
#[verifier::external_body]
fn guess_mime(path: &str) -> (r: String)
    ensures
        reads_alike(path@) ==> r@ == mime_of(path@),
{
    mime_guess::from_path(path).first_or_octet_stream().as_ref().to_owned()
}

/// The file that a request path asks for.
pub open spec fn asset_path(uri_path: Seq<char>) -> Seq<char> {
    let p = stripped_start(uri_path, '/');
    if p.len() == 0 {
        "index.html"@
    } else {
        p
    }
}

/// The file that a request path asks for.
pub fn asset_of<'a>(uri_path: &'a str) -> (r: &'a str)
    ensures
        r@ == asset_path(uri_path@),
{
    let p = trim_start_matches(uri_path, '/');
    if p.is_empty() {
        "index.html"
    } else {
        p
    }
}

/// How long a file may be kept. The files under `assets/` have a digest of their content in
/// their names and never change; the pages are asked for anew.
pub open spec fn cache_policy(path: Seq<char>) -> Seq<char> {
    if "assets/"@.is_prefix_of(path) {
        "public, max-age=31536000, immutable"@
    } else {
        "no-cache"@
    }
}

/// How long a file may be kept.
pub fn cache_control(path: &str) -> (r: &'static str)
    ensures
        r@ == cache_policy(path@),
{
    if starts_with(path, "assets/") {
        "public, max-age=31536000, immutable"
    } else {
        "no-cache"
    }
}

/// The headers of an embedded file.
#[derive(Debug, Clone, PartialEq, Eq)]
pub struct AssetHeaders {
    pub content_type: String,
    pub cache_control: &'static str,
}

/// The headers with which a file is sent.
pub fn asset_headers(path: &str) -> (r: AssetHeaders)
    ensures
        reads_alike(path@) ==> r.content_type@ == mime_of(path@),
        r.cache_control@ == cache_policy(path@),
{
    AssetHeaders { content_type: guess_mime(path), cache_control: cache_control(path) }
}

/// What a request for a file is answered with.
#[derive(Debug, Clone, PartialEq, Eq)]
pub enum AssetAnswer<S = String> {
    /// The login page.
    Login,
    /// The file, or the answer that there is none.
    File(S),
}

impl View for AssetAnswer {
    type V = AssetAnswer<Seq<char>>;

    open spec fn view(&self) -> AssetAnswer<Seq<char>> {
        match *self {
            AssetAnswer::Login => AssetAnswer::Login,
            AssetAnswer::File(p) => AssetAnswer::File(p@),
        }
    }
}

/// What a request is answered with. The main page is only for those who are logged in.
pub open spec fn asset_answer(uri_path: Seq<char>, authenticated: bool) -> AssetAnswer<Seq<char>> {
    if asset_path(uri_path) == "index.html"@ && !authenticated {
        AssetAnswer::Login
    } else {
        AssetAnswer::File(asset_path(uri_path))
    }
}

/// Answers a request for a file.
pub fn static_handler(uri_path: &str, authenticated: bool) -> (r: AssetAnswer)
    ensures
        r@ == asset_answer(uri_path@, authenticated),
{
    let path = asset_of(uri_path);
    if same(path, "index.html") && !authenticated {
        AssetAnswer::Login
    } else {
        AssetAnswer::File(path.to_owned())
    }
}

/// Whatever path is asked for, the main page is not sent to one who is not logged in.
pub proof fn law_main_page_needs_login(uri_path: Seq<char>)
    ensures
        asset_answer(uri_path, false) != AssetAnswer::File("index.html"@),
{
}

} // verus!
