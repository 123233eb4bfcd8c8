//! What is served beside the settings page: the files of the console.

use crate::text::{begins_with, chars_of, drop_prefixes, string_of, without_prefixes};
use vstd::prelude::*;
use vstd::string::*;

verus! {

/// The name of `mime_guess`'s first guess for a path: the media type of its
/// extension, or of bytes that nothing is known of.
pub uninterp spec fn media_type(path: Seq<char>) -> Seq<char>;

/// A path in which every platform finds the same extension: one without backslashes
/// and colons that does not begin with two slashes.
pub open spec fn is_plain_path(path: Seq<char>) -> bool {
    !path.contains('\\') && !path.contains(':') && !begins_with(path, "//"@)
}

/// `mime_guess::from_path` and its `first_or_octet_stream`, as text: a function of
/// the path alone. Which part of a path with a backslash or a colon, or with two
/// slashes at its start, is the extension depends on the platform, so nothing is said
/// of the type of such a path.
#[verifier::external_body]
fn guess_media_type(path: &str) -> (r: String)
    ensures
        is_plain_path(path@) ==> r@ == media_type(path@),
{
    mime_guess::from_path(path).first_or_octet_stream().as_ref().to_string()
}

/// The file that a request asks for: the start page where it asks for none.
pub open spec fn asset_name(path: Seq<char>) -> Seq<char> {
    let name = without_prefixes(path, "/"@);
    if name.len() == 0 {
        "index.html"@
    } else {
        name
    }
}

/// The file that a request asks for.
pub fn asset_path(path: &str) -> (r: String)
    ensures
        r@ == asset_name(path@),
{
    let cs = chars_of(path);
    proof {
        reveal_strlit("/");
    }
    let name = drop_prefixes(cs.as_slice(), "/");
    if name.len() == 0 {
        "index.html".to_owned()
    } else {
        string_of(name)
    }
}

proof fn lemma_no_more_slashes(s: Seq<char>)
    ensures
        !begins_with(without_prefixes(s, "/"@), "/"@),
        forall|c: char| without_prefixes(s, "/"@).contains(c) ==> s.contains(c),
    decreases s.len(),
{
    reveal_strlit("/");
    if begins_with(s, "/"@) {
        let rest = s.skip(1);
        lemma_no_more_slashes(rest);
        assert forall|c: char| without_prefixes(s, "/"@).contains(c) implies s.contains(c) by {
            assert(without_prefixes(rest, "/"@).contains(c));
            assert(rest.contains(c));
            let i = choose|i: int| 0 <= i < rest.len() && rest[i] == c;
            assert(s[i + 1] == c);
        }
    }
}

proof fn lemma_asset_name_is_plain(path: Seq<char>)
    requires
        !path.contains('\\'),
        !path.contains(':'),
    ensures
        is_plain_path(asset_name(path)),
{
    reveal_strlit("/");
    reveal_strlit("//");
    reveal_strlit("index.html");
    lemma_no_more_slashes(path);
    let name = asset_name(path);
    if begins_with(name, "//"@) {
        assert(name.subrange(0, 2)[0] == '/');
        assert(name.subrange(0, 1) =~= "/"@);
    }
}

/// What a reply is made of.
#[derive(Debug, Clone, Copy, PartialEq, Eq, Structural)]
pub enum AssetBody {
    /// The file that was asked for.
    Asset,
    /// The page for files that are not there.
    NotFoundPage,
    /// The words `Not Found`.
    NotFoundText,
}

/// A reply to a request for a file.
pub struct AssetReply {
    pub status: u16,
    pub content_type: String,
    pub body: AssetBody,
}

/// Whether a reply answers a request for a path, by what there is to show.
pub open spec fn answers_request(
    path: Seq<char>,
    has_asset: bool,
    has_not_found_page: bool,
    r: AssetReply,
) -> bool {
    if has_asset {
        r.status == 200 && r.body == AssetBody::Asset && (!path.contains('\\') && !path.contains(
            ':',
        ) ==> r.content_type@ == media_type(asset_name(path)))
    } else if has_not_found_page {
        r.status == 404 && r.body == AssetBody::NotFoundPage && r.content_type@ == media_type(
            "404.html"@,
        )
    } else {
        r.status == 404 && r.body == AssetBody::NotFoundText && r.content_type@ == "text/plain"@
    }
}

/// The reply to a request, by what is there: the file that it asks for, or the page
/// for files that are not there.
pub fn asset_reply(path: &str, has_asset: bool, has_not_found_page: bool) -> (r: AssetReply)
    ensures
        answers_request(path@, has_asset, has_not_found_page, r),
{
    if has_asset {
        proof {
            if !path@.contains('\\') && !path@.contains(':') {
                lemma_asset_name_is_plain(path@);
            }
        }
        let name = asset_path(path);
        AssetReply {
            status: 200,
            content_type: guess_media_type(name.as_str()),
            body: AssetBody::Asset,
        }
    } else if has_not_found_page {
        proof {
            reveal_strlit("404.html");
            reveal_strlit("//");
            assert("404.html"@.subrange(0, 2)[0] != "//"@[0]);
        }
        AssetReply {
            status: 404,
            content_type: guess_media_type("404.html"),
            body: AssetBody::NotFoundPage,
        }
    } else {
        AssetReply {
            status: 404,
            content_type: "text/plain".to_owned(),
            body: AssetBody::NotFoundText,
        }
    }
}

/// The certificate and the key that are stored, where both are.
pub fn stored_certificate(cert: Option<String>, key: Option<String>) -> (r: Option<
    (String, String),
>)
    ensures
        match (cert, key) {
            (Some(c), Some(k)) => r matches Some(x) && x.0@ == c@ && x.1@ == k@,
            _ => r is None,
        },
{
    match (cert, key) {
        (Some(c), Some(k)) => Some((c, k)),
        _ => None,
    }
}

/// A path names the asset behind its slashes, and the first page where there is nothing
/// behind them.
pub proof fn law_path_names_the_asset(slashes: Seq<char>, name: Seq<char>)
    requires
        forall|k: int| 0 <= k < slashes.len() ==> slashes[k] == '/',
        name.len() > 0 ==> name[0] != '/',
    ensures
        name.len() > 0 ==> asset_name(slashes + name) == name,
        name.len() == 0 ==> asset_name(slashes + name) == "index.html"@,
    decreases slashes.len(),
{
    lemma_behind_slashes(slashes, name);
}

proof fn lemma_behind_slashes(slashes: Seq<char>, name: Seq<char>)
    requires
        forall|k: int| 0 <= k < slashes.len() ==> slashes[k] == '/',
        name.len() > 0 ==> name[0] != '/',
    ensures
        without_prefixes(slashes + name, "/"@) == name,
    decreases slashes.len(),
{
    reveal_strlit("/");
    let s = slashes + name;
    if slashes.len() == 0 {
        assert(s =~= name);
        if begins_with(s, "/"@) {
            assert(s.subrange(0, 1)[0] == '/');
        }
    } else {
        assert(s.subrange(0, 1) =~= "/"@);
        assert(s.skip(1) =~= slashes.skip(1) + name);
        lemma_behind_slashes(slashes.skip(1), name);
    }
}

/// An asset that is there is shown with 200; one that is not is answered with 404, by the
/// page for that where there is one and by a plain text where there is none.
pub proof fn law_request_is_answered(
    path: Seq<char>,
    has_asset: bool,
    has_not_found_page: bool,
    r: AssetReply,
)
    requires
        answers_request(path, has_asset, has_not_found_page, r),
    ensures
        r.status == 200 <==> has_asset,
        r.status == 404 <==> !has_asset,
        r.body == AssetBody::Asset <==> has_asset,
        r.body == AssetBody::NotFoundPage <==> !has_asset && has_not_found_page,
        r.body == AssetBody::NotFoundText <==> !has_asset && !has_not_found_page,
        r.body == AssetBody::NotFoundText ==> r.content_type@ == "text/plain"@,
        r.body == AssetBody::NotFoundPage ==> r.content_type@ == media_type("404.html"@),
{
}

} // verus!
