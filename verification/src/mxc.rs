//! Content locators of the form `mxc://server/media-id`.

use vstd::prelude::*;
use vstd::string::*;
use crate::text::byte_len;

verus! {

/// The server name and the media id of a content locator; `None` where the
/// text is not a locator that ruma accepts.
pub uninterp spec fn mxc_parts(uri: Seq<char>) -> Option<(Seq<char>, Seq<char>)>;

/// The longest locator, in bytes, that is looked at. ruma keeps the place of
/// the slash between server name and media id in a single byte, and fails on
/// a locator in which that place does not fit.
pub const MAX_LOCATOR_BYTES: usize = 255;

/// `MxcUri::parts` of ruma, on the locator made from `uri`: the server name
/// and the media id where the locator is valid. The result is the one that
/// ruma gives for this text. The locator must not be longer than
/// `MAX_LOCATOR_BYTES`: on a longer one ruma may panic.
#[verifier::external_body]
pub(crate) fn parts(uri: &str) -> (r: Option<(String, String)>)
    requires
        byte_len(uri@) <= MAX_LOCATOR_BYTES,
    ensures
        r is Some == mxc_parts(uri@) is Some,
        r matches Some(p) ==> mxc_parts(uri@) == Some((p.0@, p.1@)),
{
    match <&matrix_sdk::ruma::MxcUri>::from(uri).parts() {
        Ok((server, id)) => Some((server.as_str().to_owned(), id.to_owned())),
        Err(_) => None,
    }
}

/// The server name and the media id of a content locator of at most
/// `MAX_LOCATOR_BYTES` bytes; a longer text counts as no locator.
pub open spec fn locator_parts(uri: Seq<char>) -> Option<(Seq<char>, Seq<char>)> {
    if byte_len(uri) <= MAX_LOCATOR_BYTES {
        mxc_parts(uri)
    } else {
        None
    }
}

/// The parts of the locator `uri`: see `locator_parts`. The length is tested
/// before the locator is taken apart.
pub fn locator_parts_of(uri: &str) -> (r: Option<(String, String)>)
    ensures
        r is Some == locator_parts(uri@) is Some,
        r matches Some(p) ==> locator_parts(uri@) == Some((p.0@, p.1@)),
{
    if uri.as_bytes().len() <= MAX_LOCATOR_BYTES {
        parts(uri)
    } else {
        None
    }
}

/// The media id of a locator; empty where the locator is not valid or too
/// long.
pub open spec fn media_id_or_empty(uri: Seq<char>) -> Seq<char> {
    match locator_parts(uri) {
        Some(p) => p.1,
        None => Seq::empty(),
    }
}

/// The media id among the parts of a locator, or the empty text where the
/// locator has no parts.
pub fn media_id_of(parts: Option<(String, String)>) -> (r: String)
    ensures
        r@ == (match parts {
            Some(p) => p.1@,
            None => Seq::empty(),
        }),
{
    match parts {
        Some(p) => p.1,
        None => String::new(),
    }
}

/// The media id of the locator `uri`, or the empty text where `uri` is not a
/// valid locator of at most `MAX_LOCATOR_BYTES` bytes.
pub fn media_id(uri: &str) -> (r: String)
    ensures
        r@ == media_id_or_empty(uri@),
{
    media_id_of(locator_parts_of(uri))
}

} // verus!
