//! Serving local images under the `comic` scheme: which file a request asks
//! for, and what is answered. The caller looks the file up and re-encodes it;
//! every image is served as PNG.

use crate::scan::text_of;
use crate::text::{begins_with, chars_of};
use vstd::prelude::*;
use vstd::string::*;
use vstd::utf8::*;

verus! {

/// Whether a byte is an ASCII hexadecimal digit, of either case.
pub open spec fn is_hex_byte(byte: u8) -> bool {
    (0x30 <= byte <= 0x39) || (0x41 <= byte <= 0x46) || (0x61 <= byte <= 0x66)
}

/// The number that a hexadecimal digit stands for.
pub open spec fn hex_byte_value(byte: u8) -> int {
    if byte <= 0x39 {
        byte - 0x30
    } else if byte <= 0x46 {
        byte - 0x41 + 10
    } else {
        byte - 0x61 + 10
    }
}

/// Percent-decoding: a percent sign with two hexadecimal digits behind it
/// stands for the byte that the digits write, and every other byte stands for
/// itself.
pub open spec fn percent_decoded(bytes: Seq<u8>) -> Seq<u8>
    decreases bytes.len(),
{
    if bytes.len() == 0 {
        Seq::empty()
    } else if bytes[0] == 0x25 && bytes.len() >= 3 && is_hex_byte(bytes[1]) && is_hex_byte(
        bytes[2],
    ) {
        seq![(16 * hex_byte_value(bytes[1]) + hex_byte_value(bytes[2])) as u8] + percent_decoded(
            bytes.skip(3),
        )
    } else {
        seq![bytes[0]] + percent_decoded(bytes.drop_first())
    }
}

/// The text that a percent-encoded text stands for, where the decoded bytes
/// are UTF-8.
pub open spec fn decoded_text(data: Seq<char>) -> Option<Seq<char>> {
    let bytes = percent_decoded(encode_utf8(data));
    if valid_utf8(bytes) {
        Some(decode_utf8(bytes))
    } else {
        None
    }
}

/// Decodes with `urlencoding::decode`. Trusted: the crate replaces each
/// well-formed escape by its byte, leaves everything else as it is, and
/// returns the text of the decoded bytes, or fails where they are no UTF-8.
#[verifier::external_body]
fn percent_decode(data: &str) -> (decoded: Option<String>)
    ensures
        text_of(decoded) == decoded_text(data@),
{
    urlencoding::decode(data).ok().map(|text| text.into_owned())
}

/// The path that a request asks for: what stands behind
/// `comic://localhost/`, percent-decoded. There is none where the request
/// does not begin so or does not decode to text.
pub open spec fn requested_path(uri: Seq<char>) -> Option<Seq<char>> {
    let prefix = "comic://localhost/"@;
    if prefix.is_prefix_of(uri) {
        decoded_text(uri.skip(prefix.len() as int))
    } else {
        None
    }
}

/// An answer to a request.
#[derive(Debug, Clone, PartialEq)]
pub struct Response {
    /// The status code, as in HTTP.
    pub status: u16,
    /// The type of the body.
    pub mimetype: String,
    /// The body.
    pub body: Vec<u8>,
}

/// What a `Response` holds, as mathematical values.
pub struct ResponseView {
    pub status: u16,
    pub mimetype: Seq<char>,
    pub body: Seq<u8>,
}

impl View for Response {
    type V = ResponseView;

    open spec fn view(&self) -> ResponseView {
        ResponseView { status: self.status, mimetype: self.mimetype@, body: self.body@ }
    }
}

/// The answer to a request for what is not there: status 404 and no body.
pub open spec fn not_found() -> ResponseView {
    ResponseView { status: 404, mimetype: "text/plain"@, body: Seq::empty() }
}

/// The answer that serves an image: status 200 and the image as PNG.
pub open spec fn served(image: Seq<u8>) -> ResponseView {
    ResponseView { status: 200, mimetype: "image/png"@, body: image }
}

/// What is to be done about a request.
#[derive(Debug, Clone, PartialEq)]
pub enum Action {
    /// The request is none of this scheme, or does not decode to text.
    Reject,
    /// The request is answered at once.
    Respond(Response),
    /// The file at this path is to be looked up.
    Fetch(String),
}

/// What an `Action` holds, as mathematical values.
pub enum ActionView {
    Reject,
    Respond(ResponseView),
    Fetch(Seq<char>),
}

impl View for Action {
    type V = ActionView;

    open spec fn view(&self) -> ActionView {
        match self {
            Action::Reject => ActionView::Reject,
            Action::Respond(response) => ActionView::Respond(response@),
            Action::Fetch(path) => ActionView::Fetch(path@),
        }
    }
}

/// What is to be done about a request: one without a path is rejected, one
/// for the empty path is answered with 404, and for any other the file is to
/// be looked up.
pub open spec fn action_for(uri: Seq<char>) -> ActionView {
    match requested_path(uri) {
        None => ActionView::Reject,
        Some(path) => if path.len() == 0 {
            ActionView::Respond(not_found())
        } else {
            ActionView::Fetch(path)
        },
    }
}

/// What is answered once the file was looked up: 404 where there is none,
/// else the image that the caller made of it.
pub open spec fn answer_for(found: Option<Seq<u8>>) -> ResponseView {
    match found {
        None => not_found(),
        Some(image) => served(image),
    }
}

/// The path that a request asks for.
pub fn request_path(uri: &str) -> (path: Option<String>)
    ensures
        text_of(path) == requested_path(uri@),
{
    let chars = chars_of(uri);
    let prefix = chars_of("comic://localhost/");
    if !begins_with(&chars, &prefix) {
        return None;
    }
    let rest = uri.substring_char(prefix.len(), chars.len());
    percent_decode(rest)
}

/// The answer to a request for what is not there.
pub fn not_found_response() -> (response: Response)
    ensures
        response@ == not_found(),
{
    Response { status: 404, mimetype: String::from_str("text/plain"), body: Vec::new() }
}

/// Decides what is to be done about a request.
pub fn comic_protocol(uri: &str) -> (action: Action)
    ensures
        action@ == action_for(uri@),
{
    match request_path(uri) {
        None => Action::Reject,
        Some(path) => {
            if path.as_str().unicode_len() == 0 {
                Action::Respond(not_found_response())
            } else {
                Action::Fetch(path)
            }
        },
    }
}

/// The answer once the file was looked up. `found` is `None` where there is no
/// file at the path, else the file's image re-encoded as PNG.
pub fn asset_response(found: Option<Vec<u8>>) -> (response: Response)
    ensures
        response@ == answer_for(
            match found {
                Some(image) => Some(image@),
                None => None,
            },
        ),
{
    match found {
        None => not_found_response(),
        Some(image) => Response {
            status: 200,
            mimetype: String::from_str("image/png"),
            body: image,
        },
    }
}

} // verus!
