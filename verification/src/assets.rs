//! Answers to requests for the files of the client.

use vstd::prelude::*;
use vstd::string::*;
use vstd::utf8::{decode_utf8, valid_utf8};

verus! {

/// The body of an answer.
#[derive(Debug)]
pub enum AssetBody {
    Text(String),
    Bytes(Vec<u8>),
}

/// The answer to a request for a file.
#[derive(Debug)]
pub struct AssetResponse {
    pub status: u16,
    pub content_type: Option<String>,
    pub body: AssetBody,
}

/// `core::str::from_utf8`: the text that `bytes` encode, where they are
/// valid UTF-8.
#[verifier::external_body]
fn utf8_text(bytes: &[u8]) -> (text: Option<&str>)
    ensures
        text is Some <==> valid_utf8(bytes@),
        text matches Some(t) ==> t@ == decode_utf8(bytes@),
{
    core::str::from_utf8(bytes).ok()
}

/// `mime_guess::from_path`, `MimeGuess::first_or_octet_stream` and the text
/// of the media type. The guess goes by the extension of the path as the
/// platform reads paths; the contract states nothing of it.
#[verifier::external_body]
fn guess_media_type(path: &str) -> (media_type: String)
{
    mime_guess::from_path(path).first_or_octet_stream().as_ref().to_string()
}

/// The answer to a request for the start page, given what is stored for it.
/// A page that is valid UTF-8 is sent as HTML; one that is not is an error of
/// the server; none is not found.
pub fn index_response(content: Option<Vec<u8>>) -> (response: AssetResponse)
    ensures
        match content {
            Some(data) => if valid_utf8(data@) {
                &&& response.status == 200
                &&& response.content_type matches Some(t) && t@ == "text/html; charset=utf-8"@
                &&& response.body matches AssetBody::Text(page) && page@ == decode_utf8(data@)
            } else {
                &&& response.status == 500
                &&& response.content_type is None
                &&& response.body matches AssetBody::Text(words) && words@
                    == "Failed to decode index.html"@
            },
            None => {
                &&& response.status == 404
                &&& response.content_type is None
                &&& response.body matches AssetBody::Text(words) && words@
                    == "index.html not found"@
            },
        },
{
    match content {
        Some(data) => match utf8_text(data.as_slice()) {
            Some(page) => AssetResponse {
                status: 200,
                content_type: Some(String::from_str("text/html; charset=utf-8")),
                body: AssetBody::Text(String::from_str(page)),
            },
            None => AssetResponse {
                status: 500,
                content_type: None,
                body: AssetBody::Text(String::from_str("Failed to decode index.html")),
            },
        },
        None => AssetResponse {
            status: 404,
            content_type: None,
            body: AssetBody::Text(String::from_str("index.html not found")),
        },
    }
}

/// The answer to a request for a file, given its media type and what is
/// stored for it: the file under its media type, or a plain text that says
/// that there is none.
pub fn asset_response(media_type: String, content: Option<Vec<u8>>) -> (response: AssetResponse)
    ensures
        match content {
            Some(data) => {
                &&& response.status == 200
                &&& response.content_type == Some(media_type)
                &&& response.body == AssetBody::Bytes(data)
            },
            None => {
                &&& response.status == 404
                &&& response.content_type matches Some(t) && t@ == "text/plain"@
                &&& response.body matches AssetBody::Text(words) && words@ == "Asset not found"@
            },
        },
{
    match content {
        Some(data) => AssetResponse {
            status: 200,
            content_type: Some(media_type),
            body: AssetBody::Bytes(data),
        },
        None => AssetResponse {
            status: 404,
            content_type: Some(String::from_str("text/plain")),
            body: AssetBody::Text(String::from_str("Asset not found")),
        },
    }
}

/// The answer to a request for the file at `path`, given what is stored for
/// it. The media type of a file is guessed from the extension of its path.
pub fn static_asset_response(path: &str, content: Option<Vec<u8>>) -> (response: AssetResponse)
    ensures
        match content {
            Some(data) => {
                &&& response.status == 200
                &&& response.content_type is Some
                &&& response.body == AssetBody::Bytes(data)
            },
            None => {
                &&& response.status == 404
                &&& response.content_type matches Some(t) && t@ == "text/plain"@
                &&& response.body matches AssetBody::Text(words) && words@ == "Asset not found"@
            },
        },
{
    let media_type = guess_media_type(path);
    asset_response(media_type, content)
}

} // verus!
