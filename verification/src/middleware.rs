//! What the layers around the handlers decide: the identifier of a request,
//! the client it came from, the headers that every answer carries.

use vstd::prelude::*;
use vstd::string::*;
use crate::logging::{generate_request_id, is_random_id};
use crate::text::{chars_of, find_char};

verus! {

/// One header of a request. The name is in lower case. The text is `None`
/// where the value is no text, that is where it holds a byte that is neither
/// a visible ASCII character nor a tab.
#[derive(Clone, Debug)]
pub struct HeaderField {
    pub name: String,
    pub text: Option<String>,
}

/// The names of the headers, in order.
pub open spec fn header_names(headers: Seq<HeaderField>) -> Seq<Seq<char>> {
    headers.map_values(|h: HeaderField| h.name@)
}

/// The text of the first header called `name`; `None` where there is no such
/// header or its value is no text. Later headers of the same name do not
/// count.
pub open spec fn header_text(headers: Seq<HeaderField>, name: Seq<char>) -> Option<Seq<char>> {
    match header_names(headers).index_of_first(name) {
        Some(at) => match headers[at].text {
            Some(text) => Some(text@),
            None => None,
        },
        None => None,
    }
}

/// Looks up the text of the first header called `name`.
pub fn find_header_text<'a>(headers: &'a Vec<HeaderField>, name: &str) -> (text: Option<&'a str>)
    ensures
        match text {
            Some(t) => header_text(headers@, name@) == Some(t@),
            None => header_text(headers@, name@) is None,
        },
{
    let wanted = name.to_owned();
    let ghost names = header_names(headers@);
    let mut i: usize = 0;
    while i < headers.len()
        invariant
            i <= headers.len(),
            wanted@ == name@,
            names == header_names(headers@),
            forall|k: int| 0 <= k < i ==> names[k] != name@,
        decreases headers.len() - i,
    {
        assert(names[i as int] == headers@[i as int].name@);
        if headers[i].name == wanted {
            proof {
                assert(names.contains(name@));
                names.index_of_first_ensures(name@);
            }
            return match &headers[i].text {
                Some(text) => Some(text.as_str()),
                None => None,
            };
        }
        i += 1;
    }
    proof {
        names.index_of_first_ensures(name@);
    }
    None
}

/// The text of the header `name`, where it is not empty.
pub open spec fn filled_header(headers: Seq<HeaderField>, name: Seq<char>) -> Option<Seq<char>> {
    match header_text(headers, name) {
        Some(text) => if text.len() > 0 {
            Some(text)
        } else {
            None
        },
        None => None,
    }
}

/// The identifier that a request brings along: the first of the headers
/// `x-request-id`, `x-correlation-id` and `x-trace-id` that holds a text
/// which is not empty.
pub open spec fn request_id_in(headers: Seq<HeaderField>) -> Option<Seq<char>> {
    match filled_header(headers, "x-request-id"@) {
        Some(id) => Some(id),
        None => match filled_header(headers, "x-correlation-id"@) {
            Some(id) => Some(id),
            None => filled_header(headers, "x-trace-id"@),
        },
    }
}

fn find_filled<'a>(headers: &'a Vec<HeaderField>, name: &str) -> (text: Option<&'a str>)
    ensures
        match text {
            Some(t) => filled_header(headers@, name@) == Some(t@),
            None => filled_header(headers@, name@) is None,
        },
{
    match find_header_text(headers, name) {
        Some(text) => if text.unicode_len() > 0 {
            Some(text)
        } else {
            None
        },
        None => None,
    }
}

/// The identifier that a request brings along, if it brings one.
pub fn existing_request_id<'a>(headers: &'a Vec<HeaderField>) -> (id: Option<&'a str>)
    ensures
        match id {
            Some(t) => request_id_in(headers@) == Some(t@),
            None => request_id_in(headers@) is None,
        },
{
    match find_filled(headers, "x-request-id") {
        Some(id) => Some(id),
        None => match find_filled(headers, "x-correlation-id") {
            Some(id) => Some(id),
            None => find_filled(headers, "x-trace-id"),
        },
    }
}

/// The identifier of a request: the one that it brings along, or a new
/// random one where it brings none.
pub fn extract_or_generate_request_id(headers: &Vec<HeaderField>) -> (id: String)
    ensures
        match request_id_in(headers@) {
            Some(brought) => id@ == brought,
            None => is_random_id(id@),
        },
{
    match existing_request_id(headers) {
        Some(id) => String::from_str(id),
        None => generate_request_id(),
    }
}

/// The client software that sent the request, as its header `user-agent`
/// names it.
pub fn extract_user_agent<'a>(headers: &'a Vec<HeaderField>) -> (agent: Option<&'a str>)
    ensures
        match agent {
            Some(t) => header_text(headers@, "user-agent"@) == Some(t@),
            None => header_text(headers@, "user-agent"@) is None,
        },
{
    find_header_text(headers, "user-agent")
}

/// A blank or a tab: the white space that the text of a header can hold.
pub open spec fn is_blank(c: char) -> bool {
    c == ' ' || c == '\t'
}

/// `text` without the blanks and tabs at its beginning.
pub open spec fn trim_start(text: Seq<char>) -> Seq<char>
    decreases text.len(),
{
    if text.len() > 0 && is_blank(text[0]) {
        trim_start(text.drop_first())
    } else {
        text
    }
}

/// `text` without the blanks and tabs at its end.
pub open spec fn trim_end(text: Seq<char>) -> Seq<char>
    decreases text.len(),
{
    if text.len() > 0 && is_blank(text.last()) {
        trim_end(text.drop_last())
    } else {
        text
    }
}

/// `text` without the blanks and tabs at both ends.
pub open spec fn trimmed(text: Seq<char>) -> Seq<char> {
    trim_end(trim_start(text))
}

/// `text` up to its first comma, or all of it where it holds none.
pub open spec fn before_comma(text: Seq<char>) -> Seq<char> {
    match text.index_of_first(',') {
        Some(at) => text.take(at),
        None => text,
    }
}

proof fn lemma_trim_start(text: Seq<char>, start: int)
    requires
        0 <= start <= text.len(),
        forall|k: int| 0 <= k < start ==> is_blank(#[trigger] text[k]),
        start < text.len() ==> !is_blank(text[start]),
    ensures
        trim_start(text) == text.skip(start),
    decreases start,
{
    if start == 0 {
        assert(text.skip(0) =~= text);
    } else {
        assert(is_blank(text[0]));
        let rest = text.drop_first();
        assert forall|k: int| 0 <= k < start - 1 implies is_blank(#[trigger] rest[k]) by {
            assert(rest[k] == text[k + 1]);
        }
        lemma_trim_start(rest, start - 1);
        assert(rest.skip(start - 1) =~= text.skip(start));
    }
}

proof fn lemma_trim_end(text: Seq<char>, end: int)
    requires
        0 <= end <= text.len(),
        forall|k: int| end <= k < text.len() ==> is_blank(#[trigger] text[k]),
        end > 0 ==> !is_blank(text[end - 1]),
    ensures
        trim_end(text) == text.take(end),
    decreases text.len() - end,
{
    if end == text.len() {
        assert(text.take(end) =~= text);
    } else {
        assert(is_blank(text.last()));
        let rest = text.drop_last();
        lemma_trim_end(rest, end);
        assert(rest.take(end) =~= text.take(end));
    }
}

/// The part of `text` before its first comma, without the blanks and tabs at
/// its ends.
pub fn first_listed(text: &str) -> (first: &str)
    ensures
        first@ == trimmed(before_comma(text@)),
{
    let chars = chars_of(text);
    let stop: usize = match find_char(&chars, ',') {
        Some(at) => at,
        None => chars.len(),
    };
    let ghost segment = before_comma(text@);
    assert(segment =~= text@.take(stop as int));
    let mut start: usize = 0;
    while start < stop && (chars[start] == ' ' || chars[start] == '\t')
        invariant
            start <= stop <= chars.len(),
            chars@ == text@,
            forall|k: int| 0 <= k < start ==> is_blank(#[trigger] chars@[k]),
        decreases stop - start,
    {
        start += 1;
    }
    let mut end: usize = stop;
    while end > start && (chars[end - 1] == ' ' || chars[end - 1] == '\t')
        invariant
            start <= end <= stop <= chars.len(),
            chars@ == text@,
            forall|k: int| end <= k < stop ==> is_blank(#[trigger] chars@[k]),
        decreases end,
    {
        end -= 1;
    }
    proof {
        lemma_trim_start(segment, start as int);
        let inner = segment.skip(start as int);
        assert forall|k: int| end - start <= k < inner.len() implies is_blank(
            #[trigger] inner[k],
        ) by {
            assert(inner[k] == chars@[k + start]);
        }
        lemma_trim_end(inner, end - start);
        assert(inner.take(end - start) =~= text@.subrange(start as int, end as int));
    }
    text.substring_char(start, end)
}

/// The address of the client, as the proxies before this server report it:
/// the first address in `x-forwarded-for`, else `x-real-ip`, else
/// `cf-connecting-ip`. A header whose value is no text does not count.
pub open spec fn remote_addr_in(headers: Seq<HeaderField>) -> Option<Seq<char>> {
    match header_text(headers, "x-forwarded-for"@) {
        Some(list) => Some(trimmed(before_comma(list))),
        None => match header_text(headers, "x-real-ip"@) {
            Some(addr) => Some(addr),
            None => header_text(headers, "cf-connecting-ip"@),
        },
    }
}

/// The address of the client, as the proxies before this server report it.
pub fn extract_remote_addr<'a>(headers: &'a Vec<HeaderField>) -> (addr: Option<&'a str>)
    ensures
        match addr {
            Some(t) => remote_addr_in(headers@) == Some(t@),
            None => remote_addr_in(headers@) is None,
        },
{
    match find_header_text(headers, "x-forwarded-for") {
        Some(list) => Some(first_listed(list)),
        None => match find_header_text(headers, "x-real-ip") {
            Some(addr) => Some(addr),
            None => find_header_text(headers, "cf-connecting-ip"),
        },
    }
}

/// The headers that every answer carries, by name and value.
pub open spec fn security_header_list() -> Seq<(Seq<char>, Seq<char>)> {
    seq![
        ("x-content-type-options"@, "nosniff"@),
        ("x-frame-options"@, "DENY"@),
        ("x-xss-protection"@, "1; mode=block"@),
        ("referrer-policy"@, "strict-origin-when-cross-origin"@),
        (
            "content-security-policy"@,
            "default-src 'self'; script-src 'self' 'unsafe-inline'; style-src 'self' 'unsafe-inline'; img-src 'self' data: https:; connect-src 'self' https:"@,
        ),
    ]
}

/// The headers that every answer carries.
pub fn security_headers() -> (headers: Vec<(&'static str, &'static str)>)
    ensures
        headers@.map_values(|h: (&'static str, &'static str)| (h.0@, h.1@))
            == security_header_list(),
{
    let mut headers: Vec<(&'static str, &'static str)> = Vec::new();
    headers.push(("x-content-type-options", "nosniff"));
    headers.push(("x-frame-options", "DENY"));
    headers.push(("x-xss-protection", "1; mode=block"));
    headers.push(("referrer-policy", "strict-origin-when-cross-origin"));
    headers.push(
        (
            "content-security-policy",
            "default-src 'self'; script-src 'self' 'unsafe-inline'; style-src 'self' 'unsafe-inline'; img-src 'self' data: https:; connect-src 'self' https:",
        ),
    );
    assert(headers@.map_values(|h: (&'static str, &'static str)| (h.0@, h.1@))
        =~= security_header_list());
    headers
}

/// The paths under which the health of the server is reported.
pub open spec fn is_health_path(path: Seq<char>) -> bool {
    path == "/health"@ || path == "/healthz"@
}

/// Whether a request to `path` asks for the health of the server.
pub fn is_health_check_path(path: &str) -> (r: bool)
    ensures
        r == is_health_path(path@),
{
    let owned = path.to_owned();
    owned == String::from_str("/health") || owned == String::from_str("/healthz")
}

/// A status from 400 to 599: an error of the client or of the server.
pub open spec fn is_error(status: u16) -> bool {
    400 <= status < 600
}

/// Whether an answer with the status `status` is logged as an error.
pub fn is_error_status(status: u16) -> (r: bool)
    ensures
        r == is_error(status),
{
    400 <= status && status < 600
}

} // verus!
