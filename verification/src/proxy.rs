//! Requests to the data server: where they go, what they ask for, and what
//! the answer's status means.

use vstd::prelude::*;
use vstd::string::*;
use crate::error::GatewayError;
use crate::variables::{Descriptor, Kind, VariableInfo, VariableType};

verus! {

/// The parameters of a request to the data endpoint.
#[derive(Debug)]
pub struct DataQuery {
    /// The variables to fetch, separated by commas.
    pub vars: Option<String>,
    /// The time to select.
    pub time: Option<String>,
    /// The range of times to select.
    pub time_range: Option<String>,
    /// Every other parameter, by name and value, in the order in which the
    /// request was walked.
    pub extra: Vec<(String, String)>,
}

/// `parts` joined by `separator`.
pub open spec fn joined(parts: Seq<Seq<char>>, separator: Seq<char>) -> Seq<char>
    decreases parts.len(),
{
    if parts.len() == 0 {
        Seq::empty()
    } else if parts.len() == 1 {
        parts[0]
    } else {
        joined(parts.drop_last(), separator) + separator + parts.last()
    }
}

/// The part `name=value` of a query, where the parameter is present.
pub open spec fn named_part(name: Seq<char>, value: Option<String>) -> Seq<Seq<char>> {
    match value {
        Some(v) => seq![name + seq!['='] + v@],
        None => Seq::empty(),
    }
}

/// The part of a query for one of the other parameters. A parameter called
/// `format` has none: the format is not the caller's to choose.
pub open spec fn extra_part(parameter: (String, String)) -> Option<Seq<char>> {
    if parameter.0@ == "format"@ {
        None
    } else {
        Some(parameter.0@ + seq!['='] + parameter.1@)
    }
}

/// The parts of the query that is sent to the data server: the recognised
/// parameters that are present, the JSON format, then the other parameters.
pub open spec fn query_parts(query: DataQuery) -> Seq<Seq<char>> {
    named_part("vars"@, query.vars) + named_part("time"@, query.time) + named_part(
        "time_range"@,
        query.time_range,
    ) + seq!["format=json"@] + query.extra@.filter_map(|p: (String, String)| extra_part(p))
}

/// The query that is sent to the data server.
pub open spec fn backend_query(query: DataQuery) -> Seq<char> {
    joined(query_parts(query), seq!['&'])
}

/// The texts that a list of strings holds.
pub open spec fn texts_of(list: Seq<String>) -> Seq<Seq<char>> {
    list.map_values(|s: String| s@)
}

fn name_value(name: &str, value: &str) -> (part: String)
    ensures
        part@ == name@ + seq!['='] + value@,
{
    let mut part = String::from_str(name);
    part.append("=");
    part.append(value);
    proof {
        reveal_strlit("=");
        assert("="@ =~= seq!['=']);
    }
    part
}

fn push_named(parts: &mut Vec<String>, name: &str, value: &Option<String>)
    ensures
        texts_of(final(parts)@) == texts_of(old(parts)@) + named_part(name@, *value),
{
    match value {
        Some(v) => {
            let part = name_value(name, v.as_str());
            parts.push(part);
            assert(texts_of(parts@) =~= texts_of(old(parts)@) + seq![part@]);
        },
        None => {
            assert(texts_of(parts@) =~= texts_of(old(parts)@) + Seq::<Seq<char>>::empty());
        },
    }
}

/// Joins `parts` by `separator`.
pub fn join(parts: &Vec<String>, separator: &str) -> (text: String)
    ensures
        text@ == joined(texts_of(parts@), separator@),
{
    let mut text = String::new();
    let mut i: usize = 0;
    while i < parts.len()
        invariant
            i <= parts.len(),
            text@ == joined(texts_of(parts@).take(i as int), separator@),
        decreases parts.len() - i,
    {
        let ghost prefix = texts_of(parts@).take(i as int);
        let ghost next = texts_of(parts@).take(i + 1);
        assert(next.drop_last() =~= prefix);
        assert(next.last() == parts@[i as int]@);
        if i > 0 {
            text.append(separator);
        } else {
            assert(text@ =~= Seq::<char>::empty());
            assert(Seq::<char>::empty() + parts@[0]@ =~= parts@[0]@);
        }
        text.append(parts[i].as_str());
        i += 1;
    }
    assert(texts_of(parts@).take(parts.len() as int) =~= texts_of(parts@));
    text
}

/// Builds the query for the data server from the parameters of the inbound
/// request. The format is always JSON: a `format` of the caller is dropped.
pub fn build_backend_query(query: &DataQuery) -> (text: String)
    ensures
        text@ == backend_query(*query),
{
    let mut parts: Vec<String> = Vec::new();
    assert(texts_of(parts@) =~= Seq::<Seq<char>>::empty());
    push_named(&mut parts, "vars", &query.vars);
    push_named(&mut parts, "time", &query.time);
    push_named(&mut parts, "time_range", &query.time_range);
    parts.push(String::from_str("format=json"));
    let ghost fixed = texts_of(parts@);
    assert(fixed =~= named_part("vars"@, query.vars) + named_part("time"@, query.time)
        + named_part("time_range"@, query.time_range) + seq!["format=json"@]);
    let ghost pick = |p: (String, String)| extra_part(p);
    let format_name = String::from_str("format");
    let mut i: usize = 0;
    assert(query.extra@.take(0).filter_map(pick) =~= Seq::<Seq<char>>::empty());
    while i < query.extra.len()
        invariant
            i <= query.extra.len(),
            format_name@ == "format"@,
            pick == |p: (String, String)| extra_part(p),
            texts_of(parts@) == fixed + query.extra@.take(i as int).filter_map(pick),
        decreases query.extra.len() - i,
    {
        proof {
            query.extra@.lemma_filter_map_take_succ(pick, i as int);
        }
        let ghost before = texts_of(parts@);
        if query.extra[i].0 != format_name {
            let part = name_value(query.extra[i].0.as_str(), query.extra[i].1.as_str());
            parts.push(part);
            assert(texts_of(parts@) =~= before + seq![part@]);
        }
        i += 1;
    }
    assert(query.extra@.take(query.extra.len() as int) =~= query.extra@);
    proof {
        reveal_strlit("&");
        assert("&"@ =~= seq!['&']);
    }
    join(&parts, "&")
}

/// The address of the metadata endpoint of the data server at `api_url`.
pub fn metadata_url(api_url: &str) -> (url: String)
    ensures
        url@ == api_url@ + "/metadata"@,
{
    let mut url = String::from_str(api_url);
    url.append("/metadata");
    url
}

/// The address of the data endpoint of the data server at `api_url`, with
/// the query for `query`.
pub fn data_url(api_url: &str, query: &DataQuery) -> (url: String)
    ensures
        url@ == api_url@ + "/data?"@ + backend_query(*query),
{
    let mut url = String::from_str(api_url);
    url.append("/data?");
    let text = build_backend_query(query);
    url.append(text.as_str());
    url
}

/// The names that are asked of the data server for a variable: its name, or
/// both of its components with a comma between them.
pub open spec fn requested_names(d: Descriptor) -> Seq<char> {
    match d.kind {
        Kind::Scalar => d.name,
        Kind::Vector { u_component, v_component } => u_component + seq![','] + v_component,
    }
}

/// The address from which the samples of a variable at one time are fetched.
/// `time` is the time code as text.
pub open spec fn variable_data_address(api_url: Seq<char>, d: Descriptor, time: Seq<char>) -> Seq<
    char,
> {
    api_url + "/data?vars="@ + requested_names(d) + "&time="@ + time + "&format=json"@
}

/// The address from which the samples of a variable at one time are fetched:
/// one name for a scalar, both components for a vector, always as JSON.
pub fn variable_data_url(api_url: &str, variable: &VariableInfo, time: &str) -> (url: String)
    ensures
        url@ == variable_data_address(api_url@, variable@, time@),
{
    let mut url = String::from_str(api_url);
    url.append("/data?vars=");
    match &variable.var_type {
        VariableType::Scalar => {
            url.append(variable.name.as_str());
        },
        VariableType::Vector { u_component, v_component } => {
            url.append(u_component.as_str());
            url.append(",");
            url.append(v_component.as_str());
            proof {
                reveal_strlit(",");
                assert(","@ =~= seq![',']);
                assert(api_url@ + "/data?vars="@ + u_component@ + ","@ + v_component@ =~= api_url@
                    + "/data?vars="@ + (u_component@ + seq![','] + v_component@));
            }
        },
    }
    url.append("&time=");
    url.append(time);
    url.append("&format=json");
    url
}

/// A status from 200 to 299 is a success.
pub open spec fn is_success(status: u16) -> bool {
    200 <= status < 300
}

/// What the answer of the data server means, given its status; `None`
/// stands for a request that got no answer.
pub open spec fn answer_outcome(status: Option<u16>) -> Result<(), GatewayError> {
    match status {
        None => Err(GatewayError::Unreachable),
        Some(code) => if is_success(code) {
            Ok(())
        } else {
            Err(GatewayError::BackendStatus { status: code })
        },
    }
}

/// Decides whether the answer of the data server is passed on. A request
/// without an answer fails as a connection error, an answer with a status
/// other than success as a backend status error; both before any byte is
/// sent to the caller.
pub fn check_backend_answer(status: Option<u16>) -> (outcome: Result<(), GatewayError>)
    ensures
        outcome == answer_outcome(status),
{
    match status {
        None => Err(GatewayError::Unreachable),
        Some(code) => if 200 <= code && code < 300 {
            Ok(())
        } else {
            Err(GatewayError::BackendStatus { status: code })
        },
    }
}

/// How the body of an answer is passed on to the caller.
#[derive(Clone, Copy, Debug, PartialEq, Eq, Structural)]
pub enum ProxyMode {
    /// The whole body, read first.
    Passthrough,
    /// Chunk by chunk, as the data server sends it.
    Streaming,
}

/// The status and headers of the answer to the caller.
#[derive(Debug)]
pub struct ResponseHead {
    pub status: u16,
    pub headers: Vec<(String, String)>,
}

/// The headers of a relayed answer, by name and value.
pub open spec fn relay_headers(mode: ProxyMode) -> Seq<(Seq<char>, Seq<char>)> {
    match mode {
        ProxyMode::Passthrough => seq![("content-type"@, "application/json"@)],
        ProxyMode::Streaming => seq![
            ("content-type"@, "application/json"@),
            ("transfer-encoding"@, "chunked"@),
        ],
    }
}

/// The names and values that a list of headers holds.
pub open spec fn header_views(headers: Seq<(String, String)>) -> Seq<(Seq<char>, Seq<char>)> {
    headers.map_values(|h: (String, String)| (h.0@, h.1@))
}

/// The status and headers under which a successful answer is relayed: the
/// body is JSON, and a streamed body is sent in chunks.
pub fn relay_head(mode: ProxyMode) -> (head: ResponseHead)
    ensures
        head.status == 200,
        header_views(head.headers@) == relay_headers(mode),
{
    let mut headers: Vec<(String, String)> = Vec::new();
    headers.push((String::from_str("content-type"), String::from_str("application/json")));
    match mode {
        ProxyMode::Passthrough => {
            assert(header_views(headers@) =~= relay_headers(mode));
        },
        ProxyMode::Streaming => {
            headers.push((String::from_str("transfer-encoding"), String::from_str("chunked")));
            assert(header_views(headers@) =~= relay_headers(mode));
        },
    }
    ResponseHead { status: 200, headers }
}

/// The format of the answer is not the caller's to choose. The query asks
/// for JSON, and each of its other parts is a recognised parameter or one of
/// the other parameters whose name is not `format`.
pub proof fn lemma_format_is_json(query: DataQuery, at: int)
    requires
        0 <= at < query_parts(query).len(),
    ensures
        query_parts(query).contains("format=json"@),
        ({
            let part = query_parts(query)[at];
            ||| part == "format=json"@
            ||| query.vars matches Some(v) && part == "vars"@ + seq!['='] + v@
            ||| query.time matches Some(v) && part == "time"@ + seq!['='] + v@
            ||| query.time_range matches Some(v) && part == "time_range"@ + seq!['='] + v@
            ||| exists|p: (String, String)|
                #[trigger] query.extra@.contains(p) && p.0@ != "format"@ && part == p.0@ + seq![
                    '=',
                ] + p.1@
        }),
{
    let head = named_part("vars"@, query.vars) + named_part("time"@, query.time) + named_part(
        "time_range"@,
        query.time_range,
    );
    let pick = |p: (String, String)| extra_part(p);
    let tail = query.extra@.filter_map(pick);
    let parts = query_parts(query);
    assert(parts == head + seq!["format=json"@] + tail);
    assert(parts[head.len() as int] == "format=json"@);
    if at > head.len() {
        let part = parts[at];
        assert(tail[at - head.len() - 1] == part);
        assert(tail.contains(part));
        query.extra@.lemma_filter_map_contains(pick, part);
        let p = choose|p: (String, String)| #[trigger]
            query.extra@.contains(p) && pick(p) == Some(part);
        assert(query.extra@.contains(p) && p.0@ != "format"@ && part == p.0@ + seq!['='] + p.1@);
    }
}

} // verus!
