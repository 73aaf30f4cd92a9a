use rossby_vis::assets::{asset_response, index_response, static_asset_response, AssetBody};
use rossby_vis::error::{AppError, ErrorKind, GatewayError, Payload};
use rossby_vis::proxy::{
    build_backend_query, check_backend_answer, data_url, join, metadata_url, relay_head,
    variable_data_url, DataQuery, ProxyMode,
};
use rossby_vis::variables::{VariableCategory, VariableInfo, VariableType};

fn set(value: &str) -> Option<String> {
    Some(value.to_string())
}

fn pairs(list: &[(&str, &str)]) -> Vec<(String, String)> {
    list.iter().map(|(k, v)| (k.to_string(), v.to_string())).collect()
}

fn query(vars: Option<&str>, time: Option<&str>, range: Option<&str>, extra: &[(&str, &str)]) -> DataQuery {
    DataQuery {
        vars: vars.map(|s| s.to_string()),
        time: time.map(|s| s.to_string()),
        time_range: range.map(|s| s.to_string()),
        extra: pairs(extra),
    }
}

fn variable(name: &str, var_type: VariableType) -> VariableInfo {
    VariableInfo {
        name: name.to_string(),
        display_name: name.to_string(),
        long_name: name.to_string(),
        units: String::new(),
        category: VariableCategory::General,
        var_type,
        dimensions: Vec::new(),
    }
}

#[test]
fn the_query_names_what_is_present() {
    assert_eq!(
        build_backend_query(&query(Some("u10"), Some("700464"), None, &[])),
        "vars=u10&time=700464&format=json"
    );
    assert_eq!(
        build_backend_query(&query(Some("u10,v10"), None, Some("1,5"), &[])),
        "vars=u10,v10&time_range=1,5&format=json"
    );
    assert_eq!(
        build_backend_query(&query(Some("a"), Some("b"), Some("c"), &[])),
        "vars=a&time=b&time_range=c&format=json"
    );
    assert_eq!(build_backend_query(&query(None, None, None, &[])), "format=json");
}

#[test]
fn other_parameters_follow_the_format() {
    assert_eq!(
        build_backend_query(&query(Some("sp"), None, None, &[("level", "500"), ("bbox", "1,2")])),
        "vars=sp&format=json&level=500&bbox=1,2"
    );
    assert_eq!(
        build_backend_query(&query(None, None, None, &[("a", ""), ("", "b")])),
        "format=json&a=&=b"
    );
}

#[test]
fn the_format_is_always_json() {
    assert_eq!(
        build_backend_query(&query(Some("sp"), None, None, &[("format", "netcdf")])),
        "vars=sp&format=json"
    );
    assert_eq!(
        build_backend_query(&query(
            None,
            None,
            None,
            &[("format", "csv"), ("x", "1"), ("format", "xml"), ("Format", "bin")]
        )),
        "format=json&x=1&Format=bin"
    );
}

#[test]
fn join_puts_the_separator_between_parts() {
    let parts = vec!["a".to_string(), "".to_string(), "bc".to_string()];
    assert_eq!(join(&parts, "&"), "a&&bc");
    assert_eq!(join(&parts, ", "), "a, , bc");
    assert_eq!(join(&parts[..1].to_vec(), "&"), "a");
    assert_eq!(join(&Vec::new(), "&"), "");
}

#[test]
fn the_addresses_of_the_data_server() {
    assert_eq!(metadata_url("http://localhost:8000"), "http://localhost:8000/metadata");
    assert_eq!(
        data_url("http://localhost:8000", &query(Some("u10"), Some("700464"), None, &[])),
        "http://localhost:8000/data?vars=u10&time=700464&format=json"
    );
    assert_eq!(data_url("", &query(None, None, None, &[])), "/data?format=json");
}

#[test]
fn a_scalar_is_asked_for_by_its_name() {
    let info = variable("t2m", VariableType::Scalar);
    assert_eq!(
        variable_data_url("http://b", &info, "700464"),
        "http://b/data?vars=t2m&time=700464&format=json"
    );
}

#[test]
fn a_vector_is_asked_for_by_both_components() {
    let info = variable(
        "u10",
        VariableType::Vector { u_component: "u10".to_string(), v_component: "v10".to_string() },
    );
    assert_eq!(
        variable_data_url("http://b", &info, "700464.5"),
        "http://b/data?vars=u10,v10&time=700464.5&format=json"
    );
}

#[test]
fn a_success_is_passed_on() {
    assert!(check_backend_answer(Some(200)).is_ok());
    assert!(check_backend_answer(Some(204)).is_ok());
    assert!(check_backend_answer(Some(299)).is_ok());
}

#[test]
fn any_other_status_is_a_backend_status_error() {
    for status in [100u16, 199, 300, 301, 404, 500, 503, 999, 0] {
        match check_backend_answer(Some(status)) {
            Err(GatewayError::BackendStatus { status: carried }) => assert_eq!(carried, status),
            other => panic!("expected a backend status error, got {:?}", other),
        }
    }
}

#[test]
fn no_answer_is_a_connection_error() {
    let outcome = check_backend_answer(None);
    assert!(matches!(outcome, Err(GatewayError::Unreachable)));
    assert_eq!(outcome.unwrap_err().kind(), ErrorKind::Connection);
}

#[test]
fn the_head_of_a_relayed_answer() {
    let head = relay_head(ProxyMode::Passthrough);
    assert_eq!(head.status, 200);
    assert_eq!(head.headers, pairs(&[("content-type", "application/json")]));
    let head = relay_head(ProxyMode::Streaming);
    assert_eq!(head.status, 200);
    assert_eq!(
        head.headers,
        pairs(&[("content-type", "application/json"), ("transfer-encoding", "chunked")])
    );
}

#[test]
fn each_failure_has_its_kind() {
    let detail = || "d".to_string();
    assert_eq!(GatewayError::Unreachable.kind(), ErrorKind::Connection);
    assert_eq!(GatewayError::BodyUnreadable.kind(), ErrorKind::Connection);
    assert_eq!(
        GatewayError::FetchFailed { what: Payload::Metadata, detail: detail() }.kind(),
        ErrorKind::Connection
    );
    assert_eq!(GatewayError::BackendStatus { status: 404 }.kind(), ErrorKind::BackendStatus);
    assert_eq!(
        GatewayError::ParseFailed { what: Payload::ScalarData, detail: detail() }.kind(),
        ErrorKind::Parse
    );
    assert_eq!(GatewayError::SerializeFailed { detail: detail() }.kind(), ErrorKind::Parse);
    assert_eq!(
        GatewayError::MissingVariable { name: detail() }.kind(),
        ErrorKind::MissingVariable
    );
    assert_eq!(GatewayError::MissingGridMetadata.kind(), ErrorKind::MissingGridMetadata);
}

#[test]
fn each_failure_has_its_text() {
    assert_eq!(GatewayError::Unreachable.message(), "Failed to connect to backend server");
    assert_eq!(GatewayError::BodyUnreadable.message(), "Failed to read response body");
    assert_eq!(
        GatewayError::FetchFailed { what: Payload::Metadata, detail: "timed out".to_string() }
            .message(),
        "Failed to fetch metadata: timed out"
    );
    assert_eq!(
        GatewayError::FetchFailed { what: Payload::VectorData, detail: "x".to_string() }.message(),
        "Failed to fetch vector data: x"
    );
    assert_eq!(
        GatewayError::ParseFailed { what: Payload::ScalarData, detail: "eof".to_string() }
            .message(),
        "Failed to parse scalar data: eof"
    );
    assert_eq!(
        GatewayError::SerializeFailed { detail: "nan".to_string() }.message(),
        "Failed to serialize response: nan"
    );
    assert_eq!(
        GatewayError::MissingVariable { name: "sp".to_string() }.message(),
        "Variable 'sp' not found in metadata"
    );
    assert_eq!(GatewayError::MissingGridMetadata.message(), "Invalid grid metadata");
}

#[test]
fn the_text_of_a_status_is_its_status_line() {
    assert_eq!(
        GatewayError::BackendStatus { status: 404 }.message(),
        "Backend server error: 404 Not Found"
    );
    assert_eq!(
        GatewayError::BackendStatus { status: 503 }.message(),
        "Backend server error: 503 Service Unavailable"
    );
    assert_eq!(
        GatewayError::BackendStatus { status: 999 }.message(),
        "Backend server error: 999 <unknown status code>"
    );
    assert_eq!(
        GatewayError::BackendStatus { status: 99 }.message(),
        "Backend server error: <unknown status code>"
    );
    assert_eq!(
        GatewayError::BackendStatus { status: 1000 }.message(),
        "Backend server error: <unknown status code>"
    );
}

#[test]
fn every_failure_reaches_the_client_as_a_bad_gateway() {
    let error = GatewayError::MissingGridMetadata.into_app_error();
    assert!(matches!(&error, AppError::ProxyError(detail) if detail == "Invalid grid metadata"));
    assert_eq!(error.status_code(), 502);
    assert_eq!(error.message(), "Proxy error: Invalid grid metadata");
    let error = GatewayError::BackendStatus { status: 500 }.into_app_error();
    assert_eq!(
        error.message(),
        "Proxy error: Backend server error: 500 Internal Server Error"
    );
}

#[test]
fn each_error_has_its_status_and_text() {
    let server = AppError::ServerError("disk full".to_string());
    assert_eq!(server.status_code(), 500);
    assert_eq!(server.message(), "Server error: disk full");
    let proxy = AppError::ProxyError("down".to_string());
    assert_eq!(proxy.status_code(), 502);
    assert_eq!(proxy.message(), "Proxy error: down");
    let request = AppError::RequestError("bad vars".to_string());
    assert_eq!(request.status_code(), 400);
    assert_eq!(request.message(), "Request error: bad vars");
}

#[test]
fn the_start_page_is_sent_as_html() {
    let response = index_response(Some("<html>é</html>".as_bytes().to_vec()));
    assert_eq!(response.status, 200);
    assert_eq!(response.content_type, set("text/html; charset=utf-8"));
    assert!(matches!(&response.body, AssetBody::Text(page) if page == "<html>é</html>"));
}

#[test]
fn a_start_page_that_is_no_text_is_a_server_error() {
    let response = index_response(Some(vec![0x3c, 0xff, 0x3e]));
    assert_eq!(response.status, 500);
    assert_eq!(response.content_type, None);
    assert!(matches!(&response.body, AssetBody::Text(t) if t == "Failed to decode index.html"));
}

#[test]
fn a_missing_start_page_is_not_found() {
    let response = index_response(None);
    assert_eq!(response.status, 404);
    assert_eq!(response.content_type, None);
    assert!(matches!(&response.body, AssetBody::Text(t) if t == "index.html not found"));
}

#[test]
fn a_file_is_sent_under_its_media_type() {
    let response = asset_response("text/css".to_string(), Some(vec![1, 2, 3]));
    assert_eq!(response.status, 200);
    assert_eq!(response.content_type, set("text/css"));
    assert!(matches!(&response.body, AssetBody::Bytes(b) if b == &vec![1u8, 2, 3]));
    let response = asset_response("text/css".to_string(), None);
    assert_eq!(response.status, 404);
    assert_eq!(response.content_type, set("text/plain"));
    assert!(matches!(&response.body, AssetBody::Text(t) if t == "Asset not found"));
}

#[test]
fn the_media_type_is_guessed_from_the_path() {
    let response = static_asset_response("styles/styles.css", Some(vec![9]));
    assert_eq!(response.status, 200);
    assert_eq!(response.content_type, set("text/css"));
    assert!(matches!(&response.body, AssetBody::Bytes(b) if b == &vec![9u8]));
    let response = static_asset_response("index.html", Some(Vec::new()));
    assert_eq!(response.content_type, set("text/html"));
    let response = static_asset_response("data/blob", Some(Vec::new()));
    assert_eq!(response.content_type, set("application/octet-stream"));
    let response = static_asset_response("nonexistent.file", None);
    assert_eq!(response.status, 404);
    assert_eq!(response.content_type, set("text/plain"));
}
