//! What can go wrong between the client and the data server, and how each
//! failure is reported to the client.

use vstd::prelude::*;
use vstd::string::*;

verus! {

/// An error as the client sees it.
#[derive(Debug)]
pub enum AppError {
    /// The server itself failed; the text describes the failure.
    ServerError(String),
    /// A request to the data server failed.
    ProxyError(String),
    /// The client's request could not be understood.
    RequestError(String),
}

impl AppError {
    /// The HTTP status under which the error is reported.
    pub open spec fn status(self) -> u16 {
        match self {
            AppError::ServerError(_) => 500,
            AppError::ProxyError(_) => 502,
            AppError::RequestError(_) => 400,
        }
    }

    /// The text of the error.
    pub open spec fn text(self) -> Seq<char> {
        match self {
            AppError::ServerError(detail) => "Server error: "@ + detail@,
            AppError::ProxyError(detail) => "Proxy error: "@ + detail@,
            AppError::RequestError(detail) => "Request error: "@ + detail@,
        }
    }

    /// The HTTP status under which the error is reported: an internal error,
    /// a bad gateway or a bad request.
    pub fn status_code(&self) -> (code: u16)
        ensures
            code == self.status(),
    {
        match self {
            AppError::ServerError(_) => 500,
            AppError::ProxyError(_) => 502,
            AppError::RequestError(_) => 400,
        }
    }

    /// The text of the error, as the response body reports it.
    pub fn message(&self) -> (message: String)
        ensures
            message@ == self.text(),
    {
        match self {
            AppError::ServerError(detail) => {
                let mut message = String::from_str("Server error: ");
                message.append(detail.as_str());
                message
            },
            AppError::ProxyError(detail) => {
                let mut message = String::from_str("Proxy error: ");
                message.append(detail.as_str());
                message
            },
            AppError::RequestError(detail) => {
                let mut message = String::from_str("Request error: ");
                message.append(detail.as_str());
                message
            },
        }
    }
}

/// What the gateway was fetching or reading when a step failed.
#[derive(Clone, Copy, Debug, PartialEq, Eq, Structural)]
pub enum Payload {
    Metadata,
    VectorData,
    ScalarData,
}

impl Payload {
    /// The words for the payload in an error text.
    pub open spec fn words(self) -> Seq<char> {
        match self {
            Payload::Metadata => "metadata"@,
            Payload::VectorData => "vector data"@,
            Payload::ScalarData => "scalar data"@,
        }
    }

    /// The words for the payload in an error text.
    pub fn name(&self) -> (name: &'static str)
        ensures
            name@ == self.words(),
    {
        match self {
            Payload::Metadata => "metadata",
            Payload::VectorData => "vector data",
            Payload::ScalarData => "scalar data",
        }
    }
}

/// The kinds of failure of the gateway.
#[derive(Clone, Copy, Debug, PartialEq, Eq, Structural)]
pub enum ErrorKind {
    /// The data server could not be reached, or its answer could not be read.
    Connection,
    /// The data server answered with a status other than success.
    BackendStatus,
    /// A document was malformed.
    Parse,
    /// The requested variable is not among the variables of the metadata.
    MissingVariable,
    /// The metadata lack what the grid is derived from.
    MissingGridMetadata,
}

/// A failure of the gateway. None is retried; each ends the request.
#[derive(Debug)]
pub enum GatewayError {
    /// The data server could not be reached.
    Unreachable,
    /// The body of the data server's answer could not be read.
    BodyUnreadable,
    /// A fetch failed; `detail` is what the transport reported.
    FetchFailed { what: Payload, detail: String },
    /// The data server answered with the status `status`, which is no success.
    BackendStatus { status: u16 },
    /// A document could not be parsed; `detail` is what the parser reported.
    ParseFailed { what: Payload, detail: String },
    /// The answer could not be written out; `detail` is what the writer reported.
    SerializeFailed { detail: String },
    /// The variable `name` is not among the variables of the metadata.
    MissingVariable { name: String },
    /// The metadata lack what the grid is derived from.
    MissingGridMetadata,
}

/// The status line of an HTTP status code between 100 and 999: the code, a
/// blank, and the reason phrase that `http` knows for it.
pub uninterp spec fn status_line(code: u16) -> Seq<char>;

/// `http::StatusCode::from_u16` and the `Display` of the status code. A code
/// from 100 to 999 is a status code and has a status line, which the contract
/// names; no other number is one.
#[verifier::external_body]
fn status_code_text(code: u16) -> (line: Option<String>)
    ensures
        line is Some <==> 100 <= code < 1000,
        line matches Some(text) ==> text@ == status_line(code),
{
    axum::http::StatusCode::from_u16(code).ok().map(|status| status.to_string())
}

/// The text for the status of a backend answer: its status line, or a fixed
/// text for a number that is no status code.
pub open spec fn status_words(code: u16) -> Seq<char> {
    if 100 <= code < 1000 {
        status_line(code)
    } else {
        "<unknown status code>"@
    }
}

impl GatewayError {
    /// The kind of the failure.
    pub open spec fn spec_kind(self) -> ErrorKind {
        match self {
            GatewayError::Unreachable => ErrorKind::Connection,
            GatewayError::BodyUnreadable => ErrorKind::Connection,
            GatewayError::FetchFailed { .. } => ErrorKind::Connection,
            GatewayError::BackendStatus { .. } => ErrorKind::BackendStatus,
            GatewayError::ParseFailed { .. } => ErrorKind::Parse,
            GatewayError::SerializeFailed { .. } => ErrorKind::Parse,
            GatewayError::MissingVariable { .. } => ErrorKind::MissingVariable,
            GatewayError::MissingGridMetadata => ErrorKind::MissingGridMetadata,
        }
    }

    /// The text that describes the failure.
    pub open spec fn text(self) -> Seq<char> {
        match self {
            GatewayError::Unreachable => "Failed to connect to backend server"@,
            GatewayError::BodyUnreadable => "Failed to read response body"@,
            GatewayError::FetchFailed { what, detail } => "Failed to fetch "@ + what.words() + ": "@
                + detail@,
            GatewayError::BackendStatus { status } => "Backend server error: "@ + status_words(
                status,
            ),
            GatewayError::ParseFailed { what, detail } => "Failed to parse "@ + what.words() + ": "@
                + detail@,
            GatewayError::SerializeFailed { detail } => "Failed to serialize response: "@ + detail@,
            GatewayError::MissingVariable { name } => "Variable '"@ + name@
                + "' not found in metadata"@,
            GatewayError::MissingGridMetadata => "Invalid grid metadata"@,
        }
    }

    /// The kind of the failure.
    pub fn kind(&self) -> (kind: ErrorKind)
        ensures
            kind == self.spec_kind(),
    {
        match self {
            GatewayError::Unreachable => ErrorKind::Connection,
            GatewayError::BodyUnreadable => ErrorKind::Connection,
            GatewayError::FetchFailed { .. } => ErrorKind::Connection,
            GatewayError::BackendStatus { .. } => ErrorKind::BackendStatus,
            GatewayError::ParseFailed { .. } => ErrorKind::Parse,
            GatewayError::SerializeFailed { .. } => ErrorKind::Parse,
            GatewayError::MissingVariable { .. } => ErrorKind::MissingVariable,
            GatewayError::MissingGridMetadata => ErrorKind::MissingGridMetadata,
        }
    }

    /// The text that describes the failure.
    pub fn message(&self) -> (message: String)
        ensures
            message@ == self.text(),
    {
        match self {
            GatewayError::Unreachable => String::from_str("Failed to connect to backend server"),
            GatewayError::BodyUnreadable => String::from_str("Failed to read response body"),
            GatewayError::FetchFailed { what, detail } => {
                let mut message = String::from_str("Failed to fetch ");
                message.append(what.name());
                message.append(": ");
                message.append(detail.as_str());
                message
            },
            GatewayError::BackendStatus { status } => {
                let mut message = String::from_str("Backend server error: ");
                match status_code_text(*status) {
                    Some(line) => {
                        message.append(line.as_str());
                    },
                    None => {
                        message.append("<unknown status code>");
                    },
                }
                message
            },
            GatewayError::ParseFailed { what, detail } => {
                let mut message = String::from_str("Failed to parse ");
                message.append(what.name());
                message.append(": ");
                message.append(detail.as_str());
                message
            },
            GatewayError::SerializeFailed { detail } => {
                let mut message = String::from_str("Failed to serialize response: ");
                message.append(detail.as_str());
                message
            },
            GatewayError::MissingVariable { name } => {
                let mut message = String::from_str("Variable '");
                message.append(name.as_str());
                message.append("' not found in metadata");
                message
            },
            GatewayError::MissingGridMetadata => String::from_str("Invalid grid metadata"),
        }
    }

    /// The error as the client sees it: every failure of the gateway is
    /// reported as a failed request to the data server.
    pub fn into_app_error(self) -> (error: AppError)
        ensures
            error matches AppError::ProxyError(detail) && detail@ == self.text(),
    {
        AppError::ProxyError(self.message())
    }
}

} // verus!
