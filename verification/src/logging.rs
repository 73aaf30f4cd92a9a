//! The settings of the log output, and the identifiers that tie the log
//! lines of one request together.

use vstd::prelude::*;
use vstd::string::*;
use crate::text::{lowercase_of, to_lowercase};

verus! {

/// The form of the log output.
#[derive(Clone, Copy, Debug, PartialEq, Eq, Structural)]
pub enum LogFormat {
    /// Text for a reader.
    Text,
    /// One JSON object per line.
    Json,
    /// Short text.
    Compact,
}

/// The format that a name in lower case stands for.
pub open spec fn format_named(lower: Seq<char>) -> Option<LogFormat> {
    if lower == "text"@ || lower == "pretty"@ {
        Some(LogFormat::Text)
    } else if lower == "json"@ {
        Some(LogFormat::Json)
    } else if lower == "compact"@ {
        Some(LogFormat::Compact)
    } else {
        None
    }
}

/// What reading a format from `text` yields: the format whose name `text`
/// is, in any case of letters, or a message that quotes `text`.
pub open spec fn parsed_format(text: Seq<char>) -> Result<LogFormat, Seq<char>> {
    match format_named(lowercase_of(text)) {
        Some(format) => Ok(format),
        None => Err("Invalid log format: "@ + text + ". Valid options: text, json, compact"@),
    }
}

impl LogFormat {
    /// The format that `lower`, a name in lower case, stands for.
    pub fn from_lowercase(lower: &str) -> (format: Option<LogFormat>)
        ensures
            format == format_named(lower@),
    {
        let name = lower.to_owned();
        if name == String::from_str("text") || name == String::from_str("pretty") {
            Some(LogFormat::Text)
        } else if name == String::from_str("json") {
            Some(LogFormat::Json)
        } else if name == String::from_str("compact") {
            Some(LogFormat::Compact)
        } else {
            None
        }
    }

    /// Reads a format from its name, in any case of letters.
    pub fn parse(text: &str) -> (outcome: Result<LogFormat, String>)
        ensures
            match parsed_format(text@) {
                Ok(format) => outcome == Ok::<LogFormat, String>(format),
                Err(message) => outcome matches Err(m) && m@ == message,
            },
    {
        let lower = to_lowercase(text);
        match LogFormat::from_lowercase(lower.as_str()) {
            Some(format) => Ok(format),
            None => {
                let mut message = String::from_str("Invalid log format: ");
                message.append(text);
                message.append(". Valid options: text, json, compact");
                Err(message)
            },
        }
    }
}

impl std::str::FromStr for LogFormat {
    type Err = String;

    fn from_str(s: &str) -> (outcome: Result<Self, Self::Err>)
        ensures
            match parsed_format(s@) {
                Ok(format) => outcome == Ok::<LogFormat, String>(format),
                Err(message) => outcome matches Err(m) && m@ == message,
            },
    {
        LogFormat::parse(s)
    }
}

/// The settings of the log output.
#[derive(Clone, Debug)]
pub struct LoggingConfig {
    /// The filter of log levels, such as "info" or "debug".
    pub level: String,
    /// The form of the output.
    pub format: LogFormat,
    /// Whether each request is traced under an identifier.
    pub enable_request_tracing: bool,
    /// Whether the use of the machine is logged.
    pub enable_metrics: bool,
    /// Whether traces are sent to a collector.
    pub enable_distributed_tracing: bool,
    /// Where the collector of traces listens.
    pub jaeger_endpoint: Option<String>,
    /// The name of the service in logs and traces.
    pub service_name: String,
    /// The name of the environment: development, staging, production.
    pub environment: String,
}

/// The mathematical value of a `LoggingConfig`.
pub struct ConfigView {
    pub level: Seq<char>,
    pub format: LogFormat,
    pub enable_request_tracing: bool,
    pub enable_metrics: bool,
    pub enable_distributed_tracing: bool,
    pub jaeger_endpoint: Option<Seq<char>>,
    pub service_name: Seq<char>,
    pub environment: Seq<char>,
}

impl View for LoggingConfig {
    type V = ConfigView;

    open spec fn view(&self) -> ConfigView {
        ConfigView {
            level: self.level@,
            format: self.format,
            enable_request_tracing: self.enable_request_tracing,
            enable_metrics: self.enable_metrics,
            enable_distributed_tracing: self.enable_distributed_tracing,
            jaeger_endpoint: match self.jaeger_endpoint {
                Some(endpoint) => Some(endpoint@),
                None => None,
            },
            service_name: self.service_name@,
            environment: self.environment@,
        }
    }
}

/// The settings that hold where nothing else is said.
pub open spec fn default_config() -> ConfigView {
    ConfigView {
        level: "info"@,
        format: LogFormat::Text,
        enable_request_tracing: true,
        enable_metrics: true,
        enable_distributed_tracing: false,
        jaeger_endpoint: None,
        service_name: "rossby-vis"@,
        environment: "development"@,
    }
}

impl Default for LoggingConfig {
    fn default() -> (config: Self)
        ensures
            config@ == default_config(),
    {
        LoggingConfig {
            level: String::from_str("info"),
            format: LogFormat::Text,
            enable_request_tracing: true,
            enable_metrics: true,
            enable_distributed_tracing: false,
            jaeger_endpoint: None,
            service_name: String::from_str("rossby-vis"),
            environment: String::from_str("development"),
        }
    }
}

/// The variables of the environment that the settings are read from; `None`
/// stands for a variable that is not set.
#[derive(Clone, Debug)]
pub struct EnvSnapshot {
    pub rust_log: Option<String>,
    pub log_level: Option<String>,
    pub log_format: Option<String>,
    pub enable_request_tracing: Option<String>,
    pub enable_metrics: Option<String>,
    pub enable_distributed_tracing: Option<String>,
    pub jaeger_endpoint: Option<String>,
    pub service_name: Option<String>,
    pub environment: Option<String>,
    pub deployment_env: Option<String>,
}

/// The text of the first variable that is set, or `fallback`.
pub open spec fn first_set(first: Option<String>, second: Option<String>, fallback: Seq<char>) -> Seq<
    char,
> {
    match first {
        Some(text) => text@,
        None => match second {
            Some(text) => text@,
            None => fallback,
        },
    }
}

/// The switch that a variable sets: `true` or `false` where it holds that
/// word, `fallback` where it is not set or holds anything else.
pub open spec fn switch_of(variable: Option<String>, fallback: bool) -> bool {
    match variable {
        Some(text) => if text@ == "true"@ {
            true
        } else if text@ == "false"@ {
            false
        } else {
            fallback
        },
        None => fallback,
    }
}

/// The format that a variable sets: the one that it names, or the text
/// format where it is not set or names none.
pub open spec fn format_from(variable: Option<String>) -> LogFormat {
    match variable {
        Some(text) => match format_named(lowercase_of(text@)) {
            Some(format) => format,
            None => LogFormat::Text,
        },
        None => LogFormat::Text,
    }
}

/// The settings that an environment calls for.
pub open spec fn config_from(env: EnvSnapshot) -> ConfigView {
    ConfigView {
        level: first_set(env.rust_log, env.log_level, "info"@),
        format: format_from(env.log_format),
        enable_request_tracing: switch_of(env.enable_request_tracing, true),
        enable_metrics: switch_of(env.enable_metrics, true),
        enable_distributed_tracing: env.jaeger_endpoint is Some || switch_of(
            env.enable_distributed_tracing,
            false,
        ),
        jaeger_endpoint: match env.jaeger_endpoint {
            Some(endpoint) => Some(endpoint@),
            None => None,
        },
        service_name: first_set(env.service_name, None, "rossby-vis"@),
        environment: first_set(env.environment, env.deployment_env, "development"@),
    }
}

fn pick_first(first: &Option<String>, second: &Option<String>, fallback: &str) -> (text: String)
    ensures
        text@ == first_set(*first, *second, fallback@),
{
    match first {
        Some(text) => text.clone(),
        None => match second {
            Some(text) => text.clone(),
            None => String::from_str(fallback),
        },
    }
}

fn read_switch(variable: &Option<String>, fallback: bool) -> (on: bool)
    ensures
        on == switch_of(*variable, fallback),
{
    match variable {
        Some(text) => if *text == String::from_str("true") {
            true
        } else if *text == String::from_str("false") {
            false
        } else {
            fallback
        },
        None => fallback,
    }
}

impl LoggingConfig {
    /// The settings that the environment calls for. The level comes from
    /// `RUST_LOG`, else from `LOG_LEVEL`; the environment name from
    /// `ENVIRONMENT`, else from `DEPLOYMENT_ENV`. A collector endpoint
    /// switches the sending of traces on, whatever its own switch says.
    pub fn from_env(env: &EnvSnapshot) -> (config: Self)
        ensures
            config@ == config_from(*env),
    {
        let format = match &env.log_format {
            Some(text) => match LogFormat::parse(text.as_str()) {
                Ok(format) => format,
                Err(_) => LogFormat::Text,
            },
            None => LogFormat::Text,
        };
        let traces = read_switch(&env.enable_distributed_tracing, false);
        let jaeger_endpoint = match &env.jaeger_endpoint {
            Some(endpoint) => Some(endpoint.clone()),
            None => None,
        };
        LoggingConfig {
            level: pick_first(&env.rust_log, &env.log_level, "info"),
            format,
            enable_request_tracing: read_switch(&env.enable_request_tracing, true),
            enable_metrics: read_switch(&env.enable_metrics, true),
            enable_distributed_tracing: env.jaeger_endpoint.is_some() || traces,
            jaeger_endpoint,
            service_name: pick_first(&env.service_name, &None, "rossby-vis"),
            environment: pick_first(&env.environment, &env.deployment_env, "development"),
        }
    }
}

/// A character of a number in base sixteen, in lower case.
pub open spec fn is_lower_hex(c: char) -> bool {
    ('0' <= c && c <= '9') || ('a' <= c && c <= 'f')
}

/// The form of a random identifier: 36 characters, of which four are
/// hyphens that part groups of 8, 4, 4, 4 and 12 digits in base sixteen. The
/// third group begins with the version, 4; the fourth begins with the
/// variant, a digit from 8 to b.
pub open spec fn is_random_id(id: Seq<char>) -> bool {
    &&& id.len() == 36
    &&& forall|i: int|
        0 <= i < 36 ==> if i == 8 || i == 13 || i == 18 || i == 23 {
            #[trigger] id[i] == '-'
        } else {
            is_lower_hex(id[i])
        }
    &&& id[14] == '4'
    &&& (id[19] == '8' || id[19] == '9' || id[19] == 'a' || id[19] == 'b')
}

/// `uuid::Uuid::new_v4` and the `Display` of the identifier, which writes it
/// in lower case with hyphens. The identifier is random: the contract states
/// its form, with the digits that the version and the variant fix, and
/// nothing of its other digits.
#[verifier::external_body]
fn random_id() -> (id: String)
    ensures
        is_random_id(id@),
{
    uuid::Uuid::new_v4().to_string()
}

/// Makes a new identifier for a request.
pub fn generate_request_id() -> (id: String)
    ensures
        is_random_id(id@),
{
    random_id()
}

} // verus!
