//! The crate's error type. Each variant carries the message of the failure
//! it wraps; `message` renders the conventional prefixed text.

use vstd::prelude::*;

use vstd::string::StringExecFns;

verus! {

/// Everything that can go wrong in the proxy, by origin.
#[derive(Debug, Clone)]
pub enum RilotError {
    ConfigError(String),
    WasmError(String),
    ProxyError(String),
    IoError(String),
    HttpError(String),
    InvalidHeader(String),
    InvalidUri(String),
    SerializationError(String),
    Unknown(String),
}

/// The rendered text of an error: a fixed prefix naming the origin, then
/// the carried message.
pub open spec fn spec_message(e: RilotError) -> Seq<char> {
    match e {
        RilotError::ConfigError(m) => "Configuration error: "@ + m@,
        RilotError::WasmError(m) => "WASM error: "@ + m@,
        RilotError::ProxyError(m) => "Proxy error: "@ + m@,
        RilotError::IoError(m) => "IO error: "@ + m@,
        RilotError::HttpError(m) => "HTTP error: "@ + m@,
        RilotError::InvalidHeader(m) => "Invalid header: "@ + m@,
        RilotError::InvalidUri(m) => "Invalid URI: "@ + m@,
        RilotError::SerializationError(m) => "Serialization error: "@ + m@,
        RilotError::Unknown(m) => "Unknown error: "@ + m@,
    }
}

impl RilotError {
    /// Renders this error as its conventional text.
    pub fn message(&self) -> (r: String)
        ensures
            r@ == spec_message(*self),
    {
        match self {
            RilotError::ConfigError(m) => "Configuration error: ".to_owned().concat(m.as_str()),
            RilotError::WasmError(m) => "WASM error: ".to_owned().concat(m.as_str()),
            RilotError::ProxyError(m) => "Proxy error: ".to_owned().concat(m.as_str()),
            RilotError::IoError(m) => "IO error: ".to_owned().concat(m.as_str()),
            RilotError::HttpError(m) => "HTTP error: ".to_owned().concat(m.as_str()),
            RilotError::InvalidHeader(m) => "Invalid header: ".to_owned().concat(m.as_str()),
            RilotError::InvalidUri(m) => "Invalid URI: ".to_owned().concat(m.as_str()),
            RilotError::SerializationError(m) => "Serialization error: ".to_owned().concat(
                m.as_str(),
            ),
            RilotError::Unknown(m) => "Unknown error: ".to_owned().concat(m.as_str()),
        }
    }
}

} // verus!
