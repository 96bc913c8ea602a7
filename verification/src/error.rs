//! Errors of the library and the program around it.

use vstd::prelude::*;
use vstd::string::to_string_from_display_ensures;

verus! {

/// Makes `std::io::Error` known to Verus as an opaque type, so that an error
/// can carry it; nothing is assumed of what it holds.
#[verifier::external_type_specification]
#[verifier::external_body]
pub struct ExIoError(std::io::Error);

/// Makes `serde_json::Error` known to Verus as an opaque type, so that an
/// error can carry it; nothing is assumed of what it holds.
#[verifier::external_type_specification]
#[verifier::external_body]
pub struct ExJsonError(serde_json::Error);

/// Every error that training a network on a logic gate can report.
#[derive(Debug)]
pub enum GateLearnerError {
    /// The network architecture configuration is invalid.
    InvalidArchitecture(String),
    /// An I/O operation failed.
    Io(std::io::Error),
    /// JSON serialisation or deserialisation failed.
    Json(serde_json::Error),
    /// Plotting failed.
    Plot(String),
    /// The requested feature is not compiled in.
    FeatureNotEnabled(String),
}

impl GateLearnerError {
    /// The human-readable text of the error, as its `Display` would print it:
    /// a prefix naming the kind of error, then its message; for I/O and JSON
    /// errors the message is what the wrapped error displays.
    pub fn to_string(&self) -> (s: String)
        ensures
            self matches GateLearnerError::InvalidArchitecture(d) ==> s@ == "invalid network architecture: "@ + d@,
            self matches GateLearnerError::Plot(d) ==> s@ == "plotting error: "@ + d@,
            self matches GateLearnerError::FeatureNotEnabled(d) ==> s@ == "feature not enabled: "@ + d@,
            self matches GateLearnerError::Io(e) ==> exists|t: String|
                to_string_from_display_ensures::<std::io::Error>(e, t) && s@ == "I/O error: "@ + t@,
            self matches GateLearnerError::Json(e) ==> exists|t: String|
                to_string_from_display_ensures::<serde_json::Error>(e, t) && s@ == "JSON error: "@ + t@,
    {
        match self {
            GateLearnerError::InvalidArchitecture(d) => {
                let mut s = String::from_str("invalid network architecture: ");
                s.append(d.as_str());
                s
            },
            GateLearnerError::Io(e) => {
                let t = e.to_string();
                let mut s = String::from_str("I/O error: ");
                s.append(t.as_str());
                s
            },
            GateLearnerError::Json(e) => {
                let t = e.to_string();
                let mut s = String::from_str("JSON error: ");
                s.append(t.as_str());
                s
            },
            GateLearnerError::Plot(d) => {
                let mut s = String::from_str("plotting error: ");
                s.append(d.as_str());
                s
            },
            GateLearnerError::FeatureNotEnabled(d) => {
                let mut s = String::from_str("feature not enabled: ");
                s.append(d.as_str());
                s
            },
        }
    }
}

impl From<std::io::Error> for GateLearnerError {
    fn from(e: std::io::Error) -> (r: Self) {
        GateLearnerError::Io(e)
    }
}

impl vstd::std_specs::convert::FromSpecImpl<std::io::Error> for GateLearnerError {
    open spec fn obeys_from_spec() -> bool {
        true
    }

    open spec fn from_spec(v: std::io::Error) -> Self {
        GateLearnerError::Io(v)
    }
}

impl From<serde_json::Error> for GateLearnerError {
    fn from(e: serde_json::Error) -> (r: Self) {
        GateLearnerError::Json(e)
    }
}

impl vstd::std_specs::convert::FromSpecImpl<serde_json::Error> for GateLearnerError {
    open spec fn obeys_from_spec() -> bool {
        true
    }

    open spec fn from_spec(v: serde_json::Error) -> Self {
        GateLearnerError::Json(v)
    }
}

} // verus!
