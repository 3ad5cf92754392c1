//! Errors of the Engine client.
use vstd::prelude::*;
use vstd::string::to_string_from_display_ensures;

verus! {

/// What went wrong when talking to the Engine.
#[derive(Debug)]
pub enum DockerError {
    /// The Engine answered with an error.
    Api(String),
    /// Reading or writing failed.
    Io(std::io::Error),
    /// The HTTP exchange failed.
    Http(reqwest::Error),
    /// A body was not the JSON expected.
    Json(serde_json::Error),
}

impl DockerError {
    /// The text that reports this error: a prefix naming its kind, then the
    /// message of the Engine or the text of the underlying error.
    pub fn message(&self) -> (r: String)
        ensures
            match self {
                DockerError::Api(msg) => r@ == "docker API error: "@ + msg@,
                DockerError::Io(e) => exists|t: String|
                    to_string_from_display_ensures::<std::io::Error>(e, t) && r@ == "IO error: "@
                        + t@,
                DockerError::Http(e) => exists|t: String|
                    to_string_from_display_ensures::<reqwest::Error>(e, t) && r@ == "HTTP error: "@
                        + t@,
                DockerError::Json(e) => exists|t: String|
                    to_string_from_display_ensures::<serde_json::Error>(e, t) && r@
                        == "JSON error: "@ + t@,
            },
    {
        match self {
            DockerError::Api(msg) => {
                let mut m = String::from_str("docker API error: ");
                m.append(msg.as_str());
                m
            },
            DockerError::Io(e) => {
                let t = e.to_string();
                let mut m = String::from_str("IO error: ");
                m.append(t.as_str());
                m
            },
            DockerError::Http(e) => {
                let t = e.to_string();
                let mut m = String::from_str("HTTP error: ");
                m.append(t.as_str());
                m
            },
            DockerError::Json(e) => {
                let t = e.to_string();
                let mut m = String::from_str("JSON error: ");
                m.append(t.as_str());
                m
            },
        }
    }
}

impl From<std::io::Error> for DockerError {
    fn from(err: std::io::Error) -> (r: Self) {
        DockerError::Io(err)
    }
}

impl vstd::std_specs::convert::FromSpecImpl<std::io::Error> for DockerError {
    open spec fn obeys_from_spec() -> bool {
        true
    }

    open spec fn from_spec(err: std::io::Error) -> Self {
        DockerError::Io(err)
    }
}

impl From<reqwest::Error> for DockerError {
    fn from(err: reqwest::Error) -> (r: Self) {
        DockerError::Http(err)
    }
}

impl vstd::std_specs::convert::FromSpecImpl<reqwest::Error> for DockerError {
    open spec fn obeys_from_spec() -> bool {
        true
    }

    open spec fn from_spec(err: reqwest::Error) -> Self {
        DockerError::Http(err)
    }
}

impl From<serde_json::Error> for DockerError {
    fn from(err: serde_json::Error) -> (r: Self) {
        DockerError::Json(err)
    }
}

impl vstd::std_specs::convert::FromSpecImpl<serde_json::Error> for DockerError {
    open spec fn obeys_from_spec() -> bool {
        true
    }

    open spec fn from_spec(err: serde_json::Error) -> Self {
        DockerError::Json(err)
    }
}

} // verus!
