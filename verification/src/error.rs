//! The errors of the gateway, and which of them make it try the next backend.

use vstd::prelude::*;

use crate::json::{Json, JsonView};
use crate::text::{concat2, decimal, decimal_text};

verus! {

/// An error of the gateway.
#[derive(Debug, Clone, PartialEq)]
pub enum GatewayError {
    UnknownAlias(String),
    AllFallbacksExhausted(String),
    BackendRequestFailed(String),
    BackendError { status: u16, body: String },
    ConfigError(String),
    Internal(String),
}

/// The model of an error.
pub enum GatewayErrorView {
    UnknownAlias(Seq<char>),
    AllFallbacksExhausted(Seq<char>),
    BackendRequestFailed(Seq<char>),
    BackendError { status: u16, body: Seq<char> },
    ConfigError(Seq<char>),
    Internal(Seq<char>),
}

impl DeepView for GatewayError {
    type V = GatewayErrorView;

    open spec fn deep_view(&self) -> GatewayErrorView {
        match *self {
            GatewayError::UnknownAlias(s) => GatewayErrorView::UnknownAlias(s@),
            GatewayError::AllFallbacksExhausted(s) => GatewayErrorView::AllFallbacksExhausted(s@),
            GatewayError::BackendRequestFailed(s) => GatewayErrorView::BackendRequestFailed(s@),
            GatewayError::BackendError { status, body } => GatewayErrorView::BackendError {
                status,
                body: body@,
            },
            GatewayError::ConfigError(s) => GatewayErrorView::ConfigError(s@),
            GatewayError::Internal(s) => GatewayErrorView::Internal(s@),
        }
    }
}

impl GatewayErrorView {
    /// The text of the error.
    pub open spec fn text(self) -> Seq<char> {
        match self {
            GatewayErrorView::UnknownAlias(s) => "Unknown model alias: "@ + s,
            GatewayErrorView::AllFallbacksExhausted(s) => {
                "All fallback attempts exhausted for alias: "@ + s
            },
            GatewayErrorView::BackendRequestFailed(s) => "Backend request failed: "@ + s,
            GatewayErrorView::BackendError { status, body } => "Backend returned error "@ + decimal(
                status as nat,
            ) + ": "@ + body,
            GatewayErrorView::ConfigError(s) => "Config error: "@ + s,
            GatewayErrorView::Internal(s) => "Internal error: "@ + s,
        }
    }

    /// The HTTP status that the client is answered with.
    pub open spec fn http_status(self) -> u16 {
        match self {
            GatewayErrorView::UnknownAlias(_) => 404,
            GatewayErrorView::AllFallbacksExhausted(_) => 503,
            GatewayErrorView::BackendRequestFailed(_) => 502,
            GatewayErrorView::BackendError { .. } => 502,
            GatewayErrorView::ConfigError(_) => 500,
            GatewayErrorView::Internal(_) => 500,
        }
    }

    /// The JSON that the client is answered with.
    pub open spec fn json(self) -> JsonView {
        JsonView::Object(
            map![
                "error"@ => JsonView::Object(
                    map![
                        "message"@ => JsonView::Str(self.text()),
                        "type"@ => JsonView::Str("gateway_error"@),
                    ],
                ),
            ],
        )
    }
}

/// Whether a backend's status makes the gateway try the next backend: 429 and 500 to 599 do.
pub open spec fn retriable(status: u16) -> bool {
    status == 429 || 500 <= status <= 599
}

/// Whether a backend error should trigger fallback.
pub fn should_fallback(status: u16) -> (r: bool)
    ensures
        r == retriable(status),
{
    status == 429 || (500 <= status && status <= 599)
}

impl GatewayError {
    /// The text of the error.
    pub fn message(&self) -> (r: String)
        ensures
            r@ == self.deep_view().text(),
    {
        match self {
            GatewayError::UnknownAlias(s) => concat2("Unknown model alias: ", s.as_str()),
            GatewayError::AllFallbacksExhausted(s) => concat2(
                "All fallback attempts exhausted for alias: ",
                s.as_str(),
            ),
            GatewayError::BackendRequestFailed(s) => concat2(
                "Backend request failed: ",
                s.as_str(),
            ),
            GatewayError::BackendError { status, body } => {
                let mut out = "Backend returned error ".to_owned();
                out.append(decimal_text(*status as u64).as_str());
                out.append(": ");
                out.append(body.as_str());
                out
            },
            GatewayError::ConfigError(s) => concat2("Config error: ", s.as_str()),
            GatewayError::Internal(s) => concat2("Internal error: ", s.as_str()),
        }
    }

    /// The HTTP status that the client is answered with.
    pub fn status_code(&self) -> (r: u16)
        ensures
            r == self.deep_view().http_status(),
    {
        match self {
            GatewayError::UnknownAlias(_) => 404,
            GatewayError::AllFallbacksExhausted(_) => 503,
            GatewayError::BackendRequestFailed(_) => 502,
            GatewayError::BackendError { .. } => 502,
            GatewayError::ConfigError(_) => 500,
            GatewayError::Internal(_) => 500,
        }
    }

    /// The JSON that the client is answered with.
    pub fn to_json(&self) -> (r: Json)
        ensures
            r@ == self.deep_view().json(),
    {
        Json::object().with(
            "error",
            Json::object().with("message", Json::text(self.message().as_str())).with(
                "type",
                Json::text("gateway_error"),
            ),
        )
    }
}

} // verus!
