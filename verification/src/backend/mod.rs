//! The two protocols that backends speak.

pub mod anthropic_passthrough;
pub mod openai_compat;

use vstd::prelude::*;

use crate::backend::anthropic_passthrough::AnthropicPassthroughAdapter;
use crate::backend::openai_compat::OpenAiCompatAdapter;
use crate::config::ProviderConfig;
use crate::gateway::types::{InternalRequest, InternalRequestView};
use crate::json::{Json, JsonView};
use crate::text::same_text;

verus! {

/// What came of opening a stream.
#[derive(Debug, Clone, PartialEq)]
pub enum StreamReply {
    /// The request could not be sent, and why.
    NotSent(String),
    /// The backend answered with a status that is no success, and with a body where it could be
    /// read.
    Refused { status: u16, body: Option<String> },
    /// The backend answered with success and a content type.
    Opened { content_type: Option<String> },
}

/// Whether an HTTP status is a success.
pub open spec fn success(status: u16) -> bool {
    200 <= status <= 299
}

/// Whether an HTTP status is a success.
pub fn is_success(status: u16) -> (r: bool)
    ensures
        r == success(status),
{
    200 <= status && status <= 299
}

/// The body of a refusal, or what stands for one that could not be read.
pub open spec fn body_text(body: Option<Seq<char>>) -> Seq<char> {
    match body {
        Some(text) => text,
        None => "<unreadable>"@,
    }
}

/// The body of a refusal, or what stands for one that could not be read.
pub fn body_or_unreadable(body: Option<String>) -> (r: String)
    ensures
        r@ == body_text(body.deep_view()),
{
    match body {
        Some(text) => text,
        None => "<unreadable>".to_owned(),
    }
}

/// A protocol that backends speak: how a request is put into it.
pub trait BackendAdapter {
    /// The name of the adapter.
    spec fn adapter_name(&self) -> Seq<char>;

    /// The URL that requests to a provider go to.
    spec fn request_url(&self, provider: ProviderConfig) -> Seq<char>;

    /// The headers of a request to a provider, each with its value.
    spec fn request_headers(&self, provider: ProviderConfig, streaming: bool) -> Seq<
        (Seq<char>, Seq<char>),
    >;

    /// The body of a request for a model.
    spec fn request_body(
        &self,
        request: InternalRequestView,
        model: Seq<char>,
        streaming: bool,
    ) -> JsonView;

    /// The name of the adapter.
    fn name(&self) -> (r: &'static str)
        ensures
            r@ == self.adapter_name(),
    ;

    /// The URL that requests to a provider go to.
    fn url(&self, provider: &ProviderConfig) -> (r: String)
        ensures
            r@ == self.request_url(*provider),
    ;

    /// The headers of a request to a provider, each with its value.
    fn headers(&self, provider: &ProviderConfig, streaming: bool) -> (r: Vec<(String, String)>)
        ensures
            r.deep_view() == self.request_headers(*provider, streaming),
    ;

    /// The body of a request for a model.
    fn body(&self, request: &InternalRequest, model: &str, streaming: bool) -> (r: Json)
        ensures
            r@ == self.request_body(request.deep_view(), model@, streaming),
    ;
}

/// One of the adapters.
#[derive(Debug, Clone, Copy, PartialEq, Eq, Structural)]
pub enum Adapter {
    OpenAiCompat(OpenAiCompatAdapter),
    AnthropicPassthrough(AnthropicPassthroughAdapter),
}

impl BackendAdapter for Adapter {
    open spec fn adapter_name(&self) -> Seq<char> {
        match *self {
            Adapter::OpenAiCompat(a) => a.adapter_name(),
            Adapter::AnthropicPassthrough(a) => a.adapter_name(),
        }
    }

    open spec fn request_url(&self, provider: ProviderConfig) -> Seq<char> {
        match *self {
            Adapter::OpenAiCompat(a) => a.request_url(provider),
            Adapter::AnthropicPassthrough(a) => a.request_url(provider),
        }
    }

    open spec fn request_headers(&self, provider: ProviderConfig, streaming: bool) -> Seq<
        (Seq<char>, Seq<char>),
    > {
        match *self {
            Adapter::OpenAiCompat(a) => a.request_headers(provider, streaming),
            Adapter::AnthropicPassthrough(a) => a.request_headers(provider, streaming),
        }
    }

    open spec fn request_body(
        &self,
        request: InternalRequestView,
        model: Seq<char>,
        streaming: bool,
    ) -> JsonView {
        match *self {
            Adapter::OpenAiCompat(a) => a.request_body(request, model, streaming),
            Adapter::AnthropicPassthrough(a) => a.request_body(request, model, streaming),
        }
    }

    fn name(&self) -> (r: &'static str) {
        match self {
            Adapter::OpenAiCompat(a) => a.name(),
            Adapter::AnthropicPassthrough(a) => a.name(),
        }
    }

    fn url(&self, provider: &ProviderConfig) -> (r: String) {
        match self {
            Adapter::OpenAiCompat(a) => a.url(provider),
            Adapter::AnthropicPassthrough(a) => a.url(provider),
        }
    }

    fn headers(&self, provider: &ProviderConfig, streaming: bool) -> (r: Vec<(String, String)>) {
        match self {
            Adapter::OpenAiCompat(a) => a.headers(provider, streaming),
            Adapter::AnthropicPassthrough(a) => a.headers(provider, streaming),
        }
    }

    fn body(&self, request: &InternalRequest, model: &str, streaming: bool) -> (r: Json) {
        match self {
            Adapter::OpenAiCompat(a) => a.body(request, model, streaming),
            Adapter::AnthropicPassthrough(a) => a.body(request, model, streaming),
        }
    }
}

/// The adapter for a type of provider: every type but `anthropic` is taken as OpenAI compatible.
pub open spec fn chosen_adapter(provider_type: Seq<char>) -> Adapter {
    if provider_type == "anthropic"@ {
        Adapter::AnthropicPassthrough(AnthropicPassthroughAdapter)
    } else {
        Adapter::OpenAiCompat(OpenAiCompatAdapter)
    }
}

/// The adapter for a type of provider.
pub fn adapter_for(provider_type: &str) -> (r: Adapter)
    ensures
        r == chosen_adapter(provider_type@),
{
    if same_text(provider_type, "anthropic") {
        Adapter::AnthropicPassthrough(AnthropicPassthroughAdapter)
    } else {
        Adapter::OpenAiCompat(OpenAiCompatAdapter)
    }
}

} // verus!
