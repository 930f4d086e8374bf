//! What the gateway counts while it runs.

use vstd::prelude::*;

verus! {

/// A stream that is being answered. Its end takes one off the number of active streams where
/// `dec_on_drop` holds.
#[derive(Debug)]
pub struct ActiveStreamsGuard<S> {
    pub inner: S,
    pub dec_on_drop: bool,
}

impl<S> ActiveStreamsGuard<S> {
    /// The guard of a stream whose end is counted.
    pub fn new(inner: S) -> (r: ActiveStreamsGuard<S>)
        ensures
            r.inner == inner,
            r.dec_on_drop,
    {
        ActiveStreamsGuard { inner, dec_on_drop: true }
    }
}

/// Tokens to count for an alias, under a kind.
#[derive(Debug, Clone, PartialEq)]
pub struct TokenCount {
    pub alias: String,
    pub kind: String,
    pub tokens: u64,
}

/// The model of tokens to count.
pub struct TokenCountView {
    pub alias: Seq<char>,
    pub kind: Seq<char>,
    pub tokens: u64,
}

impl DeepView for TokenCount {
    type V = TokenCountView;

    open spec fn deep_view(&self) -> TokenCountView {
        TokenCountView { alias: self.alias@, kind: self.kind@, tokens: self.tokens }
    }
}

/// Tokens of a kind to count, where their number is known.
pub open spec fn counted(
    alias: Seq<char>,
    kind: Seq<char>,
    tokens: Option<u64>,
) -> Seq<TokenCountView> {
    match tokens {
        Some(n) => seq![TokenCountView { alias, kind, tokens: n }],
        None => Seq::empty(),
    }
}

/// The tokens to count for an answer: those of the prompt and those of the completion.
pub fn record_tokens(
    alias: &str,
    prompt_tokens: Option<u64>,
    completion_tokens: Option<u64>,
) -> (r: Vec<TokenCount>)
    ensures
        r.deep_view() == counted(alias@, "prompt"@, prompt_tokens) + counted(
            alias@,
            "completion"@,
            completion_tokens,
        ),
{
    let mut out: Vec<TokenCount> = Vec::new();
    match prompt_tokens {
        Some(n) => {
            out.push(
                TokenCount { alias: alias.to_owned(), kind: "prompt".to_owned(), tokens: n },
            );
        },
        None => {},
    }
    match completion_tokens {
        Some(n) => {
            out.push(
                TokenCount { alias: alias.to_owned(), kind: "completion".to_owned(), tokens: n },
            );
        },
        None => {},
    }
    assert(out.deep_view() =~= counted(alias@, "prompt"@, prompt_tokens) + counted(
        alias@,
        "completion"@,
        completion_tokens,
    ));
    out
}

} // verus!
