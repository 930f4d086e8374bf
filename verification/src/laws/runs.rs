//! Which backend answers a request, and what the client is told where none does.

use vstd::prelude::*;

use crate::backend::anthropic_passthrough::AnthropicPassthroughAdapter;
use crate::backend::openai_compat::OpenAiCompatAdapter;
use crate::backend::{chosen_adapter, BackendAdapter};
use crate::config::{by_priority, AliasConfigView, AppConfig, ChainEntryView, ProviderConfig};
use crate::config::{alias_fault, first_unknown, law_by_priority};
use crate::error::GatewayErrorView;
use crate::gateway::alias::targets_of;
use crate::gateway::fallback::{
    attempt_word, exhausted, moved_on, passes, plan_of, run_result, skipped, AttemptReply,
    PlannedAttemptView, RunResult, RunView,
};
use crate::json::{field, str_field};
use crate::laws::words::lemma_words;
use crate::router::openai::{access, ReloadAccess};
use crate::state::counted;
use crate::text::{decimal, without_trailing};

verus! {

/// Whether the target at a place leaves the request to the next one: its provider is not configured,
/// it could not be reached, it refused with 429 or with 500 to 599, or, unless a stream was asked
/// for, its answer was no answer.
pub open spec fn leaves_to_next(run: RunView, replies: Seq<AttemptReply>, place: int) -> bool {
    ||| run.plan[place].provider is None
    ||| replies[place] matches AttemptReply::Failure(GatewayErrorView::BackendRequestFailed(_))
    ||| replies[place] matches AttemptReply::Failure(
        GatewayErrorView::BackendError { status, .. },
    ) && (status == 429 || 500 <= status <= 599)
    ||| !run.streaming && (replies[place] matches AttemptReply::Failure(
        GatewayErrorView::Internal(_),
    ))
}

/// A target that leaves the request to the next one makes the run go on.
proof fn lemma_left(run: RunView, replies: Seq<AttemptReply>, place: int)
    requires
        leaves_to_next(run, replies, place),
    ensures
        passes(run, replies, place),
{
}

/// A backend that cannot be reached makes the run go on with the next one, whether a stream was asked
/// for or not: the next target whose provider is configured and which answers gives the result.
pub proof fn law_unreachable_backend_is_passed(run: RunView, replies: Seq<AttemptReply>)
    requires
        0 <= run.at < run.plan.len() - 1,
        run.plan[run.at].provider is Some,
        replies[run.at] matches AttemptReply::Failure(GatewayErrorView::BackendRequestFailed(_)),
        run.plan[run.at + 1].provider is Some,
        replies[run.at + 1] is Success,
    ensures
        run_result(run, replies) == RunResult::Answered(run.at + 1),
{
    reveal_with_fuel(run_result, 3);
}

/// The first target that answers gives the result, where each one before it leaves the request to
/// the next.
pub proof fn law_answer_after_failures(run: RunView, replies: Seq<AttemptReply>, place: int)
    requires
        0 <= run.at <= place < run.plan.len(),
        forall|k: int| run.at <= k < place ==> #[trigger] leaves_to_next(run, replies, k),
        run.plan[place].provider is Some,
        replies[place] is Success,
    ensures
        run_result(run, replies) == RunResult::Answered(place),
{
    assert forall|k: int| run.at <= k < place implies #[trigger] passes(run, replies, k) by {
        assert(leaves_to_next(run, replies, k));
        lemma_left(run, replies, k);
    }
    crate::gateway::fallback::law_first_answer_wins(run, replies, place);
}

/// A refusal with any other status ends the run with that refusal, and so does an answer that is no
/// stream where a stream was asked for: no later target is asked.
pub proof fn law_refusal_ends_run(
    run: RunView,
    replies: Seq<AttemptReply>,
    place: int,
    e: GatewayErrorView,
)
    requires
        0 <= run.at <= place < run.plan.len(),
        forall|k: int| run.at <= k < place ==> #[trigger] leaves_to_next(run, replies, k),
        run.plan[place].provider is Some,
        replies[place] == AttemptReply::Failure(e),
        (e matches GatewayErrorView::BackendError { status, .. } && status != 429 && !(500
            <= status <= 599)) || (run.streaming && e is Internal),
    ensures
        run_result(run, replies) == RunResult::Failed(e),
    decreases place - run.at,
{
    if run.at < place {
        assert(leaves_to_next(run, replies, run.at));
        let attempt = run.plan[run.at];
        let next = if attempt.provider is None {
            skipped_once(run)
        } else {
            moved_on(run, replies[run.at]->Failure_0)
        };
        assert forall|k: int| next.at <= k < place implies #[trigger] leaves_to_next(
            next,
            replies,
            k,
        ) by {
            assert(leaves_to_next(run, replies, k));
        }
        law_refusal_ends_run(next, replies, place, e);
    }
}

/// The run after a target whose provider is not configured.
spec fn skipped_once(run: RunView) -> RunView {
    RunView {
        at: run.at + 1,
        last: Some(crate::gateway::fallback::missing_provider(run.plan[run.at].target)),
        ..run
    }
}

/// What the last target of a run that finds no answer came to, as the client is told it: the
/// provider that is missing, why it could not be reached, or its refusal with its provider and its
/// model.
pub open spec fn told(attempt: PlannedAttemptView, reply: AttemptReply) -> Seq<char> {
    if attempt.provider is None {
        "Internal error: Provider '"@ + attempt.target.provider_name + "' not found"@
    } else {
        match reply {
            AttemptReply::Failure(GatewayErrorView::BackendError { status, body }) => {
                "Backend returned error "@ + decimal(status as nat) + ": provider="@
                    + attempt.target.provider_name + ", model="@ + attempt.target.model + ": "@
                    + body
            },
            AttemptReply::Failure(GatewayErrorView::BackendRequestFailed(why)) => {
                "Backend request failed: "@ + why
            },
            AttemptReply::Failure(GatewayErrorView::Internal(why)) => "Internal error: "@ + why,
            _ => Seq::empty(),
        }
    }
}

/// The text of what a run remembers of a target.
proof fn lemma_told(run: RunView, replies: Seq<AttemptReply>, place: int)
    requires
        0 <= place < run.plan.len(),
        leaves_to_next(run, replies, place),
    ensures
        run.plan[place].provider is None ==> crate::gateway::fallback::missing_provider(
            run.plan[place].target,
        ).text() == told(run.plan[place], replies[place]),
        run.plan[place].provider is Some ==> crate::gateway::fallback::remembered(
            replies[place]->Failure_0,
            run.plan[place].target,
        ).text() == told(run.plan[place], replies[place]),
{
    reveal_strlit("Internal error: ");
    reveal_strlit("Provider '");
    reveal_strlit("Internal error: Provider '");
    reveal_strlit("' not found");
    reveal_strlit(": provider=");
    reveal_strlit(": ");
    reveal_strlit("provider=");
    let t = run.plan[place].target;
    assert("Internal error: "@ + "Provider '"@ =~= "Internal error: Provider '"@);
    assert("Internal error: "@ + ("Provider '"@ + t.provider_name + "' not found"@)
        =~= "Internal error: Provider '"@ + t.provider_name + "' not found"@);
    match replies[place] {
        AttemptReply::Failure(GatewayErrorView::BackendError { status, body }) => {
            let number = decimal(status as nat);
            let model = ", model="@;
            assert(": "@ + "provider="@ =~= ": provider="@);
            assert("Backend returned error "@ + number + ": "@ + ("provider="@ + t.provider_name
                + model + t.model + ": "@ + body) =~= "Backend returned error "@ + number
                + ": provider="@ + t.provider_name + model + t.model + ": "@ + body);
        },
        _ => {},
    }
}

/// A run in which every target leaves the request to the next one fails; the client is answered with
/// status 503, and is told the alias and what the last target came to.
pub proof fn law_no_target_answers(run: RunView, replies: Seq<AttemptReply>)
    requires
        0 <= run.at < run.plan.len(),
        forall|k: int|
            run.at <= k < run.plan.len() ==> #[trigger] leaves_to_next(run, replies, k),
    ensures
        run_result(run, replies) matches RunResult::Failed(e) && e.http_status() == 503 && e
            == GatewayErrorView::AllFallbacksExhausted(
            run.alias + " — last error: "@ + told(
                run.plan[run.plan.len() - 1],
                replies[run.plan.len() - 1],
            ),
        ),
    decreases run.plan.len() - run.at,
{
    assert(leaves_to_next(run, replies, run.at));
    lemma_told(run, replies, run.at);
    let attempt = run.plan[run.at];
    let next = if attempt.provider is None {
        skipped_once(run)
    } else {
        moved_on(run, replies[run.at]->Failure_0)
    };
    if run.at + 1 < run.plan.len() {
        assert forall|k: int|
            next.at <= k < next.plan.len() implies #[trigger] leaves_to_next(next, replies, k) by {
            assert(leaves_to_next(run, replies, k));
        }
        law_no_target_answers(next, replies);
    } else {
        assert(run_result(next, replies) == RunResult::Failed(exhausted(next.alias, next.last)));
    }
}

/// A chain without targets fails, and the client is told the alias.
pub proof fn law_empty_chain_fails(run: RunView, replies: Seq<AttemptReply>)
    requires
        run.plan.len() == 0,
        run.at == 0,
        run.last is None,
    ensures
        run_result(run, replies) == RunResult::Failed(
            GatewayErrorView::AllFallbacksExhausted(run.alias + " — last error: unknown"@),
        ),
{
    reveal_strlit(" — last error: ");
    reveal_strlit("unknown");
    reveal_strlit(" — last error: unknown");
    assert(" — last error: "@ + "unknown"@ =~= " — last error: unknown"@);
    assert(run.alias + " — last error: "@ + "unknown"@ =~= run.alias + " — last error: unknown"@);
}

/// Going to the next target goes to the first one, from the current one on, whose provider is
/// configured, or past the last one; it changes neither the plan nor the alias.
pub proof fn law_skips_to_configured(run: RunView)
    requires
        0 <= run.at <= run.plan.len(),
    ensures
        ({
            let next = skipped(run);
            &&& next.plan == run.plan
            &&& next.alias == run.alias
            &&& next.streaming == run.streaming
            &&& run.at <= next.at <= run.plan.len()
            &&& next.at < run.plan.len() ==> run.plan[next.at].provider is Some
            &&& forall|k: int| run.at <= k < next.at ==> (#[trigger] run.plan[k]).provider is None
            &&& next.at == run.at ==> next.last == run.last
            &&& next.at > run.at ==> next.last == Some(
                GatewayErrorView::Internal(
                    "Provider '"@ + run.plan[next.at - 1].target.provider_name + "' not found"@,
                ),
            )
        }),
    decreases run.plan.len() - run.at,
{
    if run.at < run.plan.len() && run.plan[run.at].provider is None {
        law_skips_to_configured(skipped_once(run));
    }
}

/// Moving on goes to the next place and changes neither the plan nor the alias. The error of a
/// refusal is kept with its status, and says which backend it came from.
pub proof fn law_moving_on(run: RunView, e: GatewayErrorView)
    requires
        0 <= run.at < run.plan.len(),
    ensures
        ({
            let next = moved_on(run, e);
            let target = run.plan[run.at].target;
            &&& next.at == run.at + 1
            &&& next.plan == run.plan
            &&& next.alias == run.alias
            &&& next.streaming == run.streaming
            &&& match e {
                GatewayErrorView::BackendError { status, body } => next.last == Some(
                    GatewayErrorView::BackendError {
                        status,
                        body: "provider="@ + target.provider_name + ", model="@ + target.model
                            + ": "@ + body,
                    },
                ),
                _ => next.last == Some(e),
            }
        }),
{
}

/// The plan for an alias tries its chain by ascending priority: each target is the provider and the
/// model of an entry, with the configuration of that provider where there is one.
pub proof fn law_plan_of_chain(
    chain: Seq<ChainEntryView>,
    providers: Map<Seq<char>, ProviderConfig>,
    i: int,
)
    requires
        0 <= i < chain.len(),
    ensures
        ({
            let plan = plan_of(targets_of(chain), providers);
            let entry = by_priority(chain)[i];
            &&& targets_of(chain).len() == chain.len()
            &&& targets_of(chain)[i].provider_name == entry.provider
            &&& targets_of(chain)[i].model == entry.model
            &&& plan.len() == chain.len()
            &&& plan[i].target.provider_name == entry.provider
            &&& plan[i].target.model == entry.model
            &&& chain.contains(entry)
            &&& providers.contains_key(entry.provider) ==> plan[i].provider == Some(
                providers[entry.provider],
            )
            &&& !providers.contains_key(entry.provider) ==> plan[i].provider is None
            &&& i > 0 ==> by_priority(chain)[i - 1].priority <= entry.priority
        }),
{
    broadcast use vstd::seq_lib::group_to_multiset_ensures;

    law_by_priority(chain, 0);
    let sorted = by_priority(chain);
    assert(sorted.to_multiset().contains(sorted[i]));
    assert(chain.to_multiset().contains(sorted[i]));
    if i > 0 {
        assert(sorted[i - 1].priority <= sorted[i].priority);
    }
}

/// How an attempt is counted: an answer as a success, a refusal that another backend may make good
/// as a fallback, and every other failure as an error.
pub proof fn law_attempts_counted(reply: AttemptReply)
    ensures
        reply is Success ==> attempt_word(reply) == "success"@,
        reply matches AttemptReply::Failure(GatewayErrorView::BackendError { status, .. }) ==> (
        if status == 429 || 500 <= status <= 599 {
            attempt_word(reply) == "fallback"@
        } else {
            attempt_word(reply) == "error"@
        }),
        reply matches AttemptReply::Failure(GatewayErrorView::BackendRequestFailed(_))
            ==> attempt_word(reply) == "error"@,
        reply matches AttemptReply::Failure(GatewayErrorView::Internal(_)) ==> attempt_word(reply)
            == "error"@,
{
}

/// What a client is answered for an error: an unknown alias is not found, a failure of the backends
/// is one of the gateway, a run without an answer makes the service unavailable, and everything else
/// is an internal error. The text tells the cause.
pub proof fn law_error_answers(e: GatewayErrorView)
    ensures
        field(e.json(), "error"@) is Some,
        str_field(field(e.json(), "error"@)->0, "message"@) == Some(e.text()),
        str_field(field(e.json(), "error"@)->0, "type"@) == Some("gateway_error"@),
        match e {
            GatewayErrorView::UnknownAlias(s) => {
                &&& e.http_status() == 404
                &&& e.text() == "Unknown model alias: "@ + s
            },
            GatewayErrorView::AllFallbacksExhausted(s) => {
                &&& e.http_status() == 503
                &&& e.text() == "All fallback attempts exhausted for alias: "@ + s
            },
            GatewayErrorView::BackendRequestFailed(s) => {
                &&& e.http_status() == 502
                &&& e.text() == "Backend request failed: "@ + s
            },
            GatewayErrorView::BackendError { status, body } => {
                &&& e.http_status() == 502
                &&& e.text() == "Backend returned error "@ + decimal(status as nat) + ": "@ + body
            },
            GatewayErrorView::ConfigError(s) => {
                &&& e.http_status() == 500
                &&& e.text() == "Config error: "@ + s
            },
            GatewayErrorView::Internal(s) => {
                &&& e.http_status() == 500
                &&& e.text() == "Internal error: "@ + s
            },
        },
{
    lemma_words();
}

/// The first provider of a chain that is not known.
proof fn lemma_first_unknown(chain: Seq<ChainEntryView>, providers: Set<Seq<char>>)
    ensures
        match first_unknown(chain, providers) {
            Some(p) => exists|k: int| #![trigger chain[k]]
                0 <= k < chain.len() && chain[k].provider == p && !providers.contains(p)
                    && forall|j: int|
                    0 <= j < k ==> providers.contains((#[trigger] chain[j]).provider),
            None => forall|k: int|
                0 <= k < chain.len() ==> providers.contains((#[trigger] chain[k]).provider),
        },
    decreases chain.len(),
{
    if chain.len() > 0 {
        let front = chain.drop_last();
        lemma_first_unknown(front, providers);
        match first_unknown(front, providers) {
            Some(p) => {
                let k = choose|k: int| #![trigger front[k]]
                    0 <= k < front.len() && front[k].provider == p && !providers.contains(p)
                        && forall|j: int|
                        0 <= j < k ==> providers.contains((#[trigger] front[j]).provider);
                assert(chain[k] == front[k]);
                assert forall|j: int| 0 <= j < k implies providers.contains(
                    (#[trigger] chain[j]).provider,
                ) by {
                    assert(front[j] == chain[j]);
                }
            },
            None => {
                let last = chain.len() - 1;
                assert forall|j: int| 0 <= j < last implies providers.contains(
                    (#[trigger] chain[j]).provider,
                ) by {
                    assert(front[j] == chain[j]);
                }
                assert(chain[last] == chain.last());
            },
        }
    }
}

/// Nothing is wrong with an alias exactly where its chain has entries and every provider in it is
/// known. Else the fault names the alias, and a provider that is not known.
pub proof fn law_alias_faults(
    name: Seq<char>,
    alias: AliasConfigView,
    providers: Set<Seq<char>>,
)
    ensures
        alias_fault(name, alias, providers) is None <==> {
            &&& alias.chain.len() > 0
            &&& forall|k: int|
                0 <= k < alias.chain.len() ==> providers.contains(
                    (#[trigger] alias.chain[k]).provider,
                )
        },
        alias.chain.len() == 0 ==> alias_fault(name, alias, providers) == Some(
            "alias '"@ + name + "' has empty chain"@,
        ),
        alias.chain.len() > 0 ==> (alias_fault(name, alias, providers) matches Some(text)
            ==> exists|k: int| #![trigger alias.chain[k]]
            0 <= k < alias.chain.len() && !providers.contains(alias.chain[k].provider) && text
                == "alias '"@ + name + "' references unknown provider '"@ + alias.chain[k].provider
                + "'"@ && forall|j: int|
                0 <= j < k ==> providers.contains((#[trigger] alias.chain[j]).provider)),
{
    lemma_first_unknown(alias.chain, providers);
}

/// A configuration is valid exactly where every alias has a chain whose providers are all
/// configured.
pub proof fn law_valid_configuration(config: AppConfig)
    ensures
        config.valid() <==> forall|name: Seq<char>| #[trigger]
            config.aliases@.contains_key(name) ==> {
                let chain = config.aliases@[name].chain.deep_view();
                &&& chain.len() > 0
                &&& forall|k: int|
                    0 <= k < chain.len() ==> config.providers@.contains_key(
                        (#[trigger] chain[k]).provider,
                    )
            },
{
    assert forall|name: Seq<char>| #[trigger] config.aliases@.contains_key(name) implies (
    config.fault(name) is None <==> {
        let chain = config.aliases@[name].chain.deep_view();
        &&& chain.len() > 0
        &&& forall|k: int|
            0 <= k < chain.len() ==> config.providers@.contains_key((#[trigger] chain[k]).provider)
    }) by {
        law_alias_faults(
            name,
            config.aliases@[name].deep_view(),
            config.providers@.dom(),
        );
    }
    if config.valid() {
        assert forall|name: Seq<char>| #[trigger] config.aliases@.contains_key(name) implies ({
            let chain = config.aliases@[name].chain.deep_view();
            &&& chain.len() > 0
            &&& forall|k: int|
                0 <= k < chain.len() ==> config.providers@.contains_key(
                    (#[trigger] chain[k]).provider,
                )
        }) by {
            assert(config.fault(name) is None);
        }
    }
}

/// Where requests go: to the path of the provider's protocol below its base URL, whatever slashes
/// that ends with.
pub proof fn law_request_urls(provider: ProviderConfig, base: Seq<char>)
    requires
        base.len() > 0 ==> base.last() != '/',
        provider.base_url@ == base || provider.base_url@ == base.push('/'),
    ensures
        provider.provider_type@ == "anthropic"@ ==> chosen_adapter(
            provider.provider_type@,
        ).request_url(provider) == base + "/v1/messages"@,
        provider.provider_type@ != "anthropic"@ ==> chosen_adapter(
            provider.provider_type@,
        ).request_url(provider) == base + "/chat/completions"@,
{
    reveal_with_fuel(without_trailing, 3);
    assert(base.push('/').drop_last() =~= base);
}

/// Which adapter a provider gets, by its type.
pub proof fn law_adapters(provider_type: Seq<char>)
    ensures
        provider_type == "anthropic"@ <==> chosen_adapter(provider_type) is AnthropicPassthrough,
        provider_type != "anthropic"@ <==> chosen_adapter(provider_type) is OpenAiCompat,
        chosen_adapter("anthropic"@).adapter_name() == "anthropic_passthrough"@,
        provider_type != "anthropic"@ ==> chosen_adapter(provider_type).adapter_name()
            == "openai_compat"@,
{
}

/// The headers of every request say that its body is JSON and carry the provider's key: for an
/// OpenAI compatible provider, and for an Anthropic one of another style, as a bearer token; for an
/// Anthropic provider of its own style under `x-api-key`, with the version of the protocol. A stream
/// is asked of an Anthropic provider as one.
pub proof fn law_request_headers(provider: ProviderConfig, streaming: bool)
    ensures
        ({
            let headers = AnthropicPassthroughAdapter.request_headers(provider, streaming);
            &&& headers.contains(("Content-Type"@, "application/json"@))
            &&& streaming ==> headers.contains(("Accept"@, "text/event-stream"@))
            &&& provider.auth_style@ == "anthropic"@ ==> {
                &&& headers.contains(("x-api-key"@, provider.api_key@))
                &&& headers.contains(("anthropic-version"@, "2023-06-01"@))
                &&& headers.len() == if streaming { 4int } else { 3int }
            }
            &&& provider.auth_style@ != "anthropic"@ ==> {
                &&& headers.contains(("Authorization"@, "Bearer "@ + provider.api_key@))
                &&& headers.len() == if streaming { 3int } else { 2int }
            }
        }),
        ({
            let headers = OpenAiCompatAdapter.request_headers(provider, streaming);
            &&& headers.contains(("Content-Type"@, "application/json"@))
            &&& headers.contains(("Authorization"@, "Bearer "@ + provider.api_key@))
            &&& headers.len() == 2
        }),
{
    let headers = AnthropicPassthroughAdapter.request_headers(provider, streaming);
    let own = provider.auth_style@ == "anthropic"@;
    assert(headers[0] == ("Content-Type"@, "application/json"@));
    let at = if streaming {
        2int
    } else {
        1int
    };
    if streaming {
        assert(headers[1] == ("Accept"@, "text/event-stream"@));
    }
    if own {
        assert(headers[at] == ("x-api-key"@, provider.api_key@));
        assert(headers[at + 1] == ("anthropic-version"@, "2023-06-01"@));
    } else {
        assert(headers[at] == ("Authorization"@, "Bearer "@ + provider.api_key@));
    }
    let others = OpenAiCompatAdapter.request_headers(provider, streaming);
    assert(others[0] == ("Authorization"@, "Bearer "@ + provider.api_key@));
    assert(others[1] == ("Content-Type"@, "application/json"@));
}

/// A call of the reload endpoint is granted exactly where a token that is not empty is configured
/// and sent.
pub proof fn law_reload_needs_token(expected: Option<Seq<char>>, sent: Option<Seq<char>>)
    ensures
        access(expected, sent) == ReloadAccess::Granted <==> expected is Some && expected->0.len()
            > 0 && sent == expected,
        access(expected, sent) == ReloadAccess::Disabled <==> expected is None || expected->0.len()
            == 0,
{
}

/// The tokens of an answer are counted under the alias, each kind with its number where that is
/// known.
pub proof fn law_tokens_counted(alias: Seq<char>, kind: Seq<char>, tokens: Option<u64>)
    ensures
        tokens is None ==> counted(alias, kind, tokens).len() == 0,
        tokens matches Some(n) ==> {
            let counts = counted(alias, kind, tokens);
            &&& counts.len() == 1
            &&& counts[0].alias == alias
            &&& counts[0].kind == kind
            &&& counts[0].tokens == n
        },
{
}

} // verus!
