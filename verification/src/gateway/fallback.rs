//! Trying the backends of a chain one after the other.

use vstd::prelude::*;

use crate::backend::{adapter_for, chosen_adapter, Adapter};
use crate::config::{by_priority, law_by_priority, AppConfig, ChainEntryView, ProviderConfig};
use crate::error::{retriable, should_fallback, GatewayError, GatewayErrorView};
use crate::gateway::alias::{
    resolve_alias, target_of, targets_of, ResolvedTarget, ResolvedTargetView,
};
use crate::gateway::types::InternalResponse;

verus! {

/// The adapter for a type of provider.
pub fn pick_adapter(provider_type: &str) -> (r: Adapter)
    ensures
        r == chosen_adapter(provider_type@),
{
    adapter_for(provider_type)
}

/// A response, and the target that gave it.
#[derive(Debug, PartialEq)]
pub struct FallbackResult {
    pub response: InternalResponse,
    pub used_target: ResolvedTarget,
}

/// A target of a chain, with its provider where the configuration has it.
#[derive(Debug, PartialEq)]
pub struct PlannedAttempt {
    pub target: ResolvedTarget,
    pub provider: Option<ProviderConfig>,
}

/// The model of a planned attempt.
pub struct PlannedAttemptView {
    pub target: ResolvedTargetView,
    pub provider: Option<ProviderConfig>,
}

impl DeepView for PlannedAttempt {
    type V = PlannedAttemptView;

    open spec fn deep_view(&self) -> PlannedAttemptView {
        PlannedAttemptView { target: self.target.deep_view(), provider: self.provider }
    }
}

/// The plan for the targets of a chain.
pub open spec fn plan_of(
    targets: Seq<ResolvedTargetView>,
    providers: Map<Seq<char>, ProviderConfig>,
) -> Seq<PlannedAttemptView> {
    targets.map_values(
        |t: ResolvedTargetView|
            PlannedAttemptView {
                target: t,
                provider: if providers.contains_key(t.provider_name) {
                    Some(providers[t.provider_name])
                } else {
                    None
                },
            },
    )
}

/// What an attempt came to.
pub enum AttemptReply {
    Success,
    Failure(GatewayErrorView),
}

/// Whether a failure ends the run rather than making it go on with the next target. A refusal
/// with a status other than 429 and 500 to 599 does, and, for a stream, an internal error.
pub open spec fn ends_run(e: GatewayErrorView, streaming: bool) -> bool {
    match e {
        GatewayErrorView::BackendError { status, .. } => !retriable(status),
        GatewayErrorView::Internal(_) => streaming,
        _ => false,
    }
}

/// The error to remember for a failure that makes the run go on. That of a refusal says which
/// backend it came from.
pub open spec fn remembered(e: GatewayErrorView, target: ResolvedTargetView) -> GatewayErrorView {
    match e {
        GatewayErrorView::BackendError { status, body } => GatewayErrorView::BackendError {
            status,
            body: "provider="@ + target.provider_name + ", model="@ + target.model + ": "@ + body,
        },
        other => other,
    }
}

/// The error to remember for a target whose provider is not configured.
pub open spec fn missing_provider(target: ResolvedTargetView) -> GatewayErrorView {
    GatewayErrorView::Internal("Provider '"@ + target.provider_name + "' not found"@)
}

/// The error of a run that has no target left.
pub open spec fn exhausted(alias: Seq<char>, last: Option<GatewayErrorView>) -> GatewayErrorView {
    GatewayErrorView::AllFallbacksExhausted(
        alias + " — last error: "@ + (match last {
            Some(e) => e.text(),
            None => "unknown"@,
        }),
    )
}

/// What a run comes to.
pub enum RunResult {
    /// The target at this place of the chain answered.
    Answered(int),
    /// The run failed.
    Failed(GatewayErrorView),
}

/// The model of a run: the plan, the place of the target to try next, and the last error.
pub struct RunView {
    pub alias: Seq<char>,
    pub streaming: bool,
    pub plan: Seq<PlannedAttemptView>,
    pub at: int,
    pub last: Option<GatewayErrorView>,
}

/// What a run comes to, where the target at each place would reply as `replies` says.
pub open spec fn run_result(run: RunView, replies: Seq<AttemptReply>) -> RunResult
    decreases run.plan.len() - run.at,
{
    if run.at < 0 || run.at >= run.plan.len() {
        RunResult::Failed(exhausted(run.alias, run.last))
    } else {
        let attempt = run.plan[run.at];
        if attempt.provider is None {
            run_result(
                RunView { at: run.at + 1, last: Some(missing_provider(attempt.target)), ..run },
                replies,
            )
        } else {
            match replies[run.at] {
                AttemptReply::Success => RunResult::Answered(run.at),
                AttemptReply::Failure(e) => if ends_run(e, run.streaming) {
                    RunResult::Failed(e)
                } else {
                    run_result(
                        RunView {
                            at: run.at + 1,
                            last: Some(remembered(e, attempt.target)),
                            ..run
                        },
                        replies,
                    )
                },
            }
        }
    }
}

/// The run that skips to the next target whose provider is configured.
pub open spec fn skipped(run: RunView) -> RunView
    decreases run.plan.len() - run.at,
{
    if 0 <= run.at < run.plan.len() && run.plan[run.at].provider is None {
        skipped(
            RunView {
                at: run.at + 1,
                last: Some(missing_provider(run.plan[run.at].target)),
                ..run
            },
        )
    } else {
        run
    }
}

/// The run after a target has failed with an error that makes it go on.
pub open spec fn moved_on(run: RunView, e: GatewayErrorView) -> RunView {
    RunView {
        at: run.at + 1,
        last: Some(remembered(e, run.plan[run.at].target)),
        ..run
    }
}

/// What to do after an attempt.
#[derive(Debug, PartialEq)]
pub enum Verdict {
    /// The target answered: its answer is the result.
    Answered,
    /// The next target is to be tried.
    TryNext,
    /// The run has failed.
    Failed(GatewayError),
}

/// A run along the chain of an alias.
#[derive(Debug)]
pub struct FallbackRun {
    alias: String,
    streaming: bool,
    plan: Vec<PlannedAttempt>,
    at: usize,
    last: Option<GatewayError>,
}

impl View for FallbackRun {
    type V = RunView;

    closed spec fn view(&self) -> RunView {
        RunView {
            alias: self.alias@,
            streaming: self.streaming,
            plan: self.plan.deep_view(),
            at: self.at as int,
            last: self.last.deep_view(),
        }
    }
}

impl FallbackRun {
    #[verifier::type_invariant]
    spec fn in_plan(&self) -> bool {
        self.at <= self.plan.len()
    }

    /// A run along the chain of an alias, which has tried nothing yet.
    pub fn start(config: &AppConfig, alias: &str, streaming: bool) -> (r: Result<
        FallbackRun,
        GatewayError,
    >)
        ensures
            match r {
                Ok(run) => {
                    &&& config.aliases@.contains_key(alias@)
                    &&& run@ == (RunView {
                        alias: alias@,
                        streaming,
                        plan: plan_of(
                            targets_of(config.aliases@[alias@].chain.deep_view()),
                            config.providers@,
                        ),
                        at: 0,
                        last: None,
                    })
                },
                Err(e) => !config.aliases@.contains_key(alias@) && e.deep_view()
                    == GatewayErrorView::UnknownAlias(alias@),
            },
    {
        match resolve_alias(config, alias) {
            Err(e) => Err(e),
            Ok(targets) => {
                let ghost views = targets.deep_view();
                let ghost whole = targets@;
                let ghost goal = plan_of(views, config.providers@);
                let mut plan: Vec<PlannedAttempt> = Vec::new();
                for target in it: targets
                    invariant
                        it.seq() == whole,
                        views == targets.deep_view(),
                        whole == targets@,
                        goal == plan_of(views, config.providers@),
                        plan.len() == it.index(),
                        forall|k: int|
                            0 <= k < it.index() ==> (#[trigger] plan@[k]).deep_view() == goal[k],
                {
                    assert(target.deep_view() == views[it.index() as int]);
                    let provider = match config.providers.get(target.provider_name.as_str()) {
                        Some(p) => Some(p.clone()),
                        None => None,
                    };
                    plan.push(PlannedAttempt { target, provider });
                }
                assert(plan.deep_view() =~= goal);
                Ok(
                    FallbackRun { alias: alias.to_owned(), streaming, plan, at: 0, last: None },
                )
            },
        }
    }

    /// Goes to the next target whose provider is configured. Returns that target and its provider,
    /// or, where no target is left, the error that the run comes to.
    pub fn next_attempt(&mut self) -> (r: Result<(ResolvedTarget, ProviderConfig), GatewayError>)
        ensures
            final(self)@ == skipped(old(self)@),
            0 <= final(self)@.at <= final(self)@.plan.len(),
            match r {
                Ok(attempt) => {
                    &&& final(self)@.at < final(self)@.plan.len()
                    &&& attempt.0.deep_view() == final(self)@.plan[final(self)@.at].target
                    &&& final(self)@.plan[final(self)@.at].provider == Some(attempt.1)
                },
                Err(e) => {
                    &&& final(self)@.at == final(self)@.plan.len()
                    &&& e.deep_view() == exhausted(final(self)@.alias, final(self)@.last)
                },
            },
    {
        proof {
            use_type_invariant(&*self);
        }
        while self.at < self.plan.len()
            invariant
                self.at <= self.plan.len(),
                self@.plan == old(self)@.plan,
                skipped(self@) == skipped(old(self)@),
            decreases self.plan.len() - self.at,
        {
            let attempt = &self.plan[self.at];
            assert(self@.plan[self@.at] == attempt.deep_view());
            match &attempt.provider {
                Some(provider) => {
                    let target = ResolvedTarget {
                        provider_name: attempt.target.provider_name.clone(),
                        model: attempt.target.model.clone(),
                    };
                    return Ok((target, provider.clone()));
                },
                None => {
                    let mut text = "Provider '".to_owned();
                    text.append(attempt.target.provider_name.as_str());
                    text.append("' not found");
                    self.last = Some(GatewayError::Internal(text));
                    self.at = self.at + 1;
                },
            }
        }
        let mut text = self.alias.clone();
        text.append(" — last error: ");
        match &self.last {
            Some(e) => {
                text.append(e.message().as_str());
            },
            None => {
                text.append("unknown");
            },
        }
        Err(GatewayError::AllFallbacksExhausted(text))
    }

    /// Whether there is a target to try or being tried.
    pub fn pending(&self) -> (r: bool)
        ensures
            r == (self@.at < self@.plan.len()),
    {
        self.at < self.plan.len()
    }

    /// Takes down what the attempt on the current target came to.
    pub fn record(&mut self, reply: Result<(), GatewayError>) -> (r: Verdict)
        requires
            old(self)@.at < old(self)@.plan.len(),
        ensures
            match reply {
                Ok(_) => r is Answered && final(self)@ == old(self)@,
                Err(e) => if ends_run(e.deep_view(), old(self)@.streaming) {
                    r == Verdict::Failed(e) && final(self)@ == old(self)@
                } else {
                    r is TryNext && final(self)@ == moved_on(old(self)@, e.deep_view())
                },
            },
    {
        match reply {
            Ok(_) => Verdict::Answered,
            Err(e) => {
                let attempt = &self.plan[self.at];
                assert(self@.plan[self@.at] == attempt.deep_view());
                let remember = match e {
                    GatewayError::BackendError { status, body } => {
                        if !should_fallback(status) {
                            return Verdict::Failed(GatewayError::BackendError { status, body });
                        }
                        let mut text = "provider=".to_owned();
                        text.append(attempt.target.provider_name.as_str());
                        text.append(", model=");
                        text.append(attempt.target.model.as_str());
                        text.append(": ");
                        text.append(body.as_str());
                        GatewayError::BackendError { status, body: text }
                    },
                    GatewayError::Internal(text) => {
                        if self.streaming {
                            return Verdict::Failed(GatewayError::Internal(text));
                        }
                        GatewayError::Internal(text)
                    },
                    other => other,
                };
                self.last = Some(remember);
                self.at = self.at + 1;
                Verdict::TryNext
            },
        }
    }
}

/// The label that an attempt is counted under.
pub open spec fn attempt_word(reply: AttemptReply) -> Seq<char> {
    match reply {
        AttemptReply::Success => "success"@,
        AttemptReply::Failure(GatewayErrorView::BackendError { status, .. }) => if retriable(
            status,
        ) {
            "fallback"@
        } else {
            "error"@
        },
        AttemptReply::Failure(_) => "error"@,
    }
}

/// The label that an attempt is counted under.
pub fn attempt_label(reply: &Result<(), GatewayError>) -> (r: &'static str)
    ensures
        r@ == attempt_word(
            match *reply {
                Ok(_) => AttemptReply::Success,
                Err(e) => AttemptReply::Failure(e.deep_view()),
            },
        ),
{
    match reply {
        Ok(_) => "success",
        Err(e) => match e {
            GatewayError::BackendError { status, .. } => if should_fallback(*status) {
                "fallback"
            } else {
                "error"
            },
            _ => "error",
        },
    }
}

/// The label that a request is counted under, given the error that its run came to.
pub fn request_label(failure: &Option<GatewayError>) -> (r: &'static str)
    ensures
        r@ == (match *failure {
            None => "success"@,
            Some(GatewayError::AllFallbacksExhausted(_)) => "fallback_exhausted"@,
            Some(_) => "error"@,
        }),
{
    match failure {
        None => "success",
        Some(e) => match e {
            GatewayError::AllFallbacksExhausted(_) => "fallback_exhausted",
            _ => "error",
        },
    }
}

/// Whether the target at a place makes the run go on: its provider is not configured, or it fails
/// in a way that does not end the run.
pub open spec fn passes(run: RunView, replies: Seq<AttemptReply>, place: int) -> bool {
    run.plan[place].provider is None || (replies[place] matches AttemptReply::Failure(e)
        && !ends_run(e, run.streaming))
}

/// Whether a run gets to a place of the chain: all targets before it make it go on.
pub open spec fn reaches(run: RunView, replies: Seq<AttemptReply>, place: int) -> bool {
    run.at <= place && forall|k: int| run.at <= k < place ==> #[trigger] passes(run, replies, k)
}

/// Going to the next target whose provider is configured does not change what a run comes to.
pub proof fn law_skipping_keeps_result(run: RunView, replies: Seq<AttemptReply>)
    ensures
        run_result(skipped(run), replies) == run_result(run, replies),
    decreases run.plan.len() - run.at,
{
    if 0 <= run.at < run.plan.len() && run.plan[run.at].provider is None {
        law_skipping_keeps_result(
            RunView {
                at: run.at + 1,
                last: Some(missing_provider(run.plan[run.at].target)),
                ..run
            },
            replies,
        );
    }
}

/// Taking down what the current target replied decides the run, or leaves what it comes to as it
/// was.
pub proof fn law_recording_keeps_result(run: RunView, replies: Seq<AttemptReply>)
    requires
        0 <= run.at < run.plan.len(),
        run.plan[run.at].provider is Some,
    ensures
        run_result(run, replies) == (match replies[run.at] {
            AttemptReply::Success => RunResult::Answered(run.at),
            AttemptReply::Failure(e) => if ends_run(e, run.streaming) {
                RunResult::Failed(e)
            } else {
                run_result(moved_on(run, e), replies)
            },
        }),
{
}

/// The first target that answers gives the result: a run is answered by a target if and only if
/// that target answers and each one before it makes the run go on.
pub proof fn law_first_answer_wins(run: RunView, replies: Seq<AttemptReply>, place: int)
    requires
        0 <= run.at <= run.plan.len(),
    ensures
        run_result(run, replies) == RunResult::Answered(place) <==> {
            &&& place < run.plan.len()
            &&& reaches(run, replies, place)
            &&& run.plan[place].provider is Some
            &&& replies[place] is Success
        },
    decreases run.plan.len() - run.at,
{
    if run.at < run.plan.len() {
        let attempt = run.plan[run.at];
        if passes(run, replies, run.at) {
            let next = RunView {
                at: run.at + 1,
                last: if attempt.provider is None {
                    Some(missing_provider(attempt.target))
                } else {
                    Some(remembered(replies[run.at]->Failure_0, attempt.target))
                },
                ..run
            };
            law_first_answer_wins(next, replies, place);
            lemma_reaches_next(run, next, replies, place);
        } else if reaches(run, replies, place) && place > run.at {
            assert(passes(run, replies, run.at));
        }
    }
}

/// Where the first target makes a run go on, it gets to the same places as the run from there.
proof fn lemma_reaches_next(
    run: RunView,
    next: RunView,
    replies: Seq<AttemptReply>,
    place: int,
)
    requires
        next.at == run.at + 1,
        next.plan == run.plan,
        next.streaming == run.streaming,
        passes(run, replies, run.at),
    ensures
        place > run.at ==> reaches(next, replies, place) == reaches(run, replies, place),
{
    if place > run.at {
        if reaches(next, replies, place) {
            assert forall|k: int| run.at <= k < place implies #[trigger] passes(
                run,
                replies,
                k,
            ) by {
                if k > run.at {
                    assert(passes(next, replies, k));
                }
            }
        }
        if reaches(run, replies, place) {
            assert forall|k: int| next.at <= k < place implies #[trigger] passes(
                next,
                replies,
                k,
            ) by {
                assert(passes(run, replies, k));
            }
        }
    }
}

/// A run is exhausted only when every target has made it go on, and then always; the client is
/// answered with status 503.
pub proof fn law_exhausted_after_all(run: RunView, replies: Seq<AttemptReply>)
    requires
        0 <= run.at <= run.plan.len(),
        forall|k: int|
            run.at <= k < run.plan.len() ==> !(#[trigger] replies[k] matches AttemptReply::Failure(
                GatewayErrorView::AllFallbacksExhausted(_),
            )),
    ensures
        reaches(run, replies, run.plan.len() as int) <==> (run_result(run, replies)
            matches RunResult::Failed(GatewayErrorView::AllFallbacksExhausted(_))),
        reaches(run, replies, run.plan.len() as int) ==> (run_result(run, replies)
            matches RunResult::Failed(e) && e.http_status() == 503),
    decreases run.plan.len() - run.at,
{
    if run.at < run.plan.len() {
        let attempt = run.plan[run.at];
        if passes(run, replies, run.at) {
            let next = RunView {
                at: run.at + 1,
                last: if attempt.provider is None {
                    Some(missing_provider(attempt.target))
                } else {
                    Some(remembered(replies[run.at]->Failure_0, attempt.target))
                },
                ..run
            };
            law_exhausted_after_all(next, replies);
            lemma_reaches_next(run, next, replies, run.plan.len() as int);
        } else if reaches(run, replies, run.plan.len() as int) {
            assert(passes(run, replies, run.at));
        }
    }
}

/// The targets of a chain are tried by ascending priority.
pub proof fn law_priority_order(
    chain: Seq<ChainEntryView>,
    providers: Map<Seq<char>, ProviderConfig>,
    earlier: int,
    later: int,
)
    requires
        0 <= earlier <= later < chain.len(),
    ensures
        plan_of(targets_of(chain), providers).len() == chain.len(),
        plan_of(targets_of(chain), providers)[earlier].target == target_of(
            by_priority(chain)[earlier],
        ),
        plan_of(targets_of(chain), providers)[later].target == target_of(by_priority(chain)[later]),
        by_priority(chain)[earlier].priority <= by_priority(chain)[later].priority,
{
    law_by_priority(chain, 0);
}

} // verus!
