//! From an alias to the chain of backends behind it.

use vstd::prelude::*;

use crate::config::{by_priority, AppConfig, ChainEntryView};
use crate::error::{GatewayError, GatewayErrorView};

verus! {

/// A resolved target: which provider and model to call.
#[derive(Debug, Clone, PartialEq)]
pub struct ResolvedTarget {
    pub provider_name: String,
    pub model: String,
}

/// The model of a target.
pub struct ResolvedTargetView {
    pub provider_name: Seq<char>,
    pub model: Seq<char>,
}

impl DeepView for ResolvedTarget {
    type V = ResolvedTargetView;

    open spec fn deep_view(&self) -> ResolvedTargetView {
        ResolvedTargetView { provider_name: self.provider_name@, model: self.model@ }
    }
}

/// The target that an entry of a chain names.
pub open spec fn target_of(entry: ChainEntryView) -> ResolvedTargetView {
    ResolvedTargetView { provider_name: entry.provider, model: entry.model }
}

/// The targets of a chain, by ascending priority.
pub open spec fn targets_of(chain: Seq<ChainEntryView>) -> Seq<ResolvedTargetView> {
    by_priority(chain).map_values(|e: ChainEntryView| target_of(e))
}

/// Resolve a model alias into an ordered fallback chain. An alias that is not configured is an
/// error.
pub fn resolve_alias(config: &AppConfig, alias: &str) -> (r: Result<
    Vec<ResolvedTarget>,
    GatewayError,
>)
    ensures
        match r {
            Ok(targets) => config.aliases@.contains_key(alias@) && targets.deep_view()
                == targets_of(config.aliases@[alias@].chain.deep_view()),
            Err(e) => !config.aliases@.contains_key(alias@) && e.deep_view()
                == GatewayErrorView::UnknownAlias(alias@),
        },
{
    match config.aliases.get(alias) {
        None => Err(GatewayError::UnknownAlias(alias.to_owned())),
        Some(alias_config) => {
            let chain = alias_config.sorted_chain();
            let ghost sorted = by_priority(alias_config.chain.deep_view());
            let mut targets: Vec<ResolvedTarget> = Vec::new();
            let mut i: usize = 0;
            while i < chain.len()
                invariant
                    i <= chain.len(),
                    chain.deep_view() == sorted,
                    targets.len() == i,
                    forall|k: int|
                        0 <= k < i ==> (#[trigger] targets@[k]).deep_view() == target_of(sorted[k]),
                decreases chain.len() - i,
            {
                assert(sorted[i as int] == chain@[i as int].deep_view());
                targets.push(
                    ResolvedTarget {
                        provider_name: chain[i].provider.clone(),
                        model: chain[i].model.clone(),
                    },
                );
                i += 1;
            }
            assert(targets.deep_view() =~= targets_of(alias_config.chain.deep_view()));
            Ok(targets)
        },
    }
}

} // verus!
