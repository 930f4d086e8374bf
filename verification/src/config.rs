//! The configuration: the server, the providers and the aliases with their chains.

use vstd::prelude::*;

use crate::names::NameMap;

verus! {

/// The whole configuration.
#[derive(Debug, Clone, PartialEq)]
pub struct AppConfig {
    pub server: ServerConfig,
    pub providers: NameMap<ProviderConfig>,
    pub aliases: NameMap<AliasConfig>,
}

/// Where the server listens, how long it waits for a backend, and the token of the admin
/// endpoint.
#[derive(Debug, Clone, PartialEq)]
pub struct ServerConfig {
    pub host: String,
    pub port: u16,
    pub timeout_seconds: u64,
    pub admin_token: Option<String>,
}

/// A provider.
#[derive(Debug, PartialEq)]
pub struct ProviderConfig {
    pub base_url: String,
    pub api_key: String,
    pub provider_type: String,
    /// How the key is sent.
    /// - `bearer` (the default): `Authorization: Bearer <api_key>`
    /// - `anthropic`: `x-api-key: <api_key>` and `anthropic-version: 2023-06-01`
    pub auth_style: String,
}

impl Clone for ProviderConfig {
    fn clone(&self) -> (r: ProviderConfig)
        ensures
            r == *self,
    {
        ProviderConfig {
            base_url: self.base_url.clone(),
            api_key: self.api_key.clone(),
            provider_type: self.provider_type.clone(),
            auth_style: self.auth_style.clone(),
        }
    }
}

/// An alias that clients ask for: the chain of backends behind it.
#[derive(Debug, Clone, PartialEq)]
pub struct AliasConfig {
    pub description: Option<String>,
    pub chain: Vec<ChainEntry>,
}

/// The model of an alias.
pub struct AliasConfigView {
    pub description: Option<Seq<char>>,
    pub chain: Seq<ChainEntryView>,
}

impl DeepView for AliasConfig {
    type V = AliasConfigView;

    open spec fn deep_view(&self) -> AliasConfigView {
        AliasConfigView {
            description: self.description.deep_view(),
            chain: self.chain.deep_view(),
        }
    }
}

/// A backend of a chain.
#[derive(Debug, Clone, PartialEq)]
pub struct ChainEntry {
    pub provider: String,
    pub model: String,
    pub priority: u32,
}

/// The model of a backend of a chain.
pub struct ChainEntryView {
    pub provider: Seq<char>,
    pub model: Seq<char>,
    pub priority: u32,
}

impl DeepView for ChainEntry {
    type V = ChainEntryView;

    open spec fn deep_view(&self) -> ChainEntryView {
        ChainEntryView {
            provider: self.provider@,
            model: self.model@,
            priority: self.priority,
        }
    }
}

/// How many seconds to wait for a backend where nothing is said.
pub fn default_timeout() -> (r: u64)
    ensures
        r == 30,
{
    30
}

/// The type of a provider where nothing is said.
pub fn default_provider_type() -> (r: String)
    ensures
        r@ == "openai"@,
{
    "openai".to_owned()
}

/// The way of sending the key where nothing is said.
pub fn default_auth_style() -> (r: String)
    ensures
        r@ == "bearer"@,
{
    "bearer".to_owned()
}

/// The entries with one more, which comes after those of its own priority and of smaller ones.
pub open spec fn placed(sorted: Seq<ChainEntryView>, entry: ChainEntryView) -> Seq<ChainEntryView>
    decreases sorted.len(),
{
    if sorted.len() > 0 && sorted.last().priority > entry.priority {
        placed(sorted.drop_last(), entry).push(sorted.last())
    } else {
        sorted.push(entry)
    }
}

/// The entries by ascending priority, those of one priority in the order in which they came.
pub open spec fn by_priority(chain: Seq<ChainEntryView>) -> Seq<ChainEntryView>
    decreases chain.len(),
{
    if chain.len() == 0 {
        Seq::empty()
    } else {
        placed(by_priority(chain.drop_last()), chain.last())
    }
}

/// Whether the priorities ascend.
pub open spec fn ascending(chain: Seq<ChainEntryView>) -> bool {
    forall|i: int, j: int|
        0 <= i <= j < chain.len() ==> (#[trigger] chain[i]).priority <= (
        #[trigger] chain[j]).priority
}

/// The entries of one priority, in order.
pub open spec fn of_priority(chain: Seq<ChainEntryView>, priority: u32) -> Seq<ChainEntryView>
    decreases chain.len(),
{
    if chain.len() == 0 {
        Seq::empty()
    } else {
        let front = of_priority(chain.drop_last(), priority);
        if chain.last().priority == priority {
            front.push(chain.last())
        } else {
            front
        }
    }
}

/// An entry is placed where the greater priorities begin.
proof fn lemma_placed(sorted: Seq<ChainEntryView>, entry: ChainEntryView, at: int)
    requires
        0 <= at <= sorted.len(),
        at > 0 ==> sorted[at - 1].priority <= entry.priority,
        forall|k: int| at <= k < sorted.len() ==> (#[trigger] sorted[k]).priority > entry.priority,
    ensures
        placed(sorted, entry) == sorted.insert(at, entry),
    decreases sorted.len(),
{
    if sorted.len() > 0 && sorted.last().priority > entry.priority {
        assert(at < sorted.len());
        lemma_placed(sorted.drop_last(), entry, at);
        assert(placed(sorted, entry) =~= sorted.insert(at, entry));
    } else {
        assert(at == sorted.len());
        assert(placed(sorted, entry) =~= sorted.insert(at, entry));
    }
}

/// Placing an entry keeps the order, adds that entry and no other, and puts it last among those
/// of its priority.
proof fn lemma_placed_keeps(sorted: Seq<ChainEntryView>, entry: ChainEntryView, priority: u32)
    requires
        ascending(sorted),
    ensures
        ascending(placed(sorted, entry)),
        placed(sorted, entry).to_multiset() == sorted.to_multiset().insert(entry),
        of_priority(placed(sorted, entry), priority) == (if entry.priority == priority {
            of_priority(sorted, priority).push(entry)
        } else {
            of_priority(sorted, priority)
        }),
    decreases sorted.len(),
{
    broadcast use vstd::seq_lib::group_to_multiset_ensures;

    let whole = placed(sorted, entry);
    if sorted.len() > 0 && sorted.last().priority > entry.priority {
        let front = sorted.drop_last();
        let last = sorted.last();
        assert forall|i: int, j: int| 0 <= i <= j < front.len() implies (
        #[trigger] front[i]).priority <= (#[trigger] front[j]).priority by {
            assert(front[i] == sorted[i] && front[j] == sorted[j]);
        }
        lemma_placed_keeps(front, entry, priority);
        let shorter = placed(front, entry);
        assert forall|i: int| 0 <= i < shorter.len() implies (#[trigger] shorter[i]).priority
            <= last.priority by {
            assert(shorter.to_multiset().contains(shorter[i]));
            if shorter[i] != entry {
                assert(front.to_multiset().contains(shorter[i]));
                assert(front.contains(shorter[i]));
                let k = choose|k: int| 0 <= k < front.len() && front[k] == shorter[i];
                assert(sorted[k] == shorter[i]);
                assert(sorted[k].priority <= sorted[sorted.len() - 1].priority);
            }
        }
        assert(whole.drop_last() =~= shorter);
        assert(sorted =~= front.push(last));
        assert(whole.to_multiset() =~= sorted.to_multiset().insert(entry));
        assert(of_priority(whole, priority) =~= (if entry.priority == priority {
            of_priority(sorted, priority).push(entry)
        } else {
            of_priority(sorted, priority)
        }));
    } else {
        assert(whole.drop_last() =~= sorted);
        assert forall|i: int, j: int| 0 <= i <= j < whole.len() implies (
        #[trigger] whole[i]).priority <= (#[trigger] whole[j]).priority by {
            if sorted.len() > 0 && i < sorted.len() {
                assert(sorted[i].priority <= sorted[sorted.len() - 1].priority);
            }
        }
    }
}

/// Sorting by priority gives the same entries, with ascending priorities, and those of any one
/// priority in the order in which they came.
pub proof fn law_by_priority(chain: Seq<ChainEntryView>, priority: u32)
    ensures
        by_priority(chain).to_multiset() == chain.to_multiset(),
        by_priority(chain).len() == chain.len(),
        ascending(by_priority(chain)),
        of_priority(by_priority(chain), priority) == of_priority(chain, priority),
    decreases chain.len(),
{
    broadcast use vstd::seq_lib::group_to_multiset_ensures;

    if chain.len() > 0 {
        law_by_priority(chain.drop_last(), priority);
        lemma_placed_keeps(by_priority(chain.drop_last()), chain.last(), priority);
        assert(chain =~= chain.drop_last().push(chain.last()));
        assert(by_priority(chain).len() == by_priority(chain).to_multiset().len());
        assert(chain.len() == chain.to_multiset().len());
    }
}

impl AliasConfig {
    /// The chain's entries by ascending priority.
    pub fn sorted_chain(&self) -> (r: Vec<&ChainEntry>)
        ensures
            r.deep_view() == by_priority(self.chain.deep_view()),
    {
        let ghost all = self.chain.deep_view();
        let mut out: Vec<&ChainEntry> = Vec::new();
        let mut i: usize = 0;
        assert(out.deep_view() =~= by_priority(all.take(0)));
        while i < self.chain.len()
            invariant
                i <= self.chain.len(),
                all == self.chain.deep_view(),
                out.deep_view() == by_priority(all.take(i as int)),
            decreases self.chain.len() - i,
        {
            let entry = &self.chain[i];
            let ghost sorted = out.deep_view();
            let mut at: usize = out.len();
            while at > 0 && out[at - 1].priority > entry.priority
                invariant
                    at <= out.len(),
                    sorted == out.deep_view(),
                    forall|k: int|
                        at <= k < sorted.len() ==> (#[trigger] sorted[k]).priority
                            > entry.priority,
                decreases at,
            {
                assert(sorted[at - 1] == out@[at - 1].deep_view());
                at -= 1;
            }
            proof {
                if at > 0 {
                    assert(sorted[at - 1] == out@[at - 1].deep_view());
                }
                lemma_placed(sorted, entry.deep_view(), at as int);
                assert(all.take(i + 1).drop_last() =~= all.take(i as int));
                assert(all.take(i + 1).last() == entry.deep_view());
            }
            out.insert(at, entry);
            assert(out.deep_view() =~= sorted.insert(at as int, entry.deep_view()));
            i += 1;
        }
        assert(all.take(i as int) =~= all);
        out
    }
}

/// The first provider of a chain that is not among the known ones.
pub open spec fn first_unknown(
    chain: Seq<ChainEntryView>,
    providers: Set<Seq<char>>,
) -> Option<Seq<char>>
    decreases chain.len(),
{
    if chain.len() == 0 {
        None
    } else {
        match first_unknown(chain.drop_last(), providers) {
            Some(p) => Some(p),
            None => if providers.contains(chain.last().provider) {
                None
            } else {
                Some(chain.last().provider)
            },
        }
    }
}

/// What is wrong with an alias: an unknown provider in its chain, or an empty chain.
pub open spec fn alias_fault(
    name: Seq<char>,
    alias: AliasConfigView,
    providers: Set<Seq<char>>,
) -> Option<Seq<char>> {
    match first_unknown(alias.chain, providers) {
        Some(p) => Some("alias '"@ + name + "' references unknown provider '"@ + p + "'"@),
        None => if alias.chain.len() == 0 {
            Some("alias '"@ + name + "' has empty chain"@)
        } else {
            None
        },
    }
}

impl AppConfig {
    /// What is wrong with the alias of a name.
    pub open spec fn fault(&self, name: Seq<char>) -> Option<Seq<char>> {
        alias_fault(name, self.aliases@[name].deep_view(), self.providers@.dom())
    }

    /// Whether nothing is wrong with any alias.
    pub open spec fn valid(&self) -> bool {
        forall|name: Seq<char>| #[trigger]
            self.aliases@.contains_key(name) ==> self.fault(name) is None
    }

    /// The first provider of a chain that is not among the known ones.
    fn unknown_provider(&self, chain: &Vec<ChainEntry>) -> (r: Option<String>)
        ensures
            r.deep_view() == first_unknown(chain.deep_view(), self.providers@.dom()),
    {
        let ghost all = chain.deep_view();
        let mut i: usize = 0;
        let mut found: Option<String> = None;
        while i < chain.len()
            invariant
                i <= chain.len(),
                all == chain.deep_view(),
                found.deep_view() == first_unknown(all.take(i as int), self.providers@.dom()),
            decreases chain.len() - i,
        {
            proof {
                assert(all.take(i + 1).drop_last() =~= all.take(i as int));
                assert(all.take(i + 1).last() == chain@[i as int].deep_view());
            }
            if found.is_none() && !self.providers.contains_key(chain[i].provider.as_str()) {
                found = Some(chain[i].provider.clone());
            }
            i += 1;
        }
        assert(all.take(i as int) =~= all);
        found
    }

    /// Checks that each alias has a chain and that each provider of a chain is known. An error
    /// says what is wrong with one of the aliases.
    pub fn validate(&self) -> (r: Result<(), String>)
        ensures
            match r {
                Ok(_) => self.valid(),
                Err(e) => exists|name: Seq<char>| #[trigger]
                    self.aliases@.contains_key(name) && self.fault(name) == Some(e@),
            },
    {
        let names = self.aliases.names();
        let mut i: usize = 0;
        while i < names.len()
            invariant
                i <= names.len(),
                names.deep_view() == self.aliases.order(),
                forall|k: int|
                    0 <= k < i ==> self.fault(#[trigger] self.aliases.order()[k]) is None,
            decreases names.len() - i,
        {
            let (name, alias) = self.aliases.at(i);
            match self.unknown_provider(&alias.chain) {
                Some(p) => {
                    let mut e = "alias '".to_owned();
                    e.append(name);
                    e.append("' references unknown provider '");
                    e.append(p.as_str());
                    e.append("'");
                    assert(self.aliases@.contains_key(name@) && self.fault(name@) == Some(e@));
                    return Err(e);
                },
                None => {},
            }
            if alias.chain.len() == 0 {
                let mut e = "alias '".to_owned();
                e.append(name);
                e.append("' has empty chain");
                assert(self.aliases@.contains_key(name@) && self.fault(name@) == Some(e@));
                return Err(e);
            }
            i += 1;
        }
        proof {
            assert forall|name: Seq<char>| #[trigger]
                self.aliases@.contains_key(name) implies self.fault(name) is None by {
                assert(self.aliases.order().to_set().contains(name));
                let k = choose|k: int|
                    0 <= k < self.aliases.order().len() && self.aliases.order()[k] == name;
                assert(self.fault(self.aliases.order()[k]) is None);
            }
        }
        Ok(())
    }

    /// The configuration itself, where it is valid.
    pub fn checked(self) -> (r: Result<AppConfig, String>)
        ensures
            match r {
                Ok(config) => config == self && self.valid(),
                Err(e) => exists|name: Seq<char>| #[trigger]
                    self.aliases@.contains_key(name) && self.fault(name) == Some(e@),
            },
    {
        match self.validate() {
            Ok(_) => Ok(self),
            Err(e) => Err(e),
        }
    }

    /// The configuration to run with after a reload, and what the reload came to: the numbers of
    /// aliases and providers, or an error. A configuration that could not be read, or is not
    /// valid, leaves the running one in place.
    pub fn reload(self, read: Result<AppConfig, String>) -> (r: (
        AppConfig,
        Result<(usize, usize), String>,
    ))
        ensures
            match read {
                Ok(fresh) => if fresh.valid() {
                    &&& r.0 == fresh
                    &&& r.1 matches Ok(counts)
                    &&& counts.0 == fresh.aliases@.dom().len()
                    &&& counts.1 == fresh.providers@.dom().len()
                } else {
                    &&& r.0 == self
                    &&& r.1 matches Err(e)
                    &&& exists|name: Seq<char>| #[trigger]
                        fresh.aliases@.contains_key(name) && fresh.fault(name) == Some(e@)
                },
                Err(e) => r.0 == self && r.1 == Err::<(usize, usize), String>(e),
            },
    {
        match read {
            Ok(fresh) => match fresh.checked() {
                Ok(config) => {
                    let counts = (config.aliases.len(), config.providers.len());
                    (config, Ok(counts))
                },
                Err(e) => (self, Err(e)),
            },
            Err(e) => (self, Err(e)),
        }
    }
}

} // verus!
