//! Chain descriptors, mining information, and the registry of enabled chains.
use vstd::prelude::*;
use crate::text::str_equal;

verus! {

/// One configured upstream chain.
pub struct PocChain {
    pub name: String,
    pub url: String,
    /// Lower number means higher priority.
    pub priority: u8,
    pub color: String,
    pub enabled: bool,
    pub is_pool: bool,
    pub is_bhd: bool,
    pub is_hpool: bool,
    pub is_hdpool: bool,
    pub account_key: Option<String>,
    pub miner_name: Option<String>,
    pub append_version_to_miner_name: bool,
    /// Chain-level target deadline.
    pub target_deadline: Option<u64>,
    /// Per-account target deadlines that override the chain-level one.
    pub numeric_id_to_target_deadline: Vec<(u64, u64)>,
    pub use_dynamic_deadlines: bool,
    pub allow_lower_block_heights: bool,
    pub requeue_interrupted_blocks: bool,
    /// `None` means unlimited.
    pub maximum_requeue_times: Option<u8>,
    pub get_mining_info_interval_secs: u64,
    /// Passphrases of the accounts that are solo mined through this chain.
    pub numeric_id_to_passphrase: Vec<(u64, String)>,
}

/// Mining information of one block.
pub struct MiningInfo {
    pub height: u32,
    pub base_target: u32,
    pub generation_signature: String,
    pub target_deadline: Option<u64>,
}

pub struct MiningInfoView {
    pub height: u32,
    pub base_target: u32,
    pub generation_signature: Seq<char>,
    pub target_deadline: Option<u64>,
}

impl View for MiningInfo {
    type V = MiningInfoView;

    open spec fn view(&self) -> MiningInfoView {
        MiningInfoView {
            height: self.height,
            base_target: self.base_target,
            generation_signature: self.generation_signature@,
            target_deadline: self.target_deadline,
        }
    }
}

impl MiningInfo {
    /// Mining information that no poll has produced: height 0, base target 0.
    pub fn empty() -> (r: MiningInfo)
        ensures
            r.height == 0,
            r.base_target == 0,
            r.generation_signature@ == Seq::<char>::empty(),
            r.target_deadline is None,
    {
        MiningInfo {
            height: 0,
            base_target: 0,
            generation_signature: String::new(),
            target_deadline: None,
        }
    }

    /// A copy with the same contents.
    pub fn duplicate(&self) -> (r: MiningInfo)
        ensures
            r@ == self@,
    {
        MiningInfo {
            height: self.height,
            base_target: self.base_target,
            generation_signature: self.generation_signature.clone(),
            target_deadline: self.target_deadline,
        }
    }
}

/// Why a configuration cannot be run.
#[derive(PartialEq, Eq, Structural, Debug, Clone, Copy)]
pub enum ConfigError {
    /// An enabled chain is marked both HDPool and HPool.
    HdpoolAndHpool,
    /// No chain is enabled.
    NoChains,
    /// More enabled chains than a chain index can number.
    TooManyChains,
    /// Two enabled chains share a priority while priority mode is on.
    DuplicatePriority,
    /// An enabled chain that is not HDPool-direct has no URL.
    MissingUrl,
}

/// The enabled chains of `s`, in configured order.
pub open spec fn enabled_chains(s: Seq<PocChain>) -> Seq<PocChain>
    decreases s.len(),
{
    if s.len() == 0 {
        s
    } else {
        let e = enabled_chains(s.drop_last());
        if s.last().enabled {
            e.push(s.last())
        } else {
            e
        }
    }
}

/// A chain that is mined through the HDPool websocket rather than a URL.
pub open spec fn is_websocket_direct(c: PocChain) -> bool {
    c.is_hdpool && c.account_key is Some
}

pub open spec fn url_missing(c: PocChain) -> bool {
    !is_websocket_direct(c) && c.url@.len() == 0
}

pub open spec fn has_dual_pool(e: Seq<PocChain>) -> bool {
    exists|i: int| 0 <= i < e.len() && #[trigger] e[i].is_hdpool && e[i].is_hpool
}

pub open spec fn has_duplicate_priority(e: Seq<PocChain>) -> bool {
    exists|i: int, j: int|
        0 <= i < e.len() && 0 <= j < e.len() && i != j && #[trigger] e[i].priority
            == #[trigger] e[j].priority
}

/// The first problem of a configuration, checked in this order: a chain both HDPool
/// and HPool, no chain enabled, too many chains, duplicate priorities in priority
/// mode, a missing URL.
pub open spec fn config_error(s: Seq<PocChain>, priority_mode: bool) -> Option<ConfigError> {
    let e = enabled_chains(s);
    if has_dual_pool(e) {
        Some(ConfigError::HdpoolAndHpool)
    } else if e.len() == 0 {
        Some(ConfigError::NoChains)
    } else if e.len() > 255 {
        Some(ConfigError::TooManyChains)
    } else if priority_mode && has_duplicate_priority(e) {
        Some(ConfigError::DuplicatePriority)
    } else if exists|i: int| 0 <= i < e.len() && url_missing(#[trigger] e[i]) {
        Some(ConfigError::MissingUrl)
    } else {
        None
    }
}

pub open spec fn names_chain(c: PocChain, url: Seq<char>, name: Seq<char>) -> bool {
    c.url@ == url && c.name@ == name
}

pub open spec fn is_first_named(e: Seq<PocChain>, url: Seq<char>, name: Seq<char>, k: int) -> bool {
    &&& 0 <= k < e.len()
    &&& names_chain(e[k], url, name)
    &&& forall|j: int| 0 <= j < k ==> !names_chain(#[trigger] e[j], url, name)
}

/// Index of the first enabled chain with this URL and name; 0 where none has them.
pub open spec fn chain_index_of(e: Seq<PocChain>, url: Seq<char>, name: Seq<char>) -> int {
    if exists|k: int| is_first_named(e, url, name, k) {
        choose|k: int| is_first_named(e, url, name, k)
    } else {
        0
    }
}

/// Number of chains in `e` with the given priority.
pub open spec fn count_priority(e: Seq<PocChain>, priority: u8) -> nat
    decreases e.len(),
{
    if e.len() == 0 {
        0
    } else {
        count_priority(e.drop_last(), priority) + if e.last().priority == priority {
            1nat
        } else {
            0nat
        }
    }
}

pub proof fn lemma_enabled_chains_enabled(s: Seq<PocChain>)
    ensures
        forall|k: int| 0 <= k < enabled_chains(s).len() ==> (#[trigger] enabled_chains(s)[k]).enabled,
    decreases s.len(),
{
    if s.len() > 0 {
        lemma_enabled_chains_enabled(s.drop_last());
    }
}

pub proof fn lemma_first_named_unique(e: Seq<PocChain>, url: Seq<char>, name: Seq<char>, k1: int, k2: int)
    requires
        is_first_named(e, url, name, k1),
        is_first_named(e, url, name, k2),
    ensures
        k1 == k2,
{
    if k1 < k2 {
        assert(!names_chain(e[k1], url, name));
    } else if k2 < k1 {
        assert(!names_chain(e[k2], url, name));
    }
}

/// The lookup of a chain index by (url, name) depends on the registry alone, which
/// never changes after it is built: it names the first enabled chain with that URL and
/// name, and every enabled chain is found at its own position when no earlier chain
/// shares its URL and name.
pub proof fn lemma_chain_index_stable(e: Seq<PocChain>, url: Seq<char>, name: Seq<char>, k: int)
    requires
        is_first_named(e, url, name, k),
    ensures
        chain_index_of(e, url, name) == k,
        names_chain(e[chain_index_of(e, url, name)], url, name),
{
    let c = choose|c: int| is_first_named(e, url, name, c);
    lemma_first_named_unique(e, url, name, c, k);
}

/// The enabled chains of the configuration, numbered in configured order.
pub struct Registry {
    chains: Vec<PocChain>,
}

impl View for Registry {
    type V = Seq<PocChain>;

    closed spec fn view(&self) -> Seq<PocChain> {
        self.chains@
    }
}

impl Registry {
    pub open spec fn wf(&self) -> bool {
        &&& 0 < self@.len() <= 255
        &&& forall|k: int| 0 <= k < self@.len() ==> (#[trigger] self@[k]).enabled
    }

    /// Checks the configuration and keeps its enabled chains.
    pub fn new(chains: Vec<PocChain>, priority_mode: bool) -> (r: Result<Registry, ConfigError>)
        ensures
            match r {
                Ok(reg) => config_error(chains@, priority_mode) is None && reg.wf() && reg@
                    == enabled_chains(chains@),
                Err(e) => config_error(chains@, priority_mode) == Some(e),
            },
    {
        let ghost orig = chains@;
        let mut all = chains;
        let mut enabled: Vec<PocChain> = Vec::new();
        let ghost mut k: int = 0;
        while all.len() > 0
            invariant
                0 <= k <= orig.len(),
                all@ == orig.subrange(k, orig.len() as int),
                enabled@ == enabled_chains(orig.subrange(0, k)),
            decreases all.len(),
        {
            let c = all.remove(0);
            assert(orig.subrange(0, k + 1).drop_last() =~= orig.subrange(0, k));
            assert(orig.subrange(0, k + 1).last() == c);
            if c.enabled {
                enabled.push(c);
            }
            proof {
                k = k + 1;
            }
            assert(all@ =~= orig.subrange(k, orig.len() as int));
        }
        assert(orig.subrange(0, orig.len() as int) =~= orig);
        let ghost e = enabled@;
        let mut i: usize = 0;
        while i < enabled.len()
            invariant
                i <= enabled.len(),
                enabled@ == e,
                e == enabled_chains(orig),
                orig == chains@,
                forall|j: int| 0 <= j < i ==> !(#[trigger] e[j].is_hdpool && e[j].is_hpool),
            decreases enabled.len() - i,
        {
            if enabled[i].is_hdpool && enabled[i].is_hpool {
                assert(e[i as int].is_hdpool && e[i as int].is_hpool);
                assert(config_error(orig, priority_mode) == Some(ConfigError::HdpoolAndHpool));
                return Err(ConfigError::HdpoolAndHpool);
            }
            i = i + 1;
        }
        if enabled.len() == 0 {
            assert(config_error(orig, priority_mode) == Some(ConfigError::NoChains));
                return Err(ConfigError::NoChains);
        }
        if enabled.len() > 255 {
            assert(config_error(orig, priority_mode) == Some(ConfigError::TooManyChains));
                return Err(ConfigError::TooManyChains);
        }
        assert(!has_dual_pool(e));
        if priority_mode {
            let mut i: usize = 0;
            while i < enabled.len()
                invariant
                    i <= enabled.len(),
                    enabled@ == e,
                    0 < e.len() <= 255,
                    !has_dual_pool(e),
                    e == enabled_chains(orig),
                    orig == chains@,
                    priority_mode,
                orig == chains@,
                    forall|a: int, b: int|
                        0 <= a < i && 0 <= b < e.len() && a != b ==> #[trigger] e[a].priority
                            != #[trigger] e[b].priority,
                decreases enabled.len() - i,
            {
                let mut j: usize = 0;
                while j < enabled.len()
                    invariant
                        i < enabled.len(),
                        j <= enabled.len(),
                        enabled@ == e,
                        0 < e.len() <= 255,
                        !has_dual_pool(e),
                        e == enabled_chains(orig),
                        orig == chains@,
                        priority_mode,
                    orig == chains@,
                    priority_mode,
                orig == chains@,
                        forall|a: int, b: int|
                            0 <= a < i && 0 <= b < e.len() && a != b ==> #[trigger] e[a].priority
                                != #[trigger] e[b].priority,
                        forall|b: int|
                            0 <= b < j && b != i ==> e[i as int].priority != #[trigger] e[b].priority,
                    decreases enabled.len() - j,
                {
                    if j != i && enabled[i].priority == enabled[j].priority {
                        assert(has_duplicate_priority(e));
                        assert(config_error(orig, priority_mode) == Some(ConfigError::DuplicatePriority));
                return Err(ConfigError::DuplicatePriority);
                    }
                    j = j + 1;
                }
                i = i + 1;
            }
            assert(!has_duplicate_priority(e)) by {
                if has_duplicate_priority(e) {
                    let (a, b) = choose|a: int, b: int|
                        0 <= a < e.len() && 0 <= b < e.len() && a != b && #[trigger] e[a].priority
                            == #[trigger] e[b].priority;
                    assert(e[a].priority != e[b].priority);
                }
            }
        }
        let mut i: usize = 0;
        while i < enabled.len()
            invariant
                i <= enabled.len(),
                enabled@ == e,
                0 < e.len() <= 255,
                !has_dual_pool(e),
                e == enabled_chains(orig),
                orig == chains@,
                priority_mode ==> !has_duplicate_priority(e),
                forall|j: int| 0 <= j < i ==> !url_missing(#[trigger] e[j]),
            decreases enabled.len() - i,
        {
            let c = &enabled[i];
            let websocket_direct = c.is_hdpool && c.account_key.is_some();
            if !websocket_direct && c.url.as_str().unicode_len() == 0 {
                assert(url_missing(e[i as int]));
                assert(config_error(orig, priority_mode) == Some(ConfigError::MissingUrl));
                return Err(ConfigError::MissingUrl);
            }
            i = i + 1;
        }
        assert(config_error(orig, priority_mode) is None);
        proof {
            lemma_enabled_chains_enabled(orig);
        }
        Ok(Registry { chains: enabled })
    }

    /// Number of enabled chains.
    pub fn len(&self) -> (r: usize)
        ensures
            r == self@.len(),
    {
        self.chains.len()
    }

    /// Index of the first enabled chain with this URL and name; 0 where none has them.
    pub fn get_chain_index(&self, chain_url: &str, chain_name: &str) -> (r: u8)
        requires
            self.wf(),
        ensures
            r == chain_index_of(self@, chain_url@, chain_name@),
    {
        let mut i: usize = 0;
        while i < self.chains.len()
            invariant
                self.wf(),
                i <= self.chains@.len(),
                forall|j: int| 0 <= j < i ==> !names_chain(#[trigger] self.chains@[j], chain_url@, chain_name@),
            decreases self.chains.len() - i,
        {
            let c = &self.chains[i];
            if str_equal(c.url.as_str(), chain_url) && str_equal(c.name.as_str(), chain_name) {
                proof {
                    lemma_chain_index_stable(self@, chain_url@, chain_name@, i as int);
                }
                return i as u8;
            }
            i = i + 1;
        }
        assert(!exists|k: int| is_first_named(self@, chain_url@, chain_name@, k));
        0
    }

    /// The enabled chain at `index`.
    pub fn get_chain_from_index(&self, index: u8) -> (r: Option<&PocChain>)
        ensures
            r is Some <==> (index as int) < self@.len(),
            r is Some ==> *r->0 == self@[index as int],
    {
        if (index as usize) < self.chains.len() {
            Some(&self.chains[index as usize])
        } else {
            None
        }
    }

    /// Number of enabled chains with the given priority.
    pub fn get_num_chains_with_priority(&self, priority: u8) -> (r: u8)
        requires
            self.wf(),
        ensures
            r == count_priority(self@, priority),
    {
        let mut count: u8 = 0;
        let mut i: usize = 0;
        while i < self.chains.len()
            invariant
                self.wf(),
                i <= self.chains@.len(),
                count == count_priority(self.chains@.subrange(0, i as int), priority),
                count <= i,
            decreases self.chains.len() - i,
        {
            assert(self.chains@.subrange(0, i + 1).drop_last() =~= self.chains@.subrange(0, i as int));
            if self.chains[i].priority == priority {
                count = count + 1;
            }
            i = i + 1;
        }
        assert(self.chains@.subrange(0, self.chains@.len() as int) =~= self.chains@);
        count
    }
}

} // verus!
