//! Per-chain runtime state and the arbiter that decides which chain is mined.
use vstd::prelude::*;
use crate::chain::{MiningInfo, PocChain, Registry};
use crate::json::{mining_info_json, mining_info_to_json};
use vstd::string::*;

verus! {

/// Policy options of the arbiter.
#[derive(Clone, Copy, Debug)]
pub struct ArbiterConfig {
    /// Seconds a chain must be mined before a chain of the same or lower priority
    /// may displace it.
    pub grace_period_secs: u32,
    /// Priority mode when true, first-in first-out otherwise.
    pub priority_mode: bool,
    pub interrupt_lower_priority_blocks: bool,
}

/// The requeue number of a block and the chain's maximum.
#[derive(PartialEq, Eq, Structural, Clone, Copy, Debug)]
pub struct RequeueCount {
    pub number: u8,
    pub maximum: u8,
}

/// How the previous block ended, for the narration of a block start.
#[derive(PartialEq, Eq, Structural, Clone, Copy, Debug)]
pub enum LastBlockInfo {
    Completed { seconds: u64, chain: u8 },
    Superseded { seconds: u64, chain: u8 },
    Interrupted { seconds: u64, chain: u8 },
    /// `times` is given where the chain has a maximum.
    Requeued { times: Option<RequeueCount>, seconds: u64, chain: u8 },
}

/// Runtime state of one chain.
pub struct ChainState {
    /// Latest mining information and the millisecond time it arrived.
    pub latest: Option<(MiningInfo, u64)>,
    /// Height being (or last) mined and the millisecond time its mining started.
    pub queued: Option<(u32, u64)>,
    /// Height and the number of times it was requeued.
    pub requeue: Option<(u32, u8)>,
    /// Last height whose start was announced.
    pub block_start_printed: Option<u32>,
}

pub open spec fn latest_height(s: ChainState) -> u32 {
    match s.latest {
        Some((m, _)) => m.height,
        None => 0,
    }
}

pub open spec fn latest_info(s: ChainState) -> MiningInfo {
    match s.latest {
        Some((m, _)) => m,
        None => arbitrary(),
    }
}

pub open spec fn latest_time(s: ChainState) -> u64 {
    match s.latest {
        Some((_, t)) => t,
        None => 0,
    }
}

pub open spec fn queued_height(s: ChainState) -> u32 {
    match s.queued {
        Some((h, _)) => h,
        None => 0,
    }
}

/// A chain whose latest block has not been started yet.
pub open spec fn is_queued(s: ChainState) -> bool {
    queued_height(s) < latest_height(s)
}

/// How often a chain may requeue one height; unlimited is `u8::MAX`.
pub open spec fn max_requeues(c: PocChain) -> u8 {
    match c.maximum_requeue_times {
        Some(m) => m,
        None => u8::MAX,
    }
}

/// Milliseconds from `start` to `now`; 0 where the clock went back.
pub open spec fn elapsed_ms(start: u64, now: u64) -> u64 {
    if now >= start {
        (now - start) as u64
    } else {
        0
    }
}

pub open spec fn requeue_count_at(s: ChainState, height: u32) -> u8 {
    match s.requeue {
        Some((h, n)) => if h == height {
            n
        } else {
            0
        },
        None => 0,
    }
}

/// Whether `k` is the pick of the queue: the first queued chain with the lowest
/// priority number (priority mode) or the oldest latest block (first-in first-out).
pub open spec fn is_queue_pick(
    states: Seq<ChainState>,
    chains: Seq<PocChain>,
    priority_mode: bool,
    k: int,
) -> bool {
    &&& 0 <= k < states.len()
    &&& is_queued(states[k])
    &&& forall|j: int|
        0 <= j < states.len() && is_queued(#[trigger] states[j]) ==> if priority_mode {
            chains[k].priority <= chains[j].priority && (j < k ==> chains[k].priority
                < chains[j].priority)
        } else {
            latest_time(states[k]) <= latest_time(states[j]) && (j < k ==> latest_time(
                states[k],
            ) < latest_time(states[j]))
        }
}

pub open spec fn any_queued(states: Seq<ChainState>) -> bool {
    exists|k: int| 0 <= k < states.len() && is_queued(#[trigger] states[k])
}

/// 1 when `p` outranks `current`, 0 when equal, -1 when below.
pub open spec fn relation(p: u8, current: u8) -> i8 {
    if p < current {
        1
    } else if p == current {
        0
    } else {
        -1i8
    }
}

/// Whether `k` is the first chain whose latest height is `height` or `height - 1`.
pub open spec fn is_height_match(states: Seq<ChainState>, height: u32, k: int) -> bool {
    &&& 0 <= k < states.len()
    &&& matches_height(states[k], height)
    &&& forall|j: int| 0 <= j < k ==> !matches_height(#[trigger] states[j], height)
}

/// The chain that a submission for `height` belongs to: the current chain for height
/// 0; else the first chain whose latest height is `height` or `height - 1`, and the
/// current chain where none is.
pub open spec fn height_chain(states: Seq<ChainState>, height: u32, current: int) -> int {
    if height == 0 {
        current
    } else if exists|k: int| is_height_match(states, height, k) {
        choose|k: int| is_height_match(states, height, k)
    } else {
        current
    }
}

/// Milliseconds since the block of the chain that `height` belongs to started.
pub open spec fn since_start_ms(states: Seq<ChainState>, height: u32, current: int, now: u64) -> u64 {
    match states[height_chain(states, height, current)].queued {
        Some((_, start)) => elapsed_ms(start, now),
        None => 0,
    }
}

/// Only one chain is the first to match a height.
pub proof fn lemma_height_match_unique(states: Seq<ChainState>, height: u32, k: int)
    requires
        is_height_match(states, height, k),
    ensures
        height_chain(states, height, 0) == k,
        forall|c: int| height_chain(states, height, c) == k,
{
    let j = choose|j: int| is_height_match(states, height, j);
    if j < k {
        assert(!matches_height(states[j], height));
    } else if k < j {
        assert(!matches_height(states[k], height));
    }
}

/// Whether a chain's latest block is `height` or the one before it; a chain without
/// mining information matches no height, and nothing matches height 0.
pub open spec fn matches_height(s: ChainState, height: u32) -> bool {
    &&& height > 0
    &&& s.latest is Some
    &&& (latest_height(s) == height || latest_height(s) + 1 == height)
}

fn empty_state() -> (r: ChainState)
    ensures
        r.latest is None,
        r.queued is None,
        r.requeue is None,
        r.block_start_printed is None,
{
    ChainState { latest: None, queued: None, requeue: None, block_start_printed: None }
}

/// The shared picture of what is being mined.
pub struct Arbiter {
    config: ArbiterConfig,
    registry: Registry,
    states: Vec<ChainState>,
    current_chain_index: u8,
    cache: Vec<Option<(u32, String)>>,
    last_mining_info_json: String,
}

impl Arbiter {
    pub closed spec fn chains(&self) -> Seq<PocChain> {
        self.registry@
    }

    pub closed spec fn states(&self) -> Seq<ChainState> {
        self.states@
    }

    pub closed spec fn current(&self) -> int {
        self.current_chain_index as int
    }

    pub closed spec fn config(&self) -> ArbiterConfig {
        self.config
    }

    /// Cached mining-info JSON of each chain, with the height it was made for.
    pub closed spec fn cache(&self) -> Seq<Option<(u32, Seq<char>)>> {
        Seq::new(
            self.cache@.len(),
            |k: int|
                match self.cache@[k] {
                    Some((h, j)) => Some((h, j@)),
                    None => None,
                },
        )
    }

    /// The JSON served while a newer block has not been announced.
    pub closed spec fn last_json(&self) -> Seq<char> {
        self.last_mining_info_json@
    }

    /// Exactly one current chain, and it is an enabled one; one state per chain; no
    /// chain requeued more often than its maximum.
    pub open spec fn wf(&self) -> bool {
        &&& 0 < self.chains().len() <= 255
        &&& forall|k: int| 0 <= k < self.chains().len() ==> (#[trigger] self.chains()[k]).enabled
        &&& self.states().len() == self.chains().len()
        &&& self.cache().len() == self.chains().len()
        &&& 0 <= self.current() < self.chains().len()
        &&& forall|k: int|
            0 <= k < self.states().len() ==> match (#[trigger] self.states()[k]).requeue {
                Some((_, n)) => n <= max_requeues(self.chains()[k]),
                None => true,
            }
    }

    /// Starts with no information on any chain and the first chain current.
    pub fn new(config: ArbiterConfig, registry: Registry) -> (r: Arbiter)
        requires
            registry.wf(),
        ensures
            r.wf(),
            r.chains() == registry@,
            r.config() == config,
            r.current() == 0,
            forall|k: int| 0 <= k < r.states().len() ==> (#[trigger] r.states()[k]).latest is None
                && r.states()[k].queued is None && r.states()[k].requeue is None
                && r.states()[k].block_start_printed is None,
            forall|k: int| 0 <= k < r.cache().len() ==> (#[trigger] r.cache()[k]) is None,
    {
        let n = registry.len();
        let mut states: Vec<ChainState> = Vec::new();
        let mut cache: Vec<Option<(u32, String)>> = Vec::new();
        let mut i: usize = 0;
        while i < n
            invariant
                i <= n,
                states@.len() == i,
                cache@.len() == i,
                forall|k: int| 0 <= k < i ==> (#[trigger] states@[k]).latest is None
                    && states@[k].queued is None && states@[k].requeue is None
                    && states@[k].block_start_printed is None,
                forall|k: int| 0 <= k < i ==> (#[trigger] cache@[k]) is None,
            decreases n - i,
        {
            states.push(empty_state());
            cache.push(None);
            i = i + 1;
        }
        let r = Arbiter {
            config,
            registry,
            states,
            current_chain_index: 0,
            cache,
            last_mining_info_json: String::new(),
        };
        assert forall|k: int| 0 <= k < r.cache().len() implies (#[trigger] r.cache()[k]) is None by {
            assert(r.cache@[k] is None);
        }
        r
    }

    /// There is one current chain at all times, and it is an enabled chain.
    pub proof fn lemma_current_chain_enabled(&self)
        requires
            self.wf(),
        ensures
            0 <= self.current() < self.chains().len(),
            self.chains()[self.current()].enabled,
    {
    }

    /// The registry of enabled chains.
    pub fn registry(&self) -> (r: &Registry)
        ensures
            r@ == self.chains(),
            self.wf() ==> r.wf(),
    {
        &self.registry
    }

    /// The policy options.
    pub fn config_options(&self) -> (r: ArbiterConfig)
        ensures
            r == self.config(),
    {
        self.config
    }

    /// Index of the chain being mined.
    pub fn get_current_chain_index(&self) -> (r: u8)
        ensures
            r == self.current(),
    {
        self.current_chain_index
    }

    /// Records newly polled mining information of chain `index`.
    pub fn update_chain_info(&mut self, index: u8, mining_info: MiningInfo, now: u64)
        requires
            old(self).wf(),
            (index as int) < old(self).chains().len(),
        ensures
            final(self).wf(),
            final(self).states() == old(self).states().update(
                index as int,
                ChainState { latest: Some((mining_info, now)), ..old(self).states()[index as int] },
            ),
            final(self).chains() == old(self).chains(),
            final(self).current() == old(self).current(),
            final(self).config() == old(self).config(),
            final(self).cache() == old(self).cache(),
            final(self).last_json() == old(self).last_json(),
    {
        let i = index as usize;
        let mut st = self.states.remove(i);
        st.latest = Some((mining_info, now));
        self.states.insert(i, st);
        assert(self.cache() =~= old(self).cache());
        proof {
            let f = self.states();
            let o = old(self).states();
            assert forall|k: int| 0 <= k < f.len() implies match (#[trigger] f[k]).requeue {
                Some((_, n)) => n <= max_requeues(self.chains()[k]),
                None => true,
            } by {
                assert(f[k].requeue == o[k].requeue);
            }
        }
    }

    /// Latest height of chain `index` and when it arrived; `(0, now)` where none did.
    pub fn get_latest_chain_info(&self, index: u8, now: u64) -> (r: (u32, u64))
        requires
            self.wf(),
        ensures
            r == (if (index as int) < self.states().len() && self.states()[index as int].latest is Some {
                (latest_height(self.states()[index as int]), latest_time(self.states()[index as int]))
            } else {
                (0u32, now)
            }),
    {
        if (index as usize) < self.states.len() {
            match &self.states[index as usize].latest {
                Some((m, t)) => (m.height, *t),
                None => (0, now),
            }
        } else {
            (0, now)
        }
    }

    /// Height queued for chain `index` and when its mining started; `(0, now)` where
    /// none is.
    pub fn get_queued_chain_info(&self, index: u8, now: u64) -> (r: (u32, u64))
        requires
            self.wf(),
        ensures
            r == (if (index as int) < self.states().len() && self.states()[index as int].queued is Some {
                self.states()[index as int].queued->0
            } else {
                (0u32, now)
            }),
    {
        if (index as usize) < self.states.len() {
            match self.states[index as usize].queued {
                Some(q) => q,
                None => (0, now),
            }
        } else {
            (0, now)
        }
    }

    /// How many times `height` of chain `index` was requeued.
    pub fn get_num_times_requeued(&self, index: u8, height: u32) -> (r: u8)
        requires
            self.wf(),
        ensures
            r == (if (index as int) < self.states().len() {
                requeue_count_at(self.states()[index as int], height)
            } else {
                0
            }),
    {
        if (index as usize) < self.states.len() {
            match self.states[index as usize].requeue {
                Some((h, n)) => if h == height {
                    n
                } else {
                    0
                },
                None => 0,
            }
        } else {
            0
        }
    }

    /// The chain whose latest height is `height` or `height - 1` (the first such);
    /// the current chain for height 0 or where none is.
    pub fn get_chain_index_from_height(&self, height: u32) -> (r: u8)
        requires
            self.wf(),
        ensures
            r == height_chain(self.states(), height, self.current()),
            height == 0 ==> r == self.current(),
    {
        if height == 0 {
            return self.current_chain_index;
        }
        let mut i: usize = 0;
        while i < self.states.len()
            invariant
                self.wf(),
                i <= self.states().len(),
                height > 0,
                forall|j: int| 0 <= j < i ==> !matches_height(#[trigger] self.states()[j], height),
            decreases self.states.len() - i,
        {
            let matched = match &self.states[i].latest {
                Some((m, _)) => m.height == height || m.height == height - 1,
                None => false,
            };
            if matched {
                proof {
                    lemma_height_match_unique(self.states(), height, i as int);
                }
                return i as u8;
            }
            i = i + 1;
        }
        assert forall|k: int| !is_height_match(self.states(), height, k) by {
            if 0 <= k < self.states().len() {
                assert(!matches_height(self.states()[k], height));
            }
        }
        self.current_chain_index
    }

    /// Milliseconds since the mining of the block at `height` started; 0 where its chain
    /// has not started a block.
    pub fn get_time_since_block_start_ms(&self, height: u32, now: u64) -> (r: u64)
        requires
            self.wf(),
        ensures
            r == since_start_ms(self.states(), height, self.current(), now),
    {
        let index = self.get_chain_index_from_height(height);
        match self.states[index as usize].queued {
            Some((_, start)) => if now >= start {
                now - start
            } else {
                0
            },
            None => 0,
        }
    }

    /// Whole seconds since the mining of the block at `height` started.
    pub fn get_time_since_block_start(&self, height: u32, now: u64) -> (r: u64)
        requires
            self.wf(),
        ensures
            r == since_start_ms(self.states(), height, self.current(), now) / 1000,
    {
        self.get_time_since_block_start_ms(height, now) / 1000
    }

    /// Whether the grace period of the current chain is over: true where its mining
    /// has not started.
    pub fn has_grace_period_elapsed(&self, now: u64) -> (r: bool)
        requires
            self.wf(),
        ensures
            r == grace_elapsed(self.states()[self.current()], self.config().grace_period_secs, now),
    {
        match self.states[self.current_chain_index as usize].queued {
            Some((_, start)) => now >= start && now - start >= self.config.grace_period_secs as u64 * 1000,
            None => true,
        }
    }

    /// Whether a chain has a block that is not started, which chain the queue picks,
    /// and how its priority compares with the current chain's (1 higher, 0 same,
    /// -1 lower; always 0 in first-in first-out mode).
    pub fn any_blocks_queued(&self) -> (r: (bool, i8, u8))
        requires
            self.wf(),
        ensures
            r.0 == any_queued(self.states()),
            r.0 ==> is_queue_pick(self.states(), self.chains(), self.config().priority_mode, r.2 as int),
            r.0 ==> r.1 == (if self.config().priority_mode {
                relation(self.chains()[r.2 as int].priority, self.chains()[self.current()].priority)
            } else {
                0
            }),
            !r.0 ==> r.1 == 0 && r.2 == 0,
    {
        let priority_mode = self.config.priority_mode;
        let mut found = false;
        let mut pick: usize = 0;
        let mut i: usize = 0;
        while i < self.states.len()
            invariant
                self.wf(),
                priority_mode == self.config().priority_mode,
                i <= self.states().len(),
                found <==> exists|k: int| 0 <= k < i && is_queued(#[trigger] self.states()[k]),
                found ==> pick < i && is_queue_pick(self.states().subrange(0, i as int), self.chains(), priority_mode, pick as int),
            decreases self.states.len() - i,
        {
            let st = &self.states[i];
            let lh = match &st.latest {
                Some((m, _)) => m.height,
                None => 0,
            };
            let qh = match st.queued {
                Some((h, _)) => h,
                None => 0,
            };
            let ghost prev = self.states().subrange(0, i as int);
            let ghost next = self.states().subrange(0, i + 1);
            assert(next[i as int] == self.states()[i as int]);
            if qh < lh {
                let better = if !found {
                    true
                } else if priority_mode {
                    self.registry.get_chain_from_index(i as u8).unwrap().priority < self.registry.get_chain_from_index(pick as u8).unwrap().priority
                } else {
                    let ti = match &st.latest {
                        Some((_, t)) => *t,
                        None => 0,
                    };
                    let tp = match &self.states[pick].latest {
                        Some((_, t)) => *t,
                        None => 0,
                    };
                    ti < tp
                };
                if better {
                    proof {
                        assert forall|j: int| 0 <= j < next.len() && is_queued(#[trigger] next[j]) implies (if priority_mode {
                            self.chains()[i as int].priority <= self.chains()[j].priority && (j < i ==> self.chains()[i as int].priority
                                < self.chains()[j].priority)
                        } else {
                            latest_time(next[i as int]) <= latest_time(next[j]) && (j < i ==> latest_time(
                                next[i as int],
                            ) < latest_time(next[j]))
                        }) by {
                            if j < i {
                                assert(prev[j] == next[j]);
                                assert(found);
                            }
                        }
                    }
                    pick = i;
                    found = true;
                } else {
                    proof {
                        assert forall|j: int| 0 <= j < next.len() && is_queued(#[trigger] next[j]) implies (if priority_mode {
                            self.chains()[pick as int].priority <= self.chains()[j].priority && (j < pick ==> self.chains()[pick as int].priority
                                < self.chains()[j].priority)
                        } else {
                            latest_time(next[pick as int]) <= latest_time(next[j]) && (j < pick ==> latest_time(
                                next[pick as int],
                            ) < latest_time(next[j]))
                        }) by {
                            if j < i {
                                assert(prev[j] == next[j]);
                            }
                        }
                        assert(next[pick as int] == prev[pick as int]);
                    }
                }
            } else {
                proof {
                    if found {
                        assert(next[pick as int] == prev[pick as int]);
                        assert forall|j: int| 0 <= j < next.len() && is_queued(#[trigger] next[j]) implies j < i by {}
                        assert forall|j: int| 0 <= j < next.len() && is_queued(#[trigger] next[j]) implies prev[j] == next[j] by {}
                    }
                }
            }
            i = i + 1;
        }
        assert(self.states().subrange(0, self.states().len() as int) =~= self.states());
        if !found {
            return (false, 0, 0);
        }
        if priority_mode {
            let p = self.registry.get_chain_from_index(pick as u8).unwrap().priority;
            let c = self.registry.get_chain_from_index(self.current_chain_index).unwrap().priority;
            let rel: i8 = if p < c {
                1
            } else if p == c {
                0
            } else {
                -1
            };
            (true, rel, pick as u8)
        } else {
            (true, 0, pick as u8)
        }
    }
}


/// What the arbiter does with a block that is not started.
#[derive(PartialEq, Eq, Structural, Clone, Copy, Debug)]
pub enum BlockAction {
    /// Leave it queued.
    Wait,
    /// Start it; the current block counts as completed.
    StartCompleted,
    /// Start it; the current block counts as superseded.
    StartSuperseded,
    /// Start it at once; the current block is interrupted (and requeued where the
    /// current chain allows it).
    StartInterrupting,
}

/// The decision on a new block of chain `i` while chain `c` is current.
pub open spec fn new_block_action(
    config: ArbiterConfig,
    priority_i: u8,
    priority_c: u8,
    same_chain: bool,
    grace_over: bool,
    others_queued: bool,
    queued: bool,
) -> BlockAction {
    if config.priority_mode {
        if priority_i <= priority_c {
            if !same_chain {
                if !grace_over {
                    if config.interrupt_lower_priority_blocks {
                        BlockAction::StartInterrupting
                    } else {
                        BlockAction::Wait
                    }
                } else {
                    BlockAction::StartCompleted
                }
            } else if others_queued {
                BlockAction::StartSuperseded
            } else {
                BlockAction::Wait
            }
        } else if grace_over {
            BlockAction::StartCompleted
        } else {
            BlockAction::Wait
        }
    } else if !same_chain {
        if grace_over && queued {
            BlockAction::StartCompleted
        } else {
            BlockAction::Wait
        }
    } else if !queued {
        BlockAction::StartSuperseded
    } else {
        BlockAction::Wait
    }
}

/// The decision on a new block of chain `index` in the given states.
pub open spec fn new_block_decision(
    config: ArbiterConfig,
    chains: Seq<PocChain>,
    states: Seq<ChainState>,
    c: int,
    index: int,
    now: u64,
) -> BlockAction {
    new_block_action(
        config,
        chains[index].priority,
        chains[c].priority,
        index == c,
        grace_elapsed(states[c], config.grace_period_secs, now),
        others_queued(states, c),
        any_queued(states),
    )
}

/// The decision of a queue sweep on the picked chain, given how its priority
/// compares with the current chain's.
pub open spec fn sweep_action(config: ArbiterConfig, queued: bool, rel: i8, grace_over: bool) -> BlockAction {
    if !queued {
        BlockAction::Wait
    } else if config.priority_mode {
        if rel == 1 {
            if grace_over {
                BlockAction::StartCompleted
            } else if config.interrupt_lower_priority_blocks {
                BlockAction::StartInterrupting
            } else {
                BlockAction::Wait
            }
        } else if rel == 0 {
            BlockAction::StartSuperseded
        } else if grace_over {
            BlockAction::StartCompleted
        } else {
            BlockAction::Wait
        }
    } else if grace_over {
        BlockAction::StartCompleted
    } else {
        BlockAction::Wait
    }
}

/// In priority mode a block of another chain does not take over before the grace
/// period of the current chain is over, unless it outranks or matches the current
/// chain and interrupting is allowed; a block of lower priority never does.
pub proof fn lemma_grace_period_respected(
    config: ArbiterConfig,
    priority_i: u8,
    priority_c: u8,
    grace_over: bool,
    others_queued: bool,
    queued: bool,
)
    requires
        config.priority_mode,
        !grace_over,
        priority_i > priority_c || !config.interrupt_lower_priority_blocks,
    ensures
        new_block_action(config, priority_i, priority_c, false, grace_over, others_queued, queued)
            == BlockAction::Wait,
{
}

/// A sweep in priority mode, before the grace period of the current chain is over and
/// with interrupting off, starts only a chain of the current chain's priority.
pub proof fn lemma_sweep_respects_grace_period(config: ArbiterConfig, queued: bool, rel: i8)
    requires
        config.priority_mode,
        !config.interrupt_lower_priority_blocks,
    ensures
        sweep_action(config, queued, rel, false) != BlockAction::Wait ==> rel == 0,
{
}

/// The decision on a new block; see `new_block_action`.
pub fn decide_new_block(
    config: ArbiterConfig,
    priority_i: u8,
    priority_c: u8,
    same_chain: bool,
    grace_over: bool,
    others_queued: bool,
    queued: bool,
) -> (r: BlockAction)
    ensures
        r == new_block_action(config, priority_i, priority_c, same_chain, grace_over, others_queued, queued),
{
    if config.priority_mode {
        if priority_i <= priority_c {
            if !same_chain {
                if !grace_over {
                    if config.interrupt_lower_priority_blocks {
                        BlockAction::StartInterrupting
                    } else {
                        BlockAction::Wait
                    }
                } else {
                    BlockAction::StartCompleted
                }
            } else if others_queued {
                BlockAction::StartSuperseded
            } else {
                BlockAction::Wait
            }
        } else if grace_over {
            BlockAction::StartCompleted
        } else {
            BlockAction::Wait
        }
    } else if !same_chain {
        if grace_over && queued {
            BlockAction::StartCompleted
        } else {
            BlockAction::Wait
        }
    } else if !queued {
        BlockAction::StartSuperseded
    } else {
        BlockAction::Wait
    }
}

/// The decision of a queue sweep; see `sweep_action`.
pub fn decide_sweep(config: ArbiterConfig, queued: bool, rel: i8, grace_over: bool) -> (r: BlockAction)
    ensures
        r == sweep_action(config, queued, rel, grace_over),
{
    if !queued {
        BlockAction::Wait
    } else if config.priority_mode {
        if rel == 1 {
            if grace_over {
                BlockAction::StartCompleted
            } else if config.interrupt_lower_priority_blocks {
                BlockAction::StartInterrupting
            } else {
                BlockAction::Wait
            }
        } else if rel == 0 {
            BlockAction::StartSuperseded
        } else if grace_over {
            BlockAction::StartCompleted
        } else {
            BlockAction::Wait
        }
    } else if grace_over {
        BlockAction::StartCompleted
    } else {
        BlockAction::Wait
    }
}

/// Whether a chain other than `c` has a block that is not started.
pub open spec fn others_queued(states: Seq<ChainState>, c: int) -> bool {
    exists|k: int| 0 <= k < states.len() && k != c && is_queued(#[trigger] states[k])
}

pub open spec fn is_printed(s: ChainState, height: u32) -> bool {
    s.block_start_printed == Some(height)
}

/// Whether the current block of a chain would be requeued when interrupted.
pub open spec fn requeues(s: ChainState, c: PocChain, do_requeue: bool) -> bool {
    do_requeue && queued_height(s) > 0 && requeue_count_at(s, queued_height(s)) < max_requeues(c)
}

/// The state of an interrupted chain: its queued height steps back by one, so that
/// its block looks not started, and the requeue count of the height grows by one.
pub open spec fn requeued_state(s: ChainState, now: u64) -> ChainState {
    let h = queued_height(s);
    let start = match s.queued {
        Some((_, t)) => t,
        None => now,
    };
    ChainState {
        queued: Some(((h - 1) as u32, start)),
        block_start_printed: Some((h - 1) as u32),
        requeue: Some((h, (requeue_count_at(s, h) + 1) as u8)),
        ..s
    }
}

/// Whether chain `index` can start: its mining information is known and usable.
pub open spec fn can_start(states: Seq<ChainState>, index: int) -> bool {
    &&& 0 <= index < states.len()
    &&& states[index].latest is Some
    &&& latest_info(states[index]).base_target > 0
}

/// The state of a chain whose latest block starts at `now`.
pub open spec fn started_state(s: ChainState, now: u64) -> ChainState {
    ChainState {
        queued: Some((latest_height(s), now)),
        block_start_printed: Some(latest_height(s)),
        ..s
    }
}

/// `{"result":"failure","reason":"Haven't found any mining info!"}`
pub open spec fn no_mining_info_json() -> Seq<char> {
    "{\"result\":\"failure\",\"reason\":\"Haven't found any mining info!\"}"@
}

/// The mining-info JSON served to miners, and the cache entry of the current chain
/// afterwards.  A cached block is served once its start is announced; until then the
/// previous JSON is served, so that miners do not switch in the middle of a change.
pub open spec fn served_json(
    s: ChainState,
    cached: Option<(u32, Seq<char>)>,
    last: Seq<char>,
) -> (Seq<char>, Option<(u32, Seq<char>)>) {
    match cached {
        Some((h, j)) => if is_printed(s, h) {
            (j, cached)
        } else {
            match s.latest {
                Some((m, _)) => if is_printed(s, m.height) {
                    (mining_info_json(m@), Some((m.height, mining_info_json(m@))))
                } else {
                    (last, cached)
                },
                None => (last, cached),
            }
        },
        None => match s.latest {
            Some((m, _)) => (mining_info_json(m@), Some((m.height, mining_info_json(m@)))),
            None => (no_mining_info_json(), None),
        },
    }
}


/// The narration of an interrupted block.
pub open spec fn interrupt_info(s: ChainState, c: PocChain, do_requeue: bool, chain: u8, seconds: u64) -> LastBlockInfo {
    if requeues(s, c, do_requeue) {
        LastBlockInfo::Requeued {
            times: match c.maximum_requeue_times {
                Some(m) => Some(
                    RequeueCount { number: (requeue_count_at(s, queued_height(s)) + 1) as u8, maximum: m },
                ),
                None => None,
            },
            seconds,
            chain,
        }
    } else {
        LastBlockInfo::Interrupted { seconds, chain }
    }
}

/// The states after interrupting chain `c`.
pub open spec fn interrupted_states(states: Seq<ChainState>, c: int, chain: PocChain, do_requeue: bool, now: u64) -> Seq<ChainState> {
    if requeues(states[c], chain, do_requeue) {
        states.update(c, requeued_state(states[c], now))
    } else {
        states
    }
}

/// The states after starting chain `index`, where it can start.
pub open spec fn start_states(states: Seq<ChainState>, index: int, now: u64) -> Seq<ChainState> {
    if can_start(states, index) {
        states.update(index, started_state(states[index], now))
    } else {
        states
    }
}

/// The states after an action on a block of chain `index` while `c` is current.
pub open spec fn after_action(
    states: Seq<ChainState>,
    chains: Seq<PocChain>,
    action: BlockAction,
    index: int,
    c: int,
    now: u64,
) -> Seq<ChainState> {
    match action {
        BlockAction::Wait => states,
        BlockAction::StartInterrupting => start_states(
            interrupted_states(states, c, chains[c], chains[c].requeue_interrupted_blocks, now),
            index,
            now,
        ),
        _ => start_states(states, index, now),
    }
}

/// The narration of how the current block ended under an action.
pub open spec fn action_info(
    states: Seq<ChainState>,
    chains: Seq<PocChain>,
    action: BlockAction,
    c: int,
    seconds: u64,
) -> LastBlockInfo {
    match action {
        BlockAction::StartSuperseded => LastBlockInfo::Superseded { seconds, chain: c as u8 },
        BlockAction::StartInterrupting => interrupt_info(
            states[c],
            chains[c],
            chains[c].requeue_interrupted_blocks,
            c as u8,
            seconds,
        ),
        _ => LastBlockInfo::Completed { seconds, chain: c as u8 },
    }
}

/// The queue's pick.
pub open spec fn queue_pick(states: Seq<ChainState>, chains: Seq<PocChain>, priority_mode: bool) -> int {
    choose|k: int| is_queue_pick(states, chains, priority_mode, k)
}

/// The queue has one pick at most.
pub proof fn lemma_queue_pick_unique(states: Seq<ChainState>, chains: Seq<PocChain>, priority_mode: bool, k: int)
    requires
        is_queue_pick(states, chains, priority_mode, k),
    ensures
        queue_pick(states, chains, priority_mode) == k,
{
    let j = queue_pick(states, chains, priority_mode);
    assert(is_queue_pick(states, chains, priority_mode, j));
    assert(is_queued(states[j]));
    assert(is_queued(states[k]));
}

/// What a block start hands to the console.
pub struct BlockStart {
    pub chain_index: u8,
    pub height: u32,
    pub base_target: u32,
    pub generation_signature: String,
    pub last_block_info: Option<LastBlockInfo>,
    /// False where this block's start was announced before.
    pub first_announcement: bool,
}

impl Arbiter {
    proof fn lemma_requeue_bound_kept(&self, other: &Arbiter)
        requires
            self.wf(),
            other.chains() == self.chains(),
            other.states().len() == self.states().len(),
            other.cache().len() == self.cache().len(),
            0 <= other.current() < other.chains().len(),
            forall|k: int|
                0 <= k < other.states().len() ==> (#[trigger] other.states()[k]).requeue
                    == self.states()[k].requeue,
        ensures
            other.wf(),
    {
        assert forall|k: int| 0 <= k < other.states().len() implies match (#[trigger] other.states()[k]).requeue {
            Some((_, n)) => n <= max_requeues(other.chains()[k]),
            None => true,
        } by {
            assert(self.states()[k].requeue == other.states()[k].requeue);
        }
    }

    /// Interrupts the block of the current chain: requeues it where `do_requeue` holds
    /// and the chain's requeue maximum for that height is not reached.
    pub fn requeue_current_block(&mut self, do_requeue: bool, now: u64) -> (r: LastBlockInfo)
        requires
            old(self).wf(),
        ensures
            final(self).wf(),
            ({
                let c = old(self).current();
                let s = old(self).states()[c];
                let seconds = since_start_ms(old(self).states(), latest_height(s), c, now) / 1000;
                &&& r == interrupt_info(s, old(self).chains()[c], do_requeue, c as u8, seconds)
                &&& final(self).states() == interrupted_states(old(self).states(), c, old(self).chains()[c], do_requeue, now)
            }),
            final(self).chains() == old(self).chains(),
            final(self).current() == old(self).current(),
            final(self).config() == old(self).config(),
            final(self).cache() == old(self).cache(),
            final(self).last_json() == old(self).last_json(),
    {
        let c = self.current_chain_index;
        let chain_max = self.registry.get_chain_from_index(c).unwrap().maximum_requeue_times;
        let max: u8 = match chain_max {
            Some(m) => m,
            None => u8::MAX,
        };
        let (requeued_height, requeued_time) = self.get_queued_chain_info(c, now);
        let current_block_height = match self.get_current_mining_info() {
            Some(m) => m.height,
            None => 0,
        };
        let seconds = self.get_time_since_block_start(current_block_height, now);
        let times = self.get_num_times_requeued(c, requeued_height);
        if do_requeue && requeued_height > 0 && times < max {
            let i = c as usize;
            let mut st = self.states.remove(i);
            st.queued = Some((requeued_height - 1, requeued_time));
            st.block_start_printed = Some(requeued_height - 1);
            st.requeue = Some((requeued_height, times + 1));
            self.states.insert(i, st);
            proof {
                let f = self.states();
                assert(f =~= interrupted_states(old(self).states(), c as int, old(self).chains()[c as int], do_requeue, now));
                assert forall|k: int| 0 <= k < f.len() implies match (#[trigger] f[k]).requeue {
                    Some((_, n)) => n <= max_requeues(self.chains()[k]),
                    None => true,
                } by {
                    if k != c {
                        assert(f[k] == old(self).states()[k]);
                    }
                }
            }
            let times_info = match chain_max {
                Some(m) => Some(RequeueCount { number: times + 1, maximum: m }),
                None => None,
            };
            LastBlockInfo::Requeued { times: times_info, seconds, chain: c }
        } else {
            LastBlockInfo::Interrupted { seconds, chain: c }
        }
    }

    /// Starts mining the latest block of chain `index`, where its mining information
    /// is known and has a base target: the JSON served so far is kept for miners until
    /// the new block is announced, the chain becomes current, and its queued height
    /// becomes the block's height.
    pub fn start_mining_chain(&mut self, index: u8, last_block_info: Option<LastBlockInfo>, now: u64) -> (r: Option<BlockStart>)
        requires
            old(self).wf(),
        ensures
            final(self).wf(),
            final(self).chains() == old(self).chains(),
            final(self).config() == old(self).config(),
            final(self).states() == start_states(old(self).states(), index as int, now),
            r is Some <==> can_start(old(self).states(), index as int),
            !can_start(old(self).states(), index as int) ==> final(self).current() == old(self).current()
                && final(self).cache() == old(self).cache() && final(self).last_json() == old(self).last_json(),
            can_start(old(self).states(), index as int) ==> ({
                let s = old(self).states()[index as int];
                let h = latest_height(s);
                let c = old(self).current();
                let marked = old(self).states().update(index as int, ChainState { block_start_printed: Some(h), ..s });
                let (json, entry) = served_json(marked[c], old(self).cache()[c], old(self).last_json());
                &&& final(self).current() == index
                &&& final(self).last_json() == json
                &&& final(self).cache() == old(self).cache().update(c, entry)
                &&& r matches Some(b) && b.chain_index == index && b.height == h
                    && b.base_target == latest_info(s).base_target
                    && b.generation_signature@ == latest_info(s).generation_signature@
                    && b.last_block_info == last_block_info
                    && b.first_announcement == !is_printed(s, h)
            }),
    {
        if (index as usize) >= self.states.len() {
            return None;
        }
        let i = index as usize;
        let (height, base_target, generation_signature) = match &self.states[i].latest {
            Some((m, _)) => (m.height, m.base_target, m.generation_signature.clone()),
            None => {
                return None;
            },
        };
        if base_target == 0 {
            return None;
        }
        let first_announcement = !self.is_block_start_printed(index, height);
        let mut st = self.states.remove(i);
        st.block_start_printed = Some(height);
        self.states.insert(i, st);
        proof {
            let s = old(self).states()[index as int];
            assert(self.states() =~= old(self).states().update(index as int, ChainState { block_start_printed: Some(height), ..s }));
            old(self).lemma_requeue_bound_kept(self);
        }
        let json = self.get_current_mining_info_json();
        self.last_mining_info_json = json;
        self.current_chain_index = index;
        let mut st = self.states.remove(i);
        st.queued = Some((height, now));
        self.states.insert(i, st);
        proof {
            assert(self.states() =~= start_states(old(self).states(), index as int, now));
            old(self).lemma_requeue_bound_kept(self);
        }
        Some(BlockStart {
            chain_index: index,
            height,
            base_target,
            generation_signature,
            last_block_info,
            first_announcement,
        })
    }

    fn others_queued_exec(&self) -> (r: bool)
        requires
            self.wf(),
        ensures
            r == others_queued(self.states(), self.current()),
    {
        let c = self.current_chain_index as usize;
        let mut i: usize = 0;
        while i < self.states.len()
            invariant
                self.wf(),
                c == self.current(),
                i <= self.states().len(),
                forall|k: int| 0 <= k < i && k != c ==> !is_queued(#[trigger] self.states()[k]),
            decreases self.states.len() - i,
        {
            if i != c {
                let st = &self.states[i];
                let lh = match &st.latest {
                    Some((m, _)) => m.height,
                    None => 0,
                };
                let qh = match st.queued {
                    Some((h, _)) => h,
                    None => 0,
                };
                if qh < lh {
                    assert(is_queued(self.states()[i as int]));
                    return true;
                }
            }
            i = i + 1;
        }
        false
    }

    fn apply_action(&mut self, action: BlockAction, index: u8, now: u64) -> (r: Option<BlockStart>)
        requires
            old(self).wf(),
        ensures
            final(self).wf(),
            final(self).chains() == old(self).chains(),
            final(self).config() == old(self).config(),
            final(self).states() == after_action(old(self).states(), old(self).chains(), action, index as int, old(self).current(), now),
            final(self).current() == (if action != BlockAction::Wait && can_start(old(self).states(), index as int) {
                index as int
            } else {
                old(self).current()
            }),
            action == BlockAction::Wait ==> final(self).cache() == old(self).cache()
                && final(self).last_json() == old(self).last_json(),
            r is Some <==> action != BlockAction::Wait && can_start(old(self).states(), index as int),
            r matches Some(b) ==> b.chain_index == index && b.last_block_info == Some(action_info(
                old(self).states(),
                old(self).chains(),
                action,
                old(self).current(),
                since_start_ms(old(self).states(), latest_height(old(self).states()[old(self).current()]), old(self).current(), now) / 1000,
            )),
    {
        let c = self.current_chain_index;
        let current_block_height = match self.get_current_mining_info() {
            Some(m) => m.height,
            None => 0,
        };
        let seconds = self.get_time_since_block_start(current_block_height, now);
        match action {
            BlockAction::Wait => None,
            BlockAction::StartCompleted => self.start_mining_chain(index, Some(LastBlockInfo::Completed { seconds, chain: c }), now),
            BlockAction::StartSuperseded => self.start_mining_chain(index, Some(LastBlockInfo::Superseded { seconds, chain: c }), now),
            BlockAction::StartInterrupting => {
                let do_requeue = self.registry.get_chain_from_index(c).unwrap().requeue_interrupted_blocks;
                let info = self.requeue_current_block(do_requeue, now);
                self.start_mining_chain(index, Some(info), now)
            },
        }
    }

    /// Decides what to do with a new block of chain `index` (its mining information
    /// already recorded): start it now, or leave it queued for the sweep.
    pub fn process_new_block(&mut self, index: u8, now: u64) -> (r: Option<BlockStart>)
        requires
            old(self).wf(),
            (index as int) < old(self).chains().len(),
        ensures
            final(self).wf(),
            final(self).chains() == old(self).chains(),
            final(self).config() == old(self).config(),
            ({
                let c = old(self).current();
                let action = new_block_decision(old(self).config(), old(self).chains(), old(self).states(), c, index as int, now);
                &&& final(self).states() == after_action(old(self).states(), old(self).chains(), action, index as int, c, now)
                &&& final(self).current() == (if action != BlockAction::Wait && can_start(old(self).states(), index as int) {
                    index as int
                } else {
                    c
                })
                &&& (r is Some <==> action != BlockAction::Wait && can_start(old(self).states(), index as int))
                &&& (r matches Some(b) ==> b.chain_index == index && b.last_block_info == Some(action_info(
                    old(self).states(),
                    old(self).chains(),
                    action,
                    c,
                    since_start_ms(old(self).states(), latest_height(old(self).states()[c]), c, now) / 1000,
                )))
            }),
    {
        let c = self.current_chain_index;
        let priority_i = self.registry.get_chain_from_index(index).unwrap().priority;
        let priority_c = self.registry.get_chain_from_index(c).unwrap().priority;
        let grace_over = self.has_grace_period_elapsed(now);
        let others = self.others_queued_exec();
        let (queued, _, _) = self.any_blocks_queued();
        let action = decide_new_block(self.config, priority_i, priority_c, index == c, grace_over, others, queued);
        self.apply_action(action, index, now)
    }

    /// Records the new mining information of chain `index` and decides on its block.
    pub fn on_new_mining_info(&mut self, index: u8, mining_info: MiningInfo, now: u64) -> (r: Option<BlockStart>)
        requires
            old(self).wf(),
            (index as int) < old(self).chains().len(),
        ensures
            final(self).wf(),
            final(self).chains() == old(self).chains(),
            ({
                let c = old(self).current();
                let recorded = old(self).states().update(
                    index as int,
                    ChainState { latest: Some((mining_info, now)), ..old(self).states()[index as int] },
                );
                let action = new_block_decision(old(self).config(), old(self).chains(), recorded, c, index as int, now);
                &&& final(self).states() == after_action(recorded, old(self).chains(), action, index as int, c, now)
                &&& final(self).current() == (if action != BlockAction::Wait && can_start(recorded, index as int) {
                    index as int
                } else {
                    c
                })
                &&& (r is Some <==> action != BlockAction::Wait && can_start(recorded, index as int))
            }),
    {
        self.update_chain_info(index, mining_info, now);
        self.process_new_block(index, now)
    }

    /// One sweep of the queue: starts the picked chain where the policy allows it.
    pub fn arbitrate_queue(&mut self, now: u64) -> (r: Option<BlockStart>)
        requires
            old(self).wf(),
        ensures
            final(self).wf(),
            final(self).chains() == old(self).chains(),
            final(self).config() == old(self).config(),
            ({
                let c = old(self).current();
                let queued = any_queued(old(self).states());
                let pick = queue_pick(old(self).states(), old(self).chains(), old(self).config().priority_mode);
                let rel = if queued && old(self).config().priority_mode {
                    relation(old(self).chains()[pick].priority, old(self).chains()[c].priority)
                } else {
                    0i8
                };
                let action = sweep_action(
                    old(self).config(),
                    queued,
                    rel,
                    grace_elapsed(old(self).states()[c], old(self).config().grace_period_secs, now),
                );
                &&& final(self).states() == after_action(old(self).states(), old(self).chains(), action, pick, c, now)
                &&& final(self).current() == (if action != BlockAction::Wait && can_start(old(self).states(), pick) {
                    pick
                } else {
                    c
                })
                &&& (r is Some <==> action != BlockAction::Wait && can_start(old(self).states(), pick))
                &&& (r matches Some(b) ==> b.chain_index == pick && b.last_block_info == Some(action_info(
                    old(self).states(),
                    old(self).chains(),
                    action,
                    c,
                    since_start_ms(old(self).states(), latest_height(old(self).states()[c]), c, now) / 1000,
                )))
            }),
    {
        let (queued, rel, pick) = self.any_blocks_queued();
        proof {
            if queued {
                lemma_queue_pick_unique(self.states(), self.chains(), self.config().priority_mode, pick as int);
            }
        }
        if !queued {
            return None;
        }
        let grace_over = self.has_grace_period_elapsed(now);
        let action = decide_sweep(self.config, queued, rel, grace_over);
        self.apply_action(action, pick, now)
    }

    /// Whether the start of `height` on chain `index` has been announced.
    pub fn is_block_start_printed(&self, index: u8, height: u32) -> (r: bool)
        requires
            self.wf(),
        ensures
            r == ((index as int) < self.states().len() && is_printed(self.states()[index as int], height)),
    {
        if (index as usize) < self.states.len() {
            match self.states[index as usize].block_start_printed {
                Some(h) => h == height,
                None => false,
            }
        } else {
            false
        }
    }

    /// Mining information of the current chain.
    pub fn get_current_mining_info(&self) -> (r: Option<&MiningInfo>)
        requires
            self.wf(),
        ensures
            r is Some <==> self.states()[self.current()].latest is Some,
            r is Some ==> *r->0 == latest_info(self.states()[self.current()]),
    {
        match &self.states[self.current_chain_index as usize].latest {
            Some((m, _)) => Some(m),
            None => None,
        }
    }

    /// A copy of the latest mining information of chain `index` and when it arrived.
    pub fn get_current_chain_mining_info(&self, index: u8) -> (r: Option<(MiningInfo, u64)>)
        requires
            self.wf(),
        ensures
            r is Some <==> ((index as int) < self.states().len() && self.states()[index as int].latest is Some),
            r matches Some((m, t)) ==> m@ == latest_info(self.states()[index as int])@
                && t == latest_time(self.states()[index as int]),
    {
        if (index as usize) < self.states.len() {
            match &self.states[index as usize].latest {
                Some((m, t)) => Some((m.duplicate(), *t)),
                None => None,
            }
        } else {
            None
        }
    }

    /// The cache entry of the current chain: (chain, height, JSON).
    pub fn get_cached_mining_info(&self) -> (r: Option<(u8, u32, String)>)
        requires
            self.wf(),
        ensures
            r is Some <==> self.cache()[self.current()] is Some,
            r matches Some((c, h, j)) ==> c == self.current() && self.cache()[self.current()]
                == Some((h, j@)),
    {
        let c = self.current_chain_index;
        match &self.cache[c as usize] {
            Some((h, j)) => Some((c, *h, j.clone())),
            None => None,
        }
    }

    /// Caches the JSON of `mining_info` for chain `index` and returns it.
    pub fn add_mining_info_to_cache(&mut self, index: u8, mining_info: &MiningInfo) -> (r: String)
        requires
            old(self).wf(),
            (index as int) < old(self).chains().len(),
        ensures
            final(self).wf(),
            r@ == mining_info_json(mining_info@),
            final(self).cache() == old(self).cache().update(
                index as int,
                Some((mining_info.height, mining_info_json(mining_info@))),
            ),
            final(self).states() == old(self).states(),
            final(self).chains() == old(self).chains(),
            final(self).current() == old(self).current(),
            final(self).config() == old(self).config(),
            final(self).last_json() == old(self).last_json(),
    {
        let json = mining_info_to_json(mining_info);
        let i = index as usize;
        self.cache.set(i, Some((mining_info.height, json.clone())));
        assert(self.cache() =~= old(self).cache().update(
            index as int,
            Some((mining_info.height, mining_info_json(mining_info@))),
        ));
        json
    }

    /// The mining-info JSON that miners are served now.
    pub fn get_current_mining_info_json(&mut self) -> (r: String)
        requires
            old(self).wf(),
        ensures
            final(self).wf(),
            ({
                let (json, entry) = served_json(
                    old(self).states()[old(self).current()],
                    old(self).cache()[old(self).current()],
                    old(self).last_json(),
                );
                r@ == json && final(self).cache() == old(self).cache().update(old(self).current(), entry)
            }),
            final(self).states() == old(self).states(),
            final(self).chains() == old(self).chains(),
            final(self).current() == old(self).current(),
            final(self).config() == old(self).config(),
            final(self).last_json() == old(self).last_json(),
    {
        let c = self.current_chain_index;
        let ghost cur = c as int;
        assert(old(self).cache().update(cur, old(self).cache()[cur]) =~= old(self).cache());
        match self.get_cached_mining_info() {
            Some((index, height, json)) => {
                if self.is_block_start_printed(index, height) {
                    json
                } else {
                    match self.get_current_chain_mining_info(c) {
                        Some((m, _)) => {
                            if self.is_block_start_printed(index, m.height) {
                                let r = self.add_mining_info_to_cache(index, &m);
                                r
                            } else {
                                self.last_mining_info_json.clone()
                            }
                        },
                        None => self.last_mining_info_json.clone(),
                    }
                }
            },
            None => {
                match self.get_current_chain_mining_info(c) {
                    Some((m, _)) => self.add_mining_info_to_cache(c, &m),
                    None => {
                        proof {
                            reveal_strlit("{\"result\":\"failure\",\"reason\":\"Haven't found any mining info!\"}");
                        }
                        String::from_str("{\"result\":\"failure\",\"reason\":\"Haven't found any mining info!\"}")
                    },
                }
            },
        }
    }
}

/// Whether the grace period of a chain's block is over at `now`: `now - start` is at
/// least the grace period (never while the clock reads before the start), or the chain
/// has not started a block.
pub open spec fn grace_elapsed(s: ChainState, grace_period_secs: u32, now: u64) -> bool {
    match s.queued {
        Some((_, start)) => now >= start && now - start >= grace_period_secs as int * 1000,
        None => true,
    }
}

} // verus!
