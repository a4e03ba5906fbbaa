//! Nonce submissions: target deadlines, the forwarding gate, and the replies to miners.
use vstd::prelude::*;
use vstd::string::*;
use crate::arbiter::{height_chain, latest_height, latest_info, since_start_ms, Arbiter, ChainState};
use crate::best::{
    best_at, lemma_best_deadline_never_increases, table_wf, updated, BestDeadlineTable,
};
use crate::chain::{is_websocket_direct, PocChain};
use crate::difficulty::{dynamic_deadline, get_dynamic_deadline_for_block, net_diff, DEFAULT_BLOCK_TIME_SECS};
use crate::json::{decimal, failure_json, failure_reply, push_decimal, success_json, success_reply};
use crate::text::{contains, contains_seq};

verus! {

/// Where the target deadline of a submission comes from, in order of precedence.
#[derive(PartialEq, Eq, Structural, Clone, Copy, Debug)]
pub enum TargetDeadlineType {
    ConfigOverriddenByID(u64),
    ConfigChainLevel(u64),
    Dynamic(u64),
    PoolMaximum(u64),
    Default,
}

impl TargetDeadlineType {
    pub open spec fn spec_value(self) -> u64 {
        match self {
            TargetDeadlineType::ConfigOverriddenByID(d) => d,
            TargetDeadlineType::ConfigChainLevel(d) => d,
            TargetDeadlineType::Dynamic(d) => d,
            TargetDeadlineType::PoolMaximum(d) => d,
            TargetDeadlineType::Default => u64::MAX,
        }
    }

    /// The deadline itself; `u64::MAX` where none applies.
    pub fn value(self) -> (r: u64)
        ensures
            r == self.spec_value(),
    {
        match self {
            TargetDeadlineType::ConfigOverriddenByID(d) => d,
            TargetDeadlineType::ConfigChainLevel(d) => d,
            TargetDeadlineType::Dynamic(d) => d,
            TargetDeadlineType::PoolMaximum(d) => d,
            TargetDeadlineType::Default => u64::MAX,
        }
    }
}

/// The first value stored for `key` in `entries`.
pub open spec fn first_value<V>(entries: Seq<(u64, V)>, key: u64) -> Option<V>
    decreases entries.len(),
{
    if entries.len() == 0 {
        None
    } else if entries[0].0 == key {
        Some(entries[0].1)
    } else {
        first_value(entries.drop_first(), key)
    }
}

pub open spec fn first_value_from<V>(entries: Seq<(u64, V)>, key: u64, i: int) -> Option<V> {
    first_value(entries.subrange(i, entries.len() as int), key)
}

proof fn lemma_first_value_step<V>(entries: Seq<(u64, V)>, key: u64, i: int)
    requires
        0 <= i < entries.len(),
    ensures
        first_value_from(entries, key, i) == if entries[i].0 == key {
            Some(entries[i].1)
        } else {
            first_value_from(entries, key, i + 1)
        },
{
    let rest = entries.subrange(i, entries.len() as int);
    assert(rest.drop_first() =~= entries.subrange(i + 1, entries.len() as int));
    assert(rest[0] == entries[i]);
}

/// The effective target deadline of `account` on `chain`: a per-account override, the
/// chain's own target deadline, the dynamic deadline, the pool's maximum, in this
/// order; none of them gives the default.
pub open spec fn target_deadline_of(
    chain: PocChain,
    account: u64,
    base_target: u32,
    capacity_gib: u64,
    pool_maximum: Option<u64>,
) -> TargetDeadlineType {
    match first_value(chain.numeric_id_to_target_deadline@, account) {
        Some(d) => TargetDeadlineType::ConfigOverriddenByID(d),
        None => match chain.target_deadline {
            Some(d) => TargetDeadlineType::ConfigChainLevel(d),
            None => if chain.use_dynamic_deadlines && capacity_gib > 0 {
                TargetDeadlineType::Dynamic(
                    dynamic_deadline(net_diff(base_target as int, DEFAULT_BLOCK_TIME_SECS as int), capacity_gib as int) as u64,
                )
            } else {
                match pool_maximum {
                    Some(d) => TargetDeadlineType::PoolMaximum(d),
                    None => TargetDeadlineType::Default,
                }
            },
        },
    }
}

/// Target deadline of a submission for `account_id` on `chain`.
pub fn get_target_deadline(
    account_id: u64,
    base_target: u32,
    chain: &PocChain,
    capacity_gib: u64,
    pool_maximum: Option<u64>,
) -> (r: TargetDeadlineType)
    requires
        base_target > 0,
    ensures
        r == target_deadline_of(*chain, account_id, base_target, capacity_gib, pool_maximum),
{
    let overrides = &chain.numeric_id_to_target_deadline;
    let mut i: usize = 0;
    assert(overrides@.subrange(0, overrides@.len() as int) =~= overrides@);
    while i < overrides.len()
        invariant
            i <= overrides@.len(),
            overrides@ == chain.numeric_id_to_target_deadline@,
            first_value(overrides@, account_id) == first_value_from(overrides@, account_id, i as int),
        decreases overrides.len() - i,
    {
        proof {
            lemma_first_value_step(overrides@, account_id, i as int);
        }
        if overrides[i].0 == account_id {
            return TargetDeadlineType::ConfigOverriddenByID(overrides[i].1);
        }
        i = i + 1;
    }
    assert(overrides@.subrange(i as int, overrides@.len() as int) =~= Seq::<(u64, u64)>::empty());
    match chain.target_deadline {
        Some(d) => TargetDeadlineType::ConfigChainLevel(d),
        None => match get_dynamic_deadline_for_block(chain.use_dynamic_deadlines, base_target, capacity_gib) {
            Some(d) => TargetDeadlineType::Dynamic(d),
            None => match pool_maximum {
                Some(d) => TargetDeadlineType::PoolMaximum(d),
                None => TargetDeadlineType::Default,
            },
        },
    }
}

/// A solo-mined Burst chain: none of the pool kinds.
pub open spec fn is_solo(c: PocChain) -> bool {
    !c.is_pool && !c.is_bhd && !c.is_hpool && !c.is_hdpool
}

/// What a miner submitted.
#[derive(Clone, Copy, Debug)]
pub struct NonceSubmission {
    /// 0 stands for the block being mined.
    pub block_height: u32,
    pub account_id: u64,
    pub nonce: u64,
    pub deadline: Option<u64>,
    /// Whether `deadline` is already divided by the base target.
    pub adjusted: bool,
}

/// A submission cleared for upstream, and where it goes.
pub struct Forward {
    pub chain_index: u8,
    pub height: u32,
    pub account_id: u64,
    pub nonce: u64,
    pub deadline_adjusted: u64,
    pub deadline_unadjusted: u64,
    pub target_deadline: u64,
    /// Whether the target deadline is a per-account override.
    pub id_override: bool,
    /// Milliseconds since the block started.
    pub time_since_block_start_ms: u64,
    /// Through the HDPool websocket, else by HTTP to `url`.
    pub via_websocket: bool,
    pub url: String,
}

/// What becomes of a submission.
pub enum SubmissionPlan {
    /// Answer the miner at once with this JSON.
    Reply(String),
    /// Send upstream.
    Forward(Forward),
}

/// Chain, height and deadlines a submission resolves to.
pub open spec fn resolved_chain(a: Arbiter, sub: NonceSubmission) -> int {
    height_chain(a.states(), sub.block_height, a.current())
}

pub open spec fn base_target_of(s: ChainState) -> u32 {
    match s.latest {
        Some((m, _)) => m.base_target,
        None => 0,
    }
}

pub open spec fn resolved_height(s: ChainState, sub: NonceSubmission) -> u32 {
    if sub.block_height == 0 {
        latest_height(s)
    } else {
        sub.block_height
    }
}

/// (adjusted, unadjusted) deadlines; an unadjusted deadline too large for 64 bits
/// saturates.
pub open spec fn deadlines_of(dl: u64, adjusted: bool, base_target: u32) -> (u64, u64) {
    if adjusted {
        (dl, if dl * base_target > u64::MAX { u64::MAX } else { (dl * base_target) as u64 })
    } else {
        ((dl as int / base_target as int) as u64, dl)
    }
}

/// Whether a submission goes upstream: within the target deadline and no worse than
/// the best already recorded for its height and account.
pub open spec fn gate_passes(table: Map<u32, Seq<(u64, u64)>>, height: u32, account: u64, adjusted: u64, target: u64) -> bool {
    adjusted <= target && adjusted <= best_at(table, height, account)
}

pub open spec fn no_chain_reason() -> Seq<char> {
    "Could not match nonce submission to a valid chain."@
}

pub open spec fn solo_no_deadline_reason() -> Seq<char> {
    "Indirectly solo mining burst via Archon is not implemented at this time, please configure your miner as if pool mining, and set your passphrase in the Archon config for the chain you wish to solo mine."@
}

pub open spec fn no_deadline_reason() -> Seq<char> {
    "Your miner must provide a deadline, either adjusted or unadjusted."@
}

pub open spec fn no_passphrase_reason(account: u64) -> Seq<char> {
    "No passphrase for account ID ["@ + decimal(account as nat)
        + "] was specified in Archon configuration for solo mining burst."@
}

/// `<url>/burst?requestType=submitNonce&blockheight=H&accountId=A&nonce=N`, followed
/// by `&deadline=U` for pools or `&secretPhrase=P` for solo mining.
pub open spec fn submit_url(url: Seq<char>, height: u32, account: u64, nonce: u64, tail: Seq<char>) -> Seq<char> {
    url + "/burst?requestType=submitNonce&blockheight="@ + decimal(height as nat) + "&accountId="@
        + decimal(account as nat) + "&nonce="@ + decimal(nonce as nat) + tail
}

fn build_submit_url(url: &str, height: u32, account: u64, nonce: u64, tail_key: &str, tail_value: &str) -> (r: String)
    ensures
        r@ == submit_url(url@, height, account, nonce, tail_key@ + tail_value@),
{
    let mut s = String::from_str(url);
    s.append("/burst?requestType=submitNonce&blockheight=");
    push_decimal(&mut s, height as u64);
    s.append("&accountId=");
    push_decimal(&mut s, account);
    s.append("&nonce=");
    push_decimal(&mut s, nonce);
    s.append(tail_key);
    s.append(tail_value);
    assert(s@ =~= submit_url(url@, height, account, nonce, tail_key@ + tail_value@));
    s
}

fn find_passphrase(chain: &PocChain, account_id: u64) -> (r: Option<&String>)
    ensures
        r is Some <==> first_value(chain.numeric_id_to_passphrase@, account_id) is Some,
        r is Some ==> *r->0 == first_value(chain.numeric_id_to_passphrase@, account_id)->0,
{
    let entries = &chain.numeric_id_to_passphrase;
    let mut i: usize = 0;
    assert(entries@.subrange(0, entries@.len() as int) =~= entries@);
    while i < entries.len()
        invariant
            i <= entries@.len(),
            entries@ == chain.numeric_id_to_passphrase@,
            first_value(entries@, account_id) == first_value_from(entries@, account_id, i as int),
        decreases entries.len() - i,
    {
        proof {
            lemma_first_value_step(entries@, account_id, i as int);
        }
        if entries[i].0 == account_id {
            return Some(&entries[i].1);
        }
        i = i + 1;
    }
    assert(entries@.subrange(i as int, entries@.len() as int) =~= Seq::<(u64, String)>::empty());
    None
}

/// Resolves a submission to a chain and height, gates it against the target deadline
/// and the best deadline of its height and account, records it as the new best where
/// it passes, and says where it goes.
pub fn process_nonce_submission(
    arbiter: &Arbiter,
    best: &mut BestDeadlineTable,
    sub: NonceSubmission,
    capacity_gib: u64,
    now: u64,
) -> (r: SubmissionPlan)
    requires
        arbiter.wf(),
        old(best).wf(),
    ensures
        final(best).wf(),
        ({
            let states = arbiter.states();
            let index = resolved_chain(*arbiter, sub);
            let s = states[index];
            let chain = arbiter.chains()[index];
            let bt = base_target_of(s);
            let height = resolved_height(s, sub);
            if bt == 0 {
                r matches SubmissionPlan::Reply(j) && j@ == failure_json(no_chain_reason())
                    && final(best)@ == old(best)@
            } else {
                match sub.deadline {
                    None => final(best)@ == old(best)@ && (r matches SubmissionPlan::Reply(j) && j@ == failure_json(
                        if is_solo(chain) {
                            solo_no_deadline_reason()
                        } else {
                            no_deadline_reason()
                        },
                    )),
                    Some(dl) => {
                        let (adjusted, unadjusted) = deadlines_of(dl, sub.adjusted, bt);
                        let target = target_deadline_of(chain, sub.account_id, bt, capacity_gib, latest_info(s).target_deadline);
                        if !gate_passes(old(best)@, height, sub.account_id, adjusted, target.spec_value()) {
                            final(best)@ == old(best)@ && (r matches SubmissionPlan::Reply(j) && j@ == success_json(adjusted))
                        } else {
                            &&& final(best)@ == updated(old(best)@, height, sub.account_id, adjusted)
                            &&& if is_solo(chain) && first_value(chain.numeric_id_to_passphrase@, sub.account_id) is None {
                                r matches SubmissionPlan::Reply(j) && j@ == failure_json(no_passphrase_reason(sub.account_id))
                            } else {
                                r matches SubmissionPlan::Forward(f) && f.chain_index == index && f.height == height
                                    && f.account_id == sub.account_id && f.nonce == sub.nonce
                                    && f.deadline_adjusted == adjusted && f.deadline_unadjusted == unadjusted
                                    && f.target_deadline == target.spec_value()
                                    && f.id_override == (target is ConfigOverriddenByID)
                                    && f.time_since_block_start_ms == since_start_ms(arbiter.states(), height, arbiter.current(), now)
                                    && f.via_websocket == is_websocket_direct(chain)
                                    && (!f.via_websocket ==> f.url@ == submit_url(
                                        chain.url@,
                                        height,
                                        sub.account_id,
                                        sub.nonce,
                                        if is_solo(chain) {
                                            "&secretPhrase="@ + first_value(chain.numeric_id_to_passphrase@, sub.account_id)->0@
                                        } else {
                                            "&deadline="@ + decimal(unadjusted as nat)
                                        },
                                    ))
                            }
                        }
                    },
                }
            }
        }),
{
    let chain_index = arbiter.get_chain_index_from_height(sub.block_height);
    let chain = arbiter.registry().get_chain_from_index(chain_index).unwrap();
    let (base_target, pool_maximum) = match arbiter.get_current_chain_mining_info(chain_index) {
        Some((m, _)) => (m.base_target, m.target_deadline),
        None => (0, None),
    };
    if base_target == 0 {
        return SubmissionPlan::Reply(failure_reply("Could not match nonce submission to a valid chain."));
    }
    let height = if sub.block_height == 0 {
        arbiter.get_latest_chain_info(chain_index, now).0
    } else {
        sub.block_height
    };
    let solo = !chain.is_pool && !chain.is_bhd && !chain.is_hpool && !chain.is_hdpool;
    let dl = match sub.deadline {
        Some(dl) => dl,
        None => {
            if solo {
                return SubmissionPlan::Reply(failure_reply("Indirectly solo mining burst via Archon is not implemented at this time, please configure your miner as if pool mining, and set your passphrase in the Archon config for the chain you wish to solo mine."));
            } else {
                return SubmissionPlan::Reply(failure_reply("Your miner must provide a deadline, either adjusted or unadjusted."));
            }
        },
    };
    let (adjusted, unadjusted) = if sub.adjusted {
        assert(dl as u128 * base_target as u128 <= 0xffff_ffff_ffff_ffffu128 * 0xffff_ffffu128) by (nonlinear_arith)
            requires
                dl <= 0xffff_ffff_ffff_ffffu64,
                base_target <= 0xffff_ffffu32,
        ;
        let product: u128 = dl as u128 * base_target as u128;
        (dl, if product > u64::MAX as u128 {
            u64::MAX
        } else {
            product as u64
        })
    } else {
        (dl / base_target as u64, dl)
    };
    let target = get_target_deadline(sub.account_id, base_target, chain, capacity_gib, pool_maximum);
    let target_deadline = target.value();
    let best_deadline = best.get_best_deadline(height, sub.account_id);
    if adjusted > target_deadline || best_deadline < adjusted {
        return SubmissionPlan::Reply(success_reply(adjusted));
    }
    proof {
        lemma_best_deadline_never_increases(best@, height, sub.account_id, adjusted);
    }
    best.update_best_deadline(height, sub.account_id, adjusted);
    let time_since_block_start_ms = arbiter.get_time_since_block_start_ms(height, now);
    let via_websocket = chain.is_hdpool && chain.account_key.is_some();
    let url = if solo {
        match find_passphrase(chain, sub.account_id) {
            Some(pp) => build_submit_url(chain.url.as_str(), height, sub.account_id, sub.nonce, "&secretPhrase=", pp.as_str()),
            None => {
                let mut reason = String::from_str("No passphrase for account ID [");
                push_decimal(&mut reason, sub.account_id);
                reason.append("] was specified in Archon configuration for solo mining burst.");
                return SubmissionPlan::Reply(failure_reply(reason.as_str()));
            },
        }
    } else {
        let digits = crate::json::decimal_string(unadjusted);
        build_submit_url(chain.url.as_str(), height, sub.account_id, sub.nonce, "&deadline=", digits.as_str())
    };
    let id_override = match target {
        TargetDeadlineType::ConfigOverriddenByID(_) => true,
        _ => false,
    };
    SubmissionPlan::Forward(Forward {
        chain_index,
        height,
        account_id: sub.account_id,
        nonce: sub.nonce,
        deadline_adjusted: adjusted,
        deadline_unadjusted: unadjusted,
        target_deadline,
        id_override,
        time_since_block_start_ms,
        via_websocket,
        url,
    })
}


/// Whether an upstream reply accepts a submission: it mentions `success` and the
/// adjusted deadline.
pub open spec fn upstream_accepts(text: Seq<char>, adjusted: u64) -> bool {
    contains_seq(text, "success"@) && contains_seq(text, decimal(adjusted as nat))
}

/// Whether an upstream reply accepts the submission of `deadline_adjusted`.
pub fn is_accepted_response(text: &str, deadline_adjusted: u64) -> (r: bool)
    ensures
        r == upstream_accepts(text@, deadline_adjusted),
{
    let digits = crate::json::decimal_string(deadline_adjusted);
    contains(text, "success") && contains(text, digits.as_str())
}

/// Attempts at forwarding one submission.
pub const MAX_FORWARD_ATTEMPTS: u8 = 5;

/// What to do after one forwarding attempt.
#[derive(PartialEq, Eq, Structural, Clone, Copy, Debug)]
pub enum ForwardStep {
    /// Upstream accepted.
    Accepted,
    /// Upstream answered without accepting: its reply goes back to the miner.
    Rejected,
    /// No answer; try again.
    Retry,
    /// No answer in any attempt.
    GaveUp,
}

pub open spec fn forward_step(attempt: u8, response: Option<Seq<char>>, adjusted: u64) -> ForwardStep {
    match response {
        Some(text) => if upstream_accepts(text, adjusted) {
            ForwardStep::Accepted
        } else {
            ForwardStep::Rejected
        },
        None => if attempt + 1 < MAX_FORWARD_ATTEMPTS {
            ForwardStep::Retry
        } else {
            ForwardStep::GaveUp
        },
    }
}

/// The step after attempt number `attempt` (from 0) got `response`.
pub fn next_forward_step(attempt: u8, response: Option<&str>, deadline_adjusted: u64) -> (r: ForwardStep)
    requires
        attempt < MAX_FORWARD_ATTEMPTS,
    ensures
        r == forward_step(attempt, match response {
            Some(t) => Some(t@),
            None => None,
        }, deadline_adjusted),
{
    match response {
        Some(text) => if is_accepted_response(text, deadline_adjusted) {
            ForwardStep::Accepted
        } else {
            ForwardStep::Rejected
        },
        None => if attempt + 1 < MAX_FORWARD_ATTEMPTS {
            ForwardStep::Retry
        } else {
            ForwardStep::GaveUp
        },
    }
}

pub open spec fn timeout_message() -> Seq<char> {
    "Upstream didn't respond in a timely manner, after 5 attempts."@
}

/// The reply to a miner whose submission upstream did not accept: an upstream reply
/// that is a known success or failure envelope is passed on, anything else is
/// wrapped in a failure that quotes it.
pub open spec fn rejection_json(failure_message: Seq<char>, gave_up: bool, envelope_known: bool) -> Seq<char> {
    let message = if failure_message.len() == 0 && gave_up {
        timeout_message()
    } else {
        failure_message
    };
    if envelope_known {
        message
    } else {
        failure_json("Unknown - Upstream returned: "@ + message)
    }
}

/// `envelope_known` says whether `failure_message` parses as a reply envelope.
pub fn rejection_reply(failure_message: &str, gave_up: bool, envelope_known: bool) -> (r: String)
    ensures
        r@ == rejection_json(failure_message@, gave_up, envelope_known),
{
    proof {
        reveal_strlit("Upstream didn't respond in a timely manner, after 5 attempts.");
    }
    let message = if failure_message.unicode_len() == 0 && gave_up {
        String::from_str("Upstream didn't respond in a timely manner, after 5 attempts.")
    } else {
        String::from_str(failure_message)
    };
    if envelope_known {
        message
    } else {
        let mut reason = String::from_str("Unknown - Upstream returned: ");
        reason.append(message.as_str());
        failure_reply(reason.as_str())
    }
}

/// Waits for the websocket worker's report on one queued submission.
pub const MAX_REPLY_WAITS: u8 = 5;

/// Milliseconds of each wait for the websocket worker's report.
pub const REPLY_WAIT_MS: u64 = 250;

/// What to do next with a submission that goes through the websocket.
#[derive(PartialEq, Eq, Structural, Clone, Copy, Debug)]
pub enum WebsocketStep {
    /// The worker reported: its report is the reply to the miner.
    Answer,
    /// Wait for the report once more.
    WaitAgain,
    /// Queue the submission again.
    Resend,
    /// No attempt got through.
    GiveUp,
}

pub open spec fn websocket_step(attempt: u8, wait: u8, queued: bool, reported: bool) -> WebsocketStep {
    if !queued {
        if attempt + 1 < MAX_FORWARD_ATTEMPTS {
            WebsocketStep::Resend
        } else {
            WebsocketStep::GiveUp
        }
    } else if reported {
        WebsocketStep::Answer
    } else if wait + 1 < MAX_REPLY_WAITS {
        WebsocketStep::WaitAgain
    } else if attempt + 1 < MAX_FORWARD_ATTEMPTS {
        WebsocketStep::Resend
    } else {
        WebsocketStep::GiveUp
    }
}

/// The step after attempt `attempt` and wait `wait` (both from 0): `queued` says
/// whether the submission reached the worker's queue, `reported` whether the worker's
/// report arrived during this wait.
pub fn next_websocket_step(attempt: u8, wait: u8, queued: bool, reported: bool) -> (r: WebsocketStep)
    requires
        attempt < MAX_FORWARD_ATTEMPTS,
        wait < MAX_REPLY_WAITS,
    ensures
        r == websocket_step(attempt, wait, queued, reported),
{
    if !queued {
        if attempt + 1 < MAX_FORWARD_ATTEMPTS {
            WebsocketStep::Resend
        } else {
            WebsocketStep::GiveUp
        }
    } else if reported {
        WebsocketStep::Answer
    } else if wait + 1 < MAX_REPLY_WAITS {
        WebsocketStep::WaitAgain
    } else if attempt + 1 < MAX_FORWARD_ATTEMPTS {
        WebsocketStep::Resend
    } else {
        WebsocketStep::GiveUp
    }
}

/// The capacity in GiB sent with a forwarded submission: HPool gets the proxy's total,
/// other upstreams the capacity the miner reported.
pub fn forwarded_capacity_gib(chain: &PocChain, total_gib: u64, miner_gib: u64) -> (r: u64)
    ensures
        r == if chain.is_hpool {
            total_gib
        } else {
            miner_gib
        },
{
    if chain.is_hpool {
        total_gib
    } else {
        miner_gib
    }
}

/// Forwarded deadlines never regress: where the best deadline of a (height, account)
/// is at most every deadline forwarded for it so far, a submission that passes the
/// gate is no worse than any of them, and afterwards the best deadline is still at most
/// every forwarded one, the new one included.
pub proof fn lemma_no_regress_forwarding(
    table: Map<u32, Seq<(u64, u64)>>,
    height: u32,
    account: u64,
    forwarded: Seq<u64>,
    adjusted: u64,
    target: u64,
)
    requires
        table_wf(table),
        forall|i: int| 0 <= i < forwarded.len() ==> best_at(table, height, account) <= #[trigger] forwarded[i],
        gate_passes(table, height, account, adjusted, target),
    ensures
        forall|i: int| 0 <= i < forwarded.len() ==> adjusted <= #[trigger] forwarded[i],
        forall|i: int|
            0 <= i < forwarded.push(adjusted).len() ==> best_at(updated(table, height, account, adjusted), height, account)
                <= #[trigger] forwarded.push(adjusted)[i],
{
    lemma_best_deadline_never_increases(table, height, account, adjusted);
    crate::best::lemma_updated(table, height, account, adjusted);
    assert forall|i: int| 0 <= i < forwarded.push(adjusted).len() implies best_at(updated(table, height, account, adjusted), height, account)
        <= #[trigger] forwarded.push(adjusted)[i] by {
        if i < forwarded.len() {
            assert(forwarded.push(adjusted)[i] == forwarded[i]);
        }
    }
}

} // verus!
