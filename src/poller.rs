//! Decisions of a mining-info poller: which responses are new blocks, and when an
//! outage starts, continues and ends.
use vstd::prelude::*;
use crate::arbiter::elapsed_ms;

verus! {

/// Whether a polled height is a new block.
pub open spec fn is_new_block(last_height: u32, height: u32, allow_lower_block_heights: bool) -> bool {
    (allow_lower_block_heights && height != last_height) || height > last_height
}

/// State of one poller.
#[derive(Clone, Copy, Debug)]
pub struct PollerState {
    pub last_block_height: u32,
    pub request_failure: bool,
    /// Millisecond time of the last successful poll.
    pub last_request_success: u64,
    /// Millisecond time of the last outage message.
    pub last_outage_reminder_sent: u64,
}

/// A message about the availability of the upstream.
#[derive(PartialEq, Eq, Structural, Clone, Copy, Debug)]
pub enum OutageNotice {
    Quiet,
    Started,
    Continues { seconds_unavailable: u64 },
    Over { seconds_unavailable: u64 },
}

/// Outcome of one poll.
#[derive(PartialEq, Eq, Structural, Clone, Copy, Debug)]
pub struct PollOutcome {
    /// Whether the mining information goes to the arbiter as a new block.
    pub publish: bool,
    pub notice: OutageNotice,
}

impl PollerState {
    /// A poller that has seen no block, started at `now`.
    pub fn new(now: u64) -> (r: PollerState)
        ensures
            r.last_block_height == 0,
            !r.request_failure,
            r.last_request_success == now,
            r.last_outage_reminder_sent == now,
    {
        PollerState { last_block_height: 0, request_failure: false, last_request_success: now, last_outage_reminder_sent: now }
    }
}

/// Folds one poll into the state.  `polled_height` is the height of the parsed mining
/// information, `None` where the poll failed.  A failure of a websocket chain (which
/// only means that no frame was waiting) is no outage.
pub fn on_poll_result(
    state: &mut PollerState,
    polled_height: Option<u32>,
    allow_lower_block_heights: bool,
    websocket: bool,
    reminder_interval_secs: u64,
    now: u64,
) -> (r: PollOutcome)
    ensures
        match polled_height {
            Some(h) => {
                &&& r.publish == is_new_block(old(state).last_block_height, h, allow_lower_block_heights)
                &&& r.notice == (if old(state).request_failure {
                    OutageNotice::Over { seconds_unavailable: elapsed_ms(old(state).last_request_success, now) / 1000 }
                } else {
                    OutageNotice::Quiet
                })
                &&& *final(state) == PollerState {
                    last_block_height: if r.publish { h } else { old(state).last_block_height },
                    request_failure: false,
                    last_request_success: now,
                    last_outage_reminder_sent: old(state).last_outage_reminder_sent,
                }
            },
            None => {
                &&& !r.publish
                &&& if websocket {
                    r.notice == OutageNotice::Quiet && *final(state) == *old(state)
                } else if !old(state).request_failure {
                    r.notice == OutageNotice::Started && *final(state) == PollerState {
                        request_failure: true,
                        last_outage_reminder_sent: now,
                        ..*old(state)
                    }
                } else if elapsed_ms(old(state).last_outage_reminder_sent, now) / 1000 >= reminder_interval_secs {
                    r.notice == OutageNotice::Continues {
                        seconds_unavailable: elapsed_ms(old(state).last_request_success, now) / 1000,
                    } && *final(state) == PollerState { last_outage_reminder_sent: now, ..*old(state) }
                } else {
                    r.notice == OutageNotice::Quiet && *final(state) == *old(state)
                }
            },
        },
{
    match polled_height {
        Some(h) => {
            let notice = if state.request_failure {
                let elapsed = if now >= state.last_request_success {
                    now - state.last_request_success
                } else {
                    0
                };
                OutageNotice::Over { seconds_unavailable: elapsed / 1000 }
            } else {
                OutageNotice::Quiet
            };
            state.request_failure = false;
            state.last_request_success = now;
            let publish = (allow_lower_block_heights && h != state.last_block_height) || h > state.last_block_height;
            if publish {
                state.last_block_height = h;
            }
            PollOutcome { publish, notice }
        },
        None => {
            if websocket {
                return PollOutcome { publish: false, notice: OutageNotice::Quiet };
            }
            if !state.request_failure {
                state.request_failure = true;
                state.last_outage_reminder_sent = now;
                PollOutcome { publish: false, notice: OutageNotice::Started }
            } else {
                let since_reminder = if now >= state.last_outage_reminder_sent {
                    now - state.last_outage_reminder_sent
                } else {
                    0
                };
                if since_reminder / 1000 >= reminder_interval_secs {
                    state.last_outage_reminder_sent = now;
                    let elapsed = if now >= state.last_request_success {
                        now - state.last_request_success
                    } else {
                        0
                    };
                    PollOutcome { publish: false, notice: OutageNotice::Continues { seconds_unavailable: elapsed / 1000 } }
                } else {
                    PollOutcome { publish: false, notice: OutageNotice::Quiet }
                }
            }
        },
    }
}

/// Seconds between polls: the configured interval, at least 1.
pub fn poll_interval_secs(configured: u64) -> (r: u64)
    ensures
        r == if configured < 1 { 1 } else { configured },
{
    if configured < 1 {
        1
    } else {
        configured
    }
}

} // verus!
