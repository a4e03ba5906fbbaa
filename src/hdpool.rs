//! The HDPool websocket session: frames sent and received, and the miner name it
//! reports.
use vstd::prelude::*;
use vstd::string::*;
use crate::chain::PocChain;
use crate::json::{decimal, json_escaped, push_decimal, push_json_escaped};
use crate::text::{occurs_at, starts_with, str_equal};

verus! {

/// `s` in lower case, as `str::to_lowercase` gives it.
pub uninterp spec fn lower_of(s: Seq<char>) -> Seq<char>;

/// Relies on `str::to_lowercase`: the result depends on the characters alone.
#[verifier::external_body]
fn lowercase(s: &str) -> (r: String)
    ensures
        r@ == lower_of(s@),
{
    s.to_lowercase()
}

/// The text of the `para` member of a JSON frame, as `serde_json` renders it
/// (`null` where the frame has none); `None` where the frame is not JSON.
pub uninterp spec fn frame_para_of(frame: Seq<char>) -> Option<Seq<char>>;

/// Relies on `serde_json::from_str` into a `Value`, indexing it by `"para"` (which
/// gives `Null` where the member is missing) and rendering that with `to_string`:
/// the result depends on the frame's text alone.
#[verifier::external_body]
fn frame_para(frame: &str) -> (r: Option<String>)
    ensures
        match r {
            Some(p) => frame_para_of(frame@) == Some(p@),
            None => frame_para_of(frame@) is None,
        },
{
    match serde_json::from_str::<serde_json::Value>(frame) {
        Ok(v) => Some(v["para"].to_string()),
        Err(_) => None,
    }
}

/// Relies on `gethostname::gethostname`: this machine's host name, where it is valid
/// Unicode.  Nothing is known of its value.
#[verifier::external_body]
fn host_name() -> (r: Option<String>) {
    gethostname::gethostname().to_str().map(|h| h.to_string())
}

/// Relies on `chrono::Local::now` and `DateTime::timestamp`: the current Unix time in
/// seconds.  Nothing is known of its value.  chrono panics where the system clock
/// reads before 1970 or no local offset can be found, failures of the environment
/// rather than of an input.
#[verifier::external_body]
fn unix_time_secs() -> (r: i64) {
    chrono::Local::now().timestamp()
}

/// What an inbound frame is.
#[derive(PartialEq, Eq, Structural, Clone, Copy, Debug)]
pub enum FrameKind {
    Heartbeat,
    MiningInfo,
    Unknown,
}

pub open spec fn frame_kind(lowered: Seq<char>) -> FrameKind {
    if lowered == "{\"cmd\":\"poolmgr.heartbeat\"}"@ {
        FrameKind::Heartbeat
    } else if occurs_at(lowered, "{\"cmd\":\"mining_info\""@, 0) || occurs_at(
        lowered,
        "{\"cmd\":\"poolmgr.mining_info"@,
        0,
    ) {
        FrameKind::MiningInfo
    } else {
        FrameKind::Unknown
    }
}

/// Kind of a frame already in lower case.
pub fn classify_lowered(lowered: &str) -> (r: FrameKind)
    ensures
        r == frame_kind(lowered@),
{
    if str_equal(lowered, "{\"cmd\":\"poolmgr.heartbeat\"}") {
        FrameKind::Heartbeat
    } else if starts_with(lowered, "{\"cmd\":\"mining_info\"") || starts_with(
        lowered,
        "{\"cmd\":\"poolmgr.mining_info",
    ) {
        FrameKind::MiningInfo
    } else {
        FrameKind::Unknown
    }
}

/// What the session does with an inbound frame.
pub enum InboundAction {
    /// A heartbeat acknowledgement.
    Heartbeat,
    /// New mining information for the chain, as JSON text.
    NewMiningInfo(String),
    /// A mining-info frame that is not JSON.
    Malformed,
    Unknown,
}

/// Classifies an inbound frame (case-insensitively) and extracts the mining
/// information that a mining-info frame carries.
pub fn on_inbound_frame(frame: &str) -> (r: InboundAction)
    ensures
        frame_kind(lower_of(frame@)) == FrameKind::Heartbeat ==> r is Heartbeat,
        frame_kind(lower_of(frame@)) == FrameKind::Unknown ==> r is Unknown,
        frame_kind(lower_of(frame@)) == FrameKind::MiningInfo ==> match frame_para_of(frame@) {
            Some(p) => r matches InboundAction::NewMiningInfo(q) && q@ == p,
            None => r is Malformed,
        },
{
    let lowered = lowercase(frame);
    match classify_lowered(lowered.as_str()) {
        FrameKind::Heartbeat => InboundAction::Heartbeat,
        FrameKind::Unknown => InboundAction::Unknown,
        FrameKind::MiningInfo => match frame_para(frame) {
            Some(p) => InboundAction::NewMiningInfo(p),
            None => InboundAction::Malformed,
        },
    }
}

/// The two subscription frames sent on connecting.
pub fn subscription_frames() -> (r: (String, String))
    ensures
        r.0@ == "{\"cmd\":\"mining_info\"}"@,
        r.1@ == "{\"cmd\":\"poolmgr.mining_info\"}"@,
{
    (String::from_str("{\"cmd\":\"mining_info\"}"), String::from_str("{\"cmd\":\"poolmgr.mining_info\"}"))
}

/// Heartbeat frame; `20190327` is the miner mark that HDPool expects.
/// `{"cmd":"poolmgr.heartbeat","para":{"account_key":"K","miner_name":"N","miner_mark":"M","capacity":C}}`
pub open spec fn heartbeat_json(account_key: Seq<char>, miner_name: Seq<char>, capacity_gib: u64) -> Seq<char> {
    "{\"cmd\":\"poolmgr.heartbeat\",\"para\":{\"account_key\":\""@ + json_escaped(account_key)
        + "\",\"miner_name\":\""@ + json_escaped(miner_name) + "\",\"miner_mark\":\""@ + "20190327"@
        + "\",\"capacity\":"@ + decimal(capacity_gib as nat) + "}}"@
}

/// The heartbeat frame sent every few seconds.
pub fn heartbeat_frame(account_key: &str, miner_name: &str, capacity_gib: u64) -> (r: String)
    ensures
        r@ == heartbeat_json(account_key@, miner_name@, capacity_gib),
{
    let mut s = String::from_str("{\"cmd\":\"poolmgr.heartbeat\",\"para\":{\"account_key\":\"");
    push_json_escaped(&mut s, account_key);
    s.append("\",\"miner_name\":\"");
    push_json_escaped(&mut s, miner_name);
    s.append("\",\"miner_mark\":\"");
    s.append("20190327");
    s.append("\",\"capacity\":");
    push_decimal(&mut s, capacity_gib);
    s.append("}}");
    assert(s@ =~= heartbeat_json(account_key@, miner_name@, capacity_gib));
    s
}

/// A nonce submission through the websocket.
#[derive(Clone, Copy, Debug)]
pub struct HDPoolSubmitNonceInfo {
    pub account_id: u64,
    pub height: u32,
    pub nonce: u64,
    pub deadline_adjusted: u64,
    pub deadline_unadjusted: u64,
}

/// `{"cmd":"poolmgr.submit_nonce","para":{"account_key":"K","capacity":C,"miner_mark":"M",
/// "miner_name":"N","submit":[{"accountId":A,"height":H,"nonce":X,"deadline":U,"ts":T}]}}`
pub open spec fn submit_json(
    account_key: Seq<char>,
    capacity_gib: u64,
    miner_name: Seq<char>,
    info: HDPoolSubmitNonceInfo,
    ts: u64,
) -> Seq<char> {
    "{\"cmd\":\"poolmgr.submit_nonce\",\"para\":{\"account_key\":\""@ + json_escaped(account_key)
        + "\",\"capacity\":"@ + decimal(capacity_gib as nat) + ",\"miner_mark\":\""@ + "20190327"@
        + "\",\"miner_name\":\""@ + json_escaped(miner_name) + "\",\"submit\":[{\"accountId\":"@
        + decimal(info.account_id as nat) + ",\"height\":"@ + decimal(info.height as nat)
        + ",\"nonce\":"@ + decimal(info.nonce as nat) + ",\"deadline\":"@ + decimal(
        info.deadline_unadjusted as nat,
    ) + ",\"ts\":"@ + decimal(ts as nat) + "}]}}"@
}

/// The frame that submits a nonce.
pub fn submit_frame(
    account_key: &str,
    capacity_gib: u64,
    miner_name: &str,
    info: HDPoolSubmitNonceInfo,
    ts: u64,
) -> (r: String)
    ensures
        r@ == submit_json(account_key@, capacity_gib, miner_name@, info, ts),
{
    let mut s = String::from_str("{\"cmd\":\"poolmgr.submit_nonce\",\"para\":{\"account_key\":\"");
    push_json_escaped(&mut s, account_key);
    s.append("\",\"capacity\":");
    push_decimal(&mut s, capacity_gib);
    s.append(",\"miner_mark\":\"");
    s.append("20190327");
    s.append("\",\"miner_name\":\"");
    push_json_escaped(&mut s, miner_name);
    s.append("\",\"submit\":[{\"accountId\":");
    push_decimal(&mut s, info.account_id);
    s.append(",\"height\":");
    push_decimal(&mut s, info.height as u64);
    s.append(",\"nonce\":");
    push_decimal(&mut s, info.nonce);
    s.append(",\"deadline\":");
    push_decimal(&mut s, info.deadline_unadjusted);
    s.append(",\"ts\":");
    push_decimal(&mut s, ts);
    s.append("}]}}");
    assert(s@ =~= submit_json(account_key@, capacity_gib, miner_name@, info, ts));
    s
}

/// The submission frame stamped with the current Unix time.  The clock never reads
/// before 1970 here (chrono panics then); the clamp at 0 only turns the signed
/// timestamp into an unsigned one.
pub fn submit_frame_now(account_key: &str, capacity_gib: u64, miner_name: &str, info: HDPoolSubmitNonceInfo) -> (r: String)
    ensures
        exists|ts: u64| r@ == submit_json(account_key@, capacity_gib, miner_name@, info, ts),
{
    let now = unix_time_secs();
    let ts: u64 = if now < 0 {
        0
    } else {
        now as u64
    };
    submit_frame(account_key, capacity_gib, miner_name, info, ts)
}

/// `{"result":"success","deadline":"D"}`: what the submission worker reports once a
/// frame is sent.
pub open spec fn submit_sent_json(deadline_adjusted: u64) -> Seq<char> {
    "{\"result\":\"success\",\"deadline\":\""@ + decimal(deadline_adjusted as nat) + "\"}"@
}

/// The submission worker's report of a sent frame.
pub fn submit_sent_reply(deadline_adjusted: u64) -> (r: String)
    ensures
        r@ == submit_sent_json(deadline_adjusted),
{
    let mut s = String::from_str("{\"result\":\"success\",\"deadline\":\"");
    push_decimal(&mut s, deadline_adjusted);
    s.append("\"}");
    s
}

/// The name a miner goes by upstream: `<name> via <app>`, with the configured name or
/// else the host name, or the app's name alone; ` v<version>` appended on request.
pub open spec fn miner_name_of(
    configured: Option<Seq<char>>,
    hostname: Option<Seq<char>>,
    app_name: Seq<char>,
    version: Seq<char>,
    append_version: bool,
) -> Seq<char> {
    let base = match configured {
        Some(n) => n + " via "@ + app_name,
        None => match hostname {
            Some(h) => h + " via "@ + app_name,
            None => app_name,
        },
    };
    if append_version {
        base + " v"@ + version
    } else {
        base
    }
}

/// The name a miner goes by upstream; see `miner_name_of`.
pub fn miner_name(
    configured: Option<&str>,
    hostname: Option<&str>,
    app_name: &str,
    version: &str,
    append_version: bool,
) -> (r: String)
    ensures
        r@ == miner_name_of(
            match configured {
                Some(n) => Some(n@),
                None => None,
            },
            match hostname {
                Some(h) => Some(h@),
                None => None,
            },
            app_name@,
            version@,
            append_version,
        ),
{
    let mut s = match configured {
        Some(n) => {
            let mut s = String::from_str(n);
            s.append(" via ");
            s.append(app_name);
            s
        },
        None => match hostname {
            Some(h) => {
                let mut s = String::from_str(h);
                s.append(" via ");
                s.append(app_name);
                s
            },
            None => String::from_str(app_name),
        },
    };
    if append_version {
        s.append(" v");
        s.append(version);
    }
    s
}

/// The miner name of `chain`, using this machine's host name where the chain
/// configures none.
pub fn chain_miner_name(chain: &PocChain, app_name: &str, version: &str) -> (r: String)
    ensures
        chain.miner_name is Some ==> r@ == miner_name_of(
            Some(chain.miner_name->0@),
            None,
            app_name@,
            version@,
            chain.append_version_to_miner_name,
        ),
        chain.miner_name is None ==> exists|h: Option<Seq<char>>| r@ == miner_name_of(
            None,
            h,
            app_name@,
            version@,
            chain.append_version_to_miner_name,
        ),
{
    match &chain.miner_name {
        Some(n) => miner_name(Some(n.as_str()), None, app_name, version, chain.append_version_to_miner_name),
        None => {
            let host = host_name();
            match &host {
                Some(h) => {
                    let r = miner_name(None, Some(h.as_str()), app_name, version, chain.append_version_to_miner_name);
                    assert(r@ == miner_name_of(None, Some(h@), app_name@, version@, chain.append_version_to_miner_name));
                    r
                },
                None => {
                    let r = miner_name(None, None, app_name, version, chain.append_version_to_miner_name);
                    assert(r@ == miner_name_of(None, None::<Seq<char>>, app_name@, version@, chain.append_version_to_miner_name));
                    r
                },
            }
        },
    }
}


/// The X-MinerName of a forwarded submission.  For HPool it is the miner name rule
/// with the miner's user agent standing for a configured name; elsewhere it is
/// `<user agent> via <app> v<version>` where the miner sent a name, else
/// `<app> v<version>`.
pub open spec fn submission_miner_name_of(
    is_hpool: bool,
    has_configured_name: bool,
    user_agent: Seq<char>,
    hostname: Option<Seq<char>>,
    miner_sent_name: bool,
    app_name: Seq<char>,
    version: Seq<char>,
    append_version: bool,
) -> Seq<char> {
    if is_hpool {
        miner_name_of(if has_configured_name { Some(user_agent) } else { None }, hostname, app_name, version, append_version)
    } else if miner_sent_name {
        user_agent + " via "@ + app_name + " v"@ + version
    } else {
        app_name + " v"@ + version
    }
}

/// X-MinerName of a submission forwarded for `chain`; the host name is this machine's.
pub fn submission_miner_name(
    chain: &PocChain,
    user_agent: &str,
    miner_sent_name: bool,
    app_name: &str,
    version: &str,
) -> (r: String)
    ensures
        exists|h: Option<Seq<char>>| r@ == #[trigger] submission_miner_name_of(
            chain.is_hpool,
            chain.miner_name is Some,
            user_agent@,
            h,
            miner_sent_name,
            app_name@,
            version@,
            chain.append_version_to_miner_name,
        ),
{
    if chain.is_hpool {
        let host = host_name();
        let configured = if chain.miner_name.is_some() {
            Some(user_agent)
        } else {
            None
        };
        match &host {
            Some(h) => {
                let r = miner_name(configured, Some(h.as_str()), app_name, version, chain.append_version_to_miner_name);
                assert(r@ == submission_miner_name_of(chain.is_hpool, chain.miner_name is Some, user_agent@, Some(h@), miner_sent_name, app_name@, version@, chain.append_version_to_miner_name));
                r
            },
            None => {
                let r = miner_name(configured, None, app_name, version, chain.append_version_to_miner_name);
                assert(r@ == submission_miner_name_of(chain.is_hpool, chain.miner_name is Some, user_agent@, None, miner_sent_name, app_name@, version@, chain.append_version_to_miner_name));
                r
            },
        }
    } else {
        let mut r = if miner_sent_name {
            let mut r = String::from_str(user_agent);
            r.append(" via ");
            r.append(app_name);
            r
        } else {
            String::from_str(app_name)
        };
        r.append(" v");
        r.append(version);
        assert(r@ == submission_miner_name_of(chain.is_hpool, chain.miner_name is Some, user_agent@, None, miner_sent_name, app_name@, version@, chain.append_version_to_miner_name));
        r
    }
}

} // verus!
