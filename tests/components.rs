use archon::arbiter::{Arbiter, ArbiterConfig};
use archon::best::BestDeadlineTable;
use archon::capacity::{host_of_endpoint, ip_to_u32};
use archon::chain::{ConfigError, MiningInfo, PocChain, Registry};
use archon::display::{block_target_deadline, deadline_color, get_color, DeadlineColor};
use archon::format::{censor_account_id, format_timespan, get_logging_level_from_string, modulus, pad_left, uppercase_first, LogLevel};
use archon::hdpool::{classify_lowered, heartbeat_frame, miner_name, on_inbound_frame, subscription_frames, FrameKind, InboundAction};
use archon::json::{decimal_string, failure_reply, mining_info_to_json};
use archon::poller::{on_poll_result, poll_interval_secs, OutageNotice, PollerState};
use archon::submission::{forwarded_capacity_gib, next_websocket_step, WebsocketStep};
use archon::submission::{
    get_target_deadline, is_accepted_response, next_forward_step, process_nonce_submission, rejection_reply,
    ForwardStep, NonceSubmission, SubmissionPlan, TargetDeadlineType,
};
use archon::text::{contains, starts_with, str_equal};

fn chain(name: &str, priority: u8) -> PocChain {
    PocChain {
        name: name.to_string(),
        url: format!("http://{}.example", name.to_lowercase()),
        priority,
        color: "cyan".to_string(),
        enabled: true,
        is_pool: false,
        is_bhd: false,
        is_hpool: false,
        is_hdpool: false,
        account_key: None,
        miner_name: None,
        append_version_to_miner_name: false,
        target_deadline: None,
        numeric_id_to_target_deadline: Vec::new(),
        use_dynamic_deadlines: false,
        allow_lower_block_heights: false,
        requeue_interrupted_blocks: true,
        maximum_requeue_times: None,
        get_mining_info_interval_secs: 3,
        numeric_id_to_passphrase: Vec::new(),
    }
}

fn err(chains: Vec<PocChain>, priority_mode: bool) -> ConfigError {
    match Registry::new(chains, priority_mode) {
        Ok(_) => panic!("configuration accepted"),
        Err(e) => e,
    }
}

#[test]
fn config_errors() {
    let mut both = chain("X", 0);
    both.is_hdpool = true;
    both.is_hpool = true;
    assert_eq!(err(vec![both], true), ConfigError::HdpoolAndHpool);
    let mut off = chain("Off", 0);
    off.enabled = false;
    assert_eq!(err(vec![off], true), ConfigError::NoChains);
    assert_eq!(err(Vec::new(), false), ConfigError::NoChains);
    assert_eq!(err(vec![chain("A", 3), chain("B", 3)], true), ConfigError::DuplicatePriority);
    assert!(Registry::new(vec![chain("A", 3), chain("B", 3)], false).is_ok());
    let mut no_url = chain("N", 0);
    no_url.url = String::new();
    assert_eq!(err(vec![no_url], true), ConfigError::MissingUrl);
    let many: Vec<PocChain> = (0..256).map(|i| chain(&format!("C{}", i), 0)).collect();
    assert_eq!(err(many, false), ConfigError::TooManyChains);
}

#[test]
fn solo_chain_needs_passphrase() {
    let mut solo = chain("Burst", 0);
    solo.numeric_id_to_passphrase = vec![(11, "open sesame".to_string())];
    let registry = Registry::new(vec![solo], true).unwrap();
    let mut arbiter = Arbiter::new(ArbiterConfig { grace_period_secs: 60, priority_mode: true, interrupt_lower_priority_blocks: true }, registry);
    arbiter.on_new_mining_info(0, MiningInfo { height: 5, base_target: 10, generation_signature: "aa".to_string(), target_deadline: None }, 0);
    let mut best = BestDeadlineTable::new();
    let sub = |account: u64| NonceSubmission { block_height: 5, account_id: account, nonce: 8, deadline: Some(30), adjusted: true };
    match process_nonce_submission(&arbiter, &mut best, sub(11), 0, 0) {
        SubmissionPlan::Forward(f) => assert_eq!(
            f.url,
            "http://burst.example/burst?requestType=submitNonce&blockheight=5&accountId=11&nonce=8&secretPhrase=open sesame"
        ),
        SubmissionPlan::Reply(r) => panic!("{}", r),
    }
    match process_nonce_submission(&arbiter, &mut best, sub(12), 0, 0) {
        SubmissionPlan::Reply(r) => assert_eq!(
            r,
            "{\"result\":\"failure\",\"reason\":\"No passphrase for account ID [12] was specified in Archon configuration for solo mining burst.\"}"
        ),
        SubmissionPlan::Forward(_) => panic!("forwarded without passphrase"),
    }
    let no_deadline = NonceSubmission { block_height: 5, account_id: 11, nonce: 8, deadline: None, adjusted: false };
    match process_nonce_submission(&arbiter, &mut best, no_deadline, 0, 0) {
        SubmissionPlan::Reply(r) => assert!(r.contains("Indirectly solo mining burst")),
        SubmissionPlan::Forward(_) => panic!("forwarded without deadline"),
    }
}

#[test]
fn unmatched_chain_is_refused() {
    let registry = Registry::new(vec![chain("A", 0)], true).unwrap();
    let arbiter = Arbiter::new(ArbiterConfig { grace_period_secs: 60, priority_mode: true, interrupt_lower_priority_blocks: true }, registry);
    let mut best = BestDeadlineTable::new();
    let sub = NonceSubmission { block_height: 5, account_id: 1, nonce: 1, deadline: Some(1), adjusted: true };
    match process_nonce_submission(&arbiter, &mut best, sub, 0, 0) {
        SubmissionPlan::Reply(r) => assert_eq!(r, "{\"result\":\"failure\",\"reason\":\"Could not match nonce submission to a valid chain.\"}"),
        SubmissionPlan::Forward(_) => panic!("forwarded"),
    }
}

#[test]
fn target_deadline_precedence() {
    let mut c = chain("A", 0);
    c.use_dynamic_deadlines = true;
    assert_eq!(get_target_deadline(1, 100000, &c, 1024, Some(5)), TargetDeadlineType::Dynamic(131940720));
    assert_eq!(get_target_deadline(1, 100000, &c, 0, Some(5)), TargetDeadlineType::PoolMaximum(5));
    assert_eq!(get_target_deadline(1, 100000, &c, 0, None), TargetDeadlineType::Default);
    assert_eq!(TargetDeadlineType::Default.value(), u64::MAX);
    c.target_deadline = Some(77);
    assert_eq!(get_target_deadline(1, 100000, &c, 1024, Some(5)), TargetDeadlineType::ConfigChainLevel(77));
    c.numeric_id_to_target_deadline = vec![(2, 8), (1, 9), (1, 10)];
    assert_eq!(get_target_deadline(1, 100000, &c, 1024, Some(5)), TargetDeadlineType::ConfigOverriddenByID(9));
}

#[test]
fn upstream_replies() {
    assert!(is_accepted_response("{\"result\":\"success\",\"deadline\":123}", 123));
    assert!(!is_accepted_response("{\"result\":\"success\",\"deadline\":124}", 123));
    assert!(!is_accepted_response("{\"result\":\"failure\",\"deadline\":123}", 123));
    assert_eq!(next_forward_step(0, None, 1), ForwardStep::Retry);
    assert_eq!(next_forward_step(4, None, 1), ForwardStep::GaveUp);
    assert_eq!(next_forward_step(1, Some("nope"), 1), ForwardStep::Rejected);
    assert_eq!(
        rejection_reply("", true, false),
        "{\"result\":\"failure\",\"reason\":\"Unknown - Upstream returned: Upstream didn't respond in a timely manner, after 5 attempts.\"}"
    );
    let envelope = "{\"result\":\"failure\",\"reason\":\"late\"}";
    assert_eq!(rejection_reply(envelope, false, true), envelope);
    assert_eq!(
        rejection_reply("bad \"gateway\"", false, false),
        "{\"result\":\"failure\",\"reason\":\"Unknown - Upstream returned: bad \\\"gateway\\\"\"}"
    );
    assert_eq!(failure_reply("a\\b\nc"), "{\"result\":\"failure\",\"reason\":\"a\\\\b\\nc\"}");
}

#[test]
fn mining_info_json_and_cache() {
    let m = MiningInfo { height: 12, base_target: 34, generation_signature: "beef".to_string(), target_deadline: Some(56) };
    assert_eq!(mining_info_to_json(&m), "{\"height\":12,\"baseTarget\":34,\"generationSignature\":\"beef\",\"targetDeadline\":56}");
    let v: serde_json::Value = serde_json::from_str(&mining_info_to_json(&m)).unwrap();
    assert_eq!(v["generationSignature"], "beef");
    let registry = Registry::new(vec![chain("A", 0)], true).unwrap();
    let mut arbiter = Arbiter::new(ArbiterConfig { grace_period_secs: 60, priority_mode: true, interrupt_lower_priority_blocks: true }, registry);
    assert_eq!(arbiter.get_current_mining_info_json(), "{\"result\":\"failure\",\"reason\":\"Haven't found any mining info!\"}");
    arbiter.on_new_mining_info(0, MiningInfo { height: 7, base_target: 3, generation_signature: "01".to_string(), target_deadline: None }, 0);
    let first = arbiter.get_current_mining_info_json();
    assert_eq!(first, "{\"height\":7,\"baseTarget\":3,\"generationSignature\":\"01\"}");
    assert_eq!(arbiter.get_cached_mining_info().unwrap().1, 7);
    arbiter.arbitrate_queue(0);
    assert!(arbiter.is_block_start_printed(0, 7));
    arbiter.on_new_mining_info(0, MiningInfo { height: 8, base_target: 3, generation_signature: "02".to_string(), target_deadline: None }, 5_000);
    assert_eq!(arbiter.get_current_mining_info_json(), first);
    arbiter.arbitrate_queue(6_000);
    assert_eq!(arbiter.get_current_mining_info_json(), "{\"height\":8,\"baseTarget\":3,\"generationSignature\":\"02\"}");
}

#[test]
fn chain_lookup_by_height() {
    let registry = Registry::new(vec![chain("A", 0), chain("B", 1)], true).unwrap();
    let mut arbiter = Arbiter::new(ArbiterConfig { grace_period_secs: 60, priority_mode: true, interrupt_lower_priority_blocks: true }, registry);
    arbiter.update_chain_info(0, MiningInfo { height: 50, base_target: 1, generation_signature: String::new(), target_deadline: None }, 0);
    arbiter.update_chain_info(1, MiningInfo { height: 90, base_target: 1, generation_signature: String::new(), target_deadline: None }, 0);
    assert_eq!(arbiter.get_chain_index_from_height(91), 1);
    assert_eq!(arbiter.get_chain_index_from_height(90), 1);
    assert_eq!(arbiter.get_chain_index_from_height(50), 0);
    assert_eq!(arbiter.get_chain_index_from_height(70), 0);
    assert_eq!(arbiter.get_latest_chain_info(1, 9), (90, 0));
    assert!(arbiter.has_grace_period_elapsed(0));
    assert_eq!(arbiter.get_time_since_block_start(50, 5_000), 0);
}

#[test]
fn websocket_frames() {
    assert_eq!(classify_lowered("{\"cmd\":\"poolmgr.heartbeat\"}"), FrameKind::Heartbeat);
    assert!(matches!(on_inbound_frame("{\"CMD\":\"POOLMGR.HEARTBEAT\"}"), InboundAction::Heartbeat));
    assert!(matches!(on_inbound_frame("{\"cmd\":\"mining_info\""), InboundAction::Malformed));
    assert!(matches!(on_inbound_frame("{\"cmd\":\"other\"}"), InboundAction::Unknown));
    match on_inbound_frame("{\"cmd\":\"poolmgr.mining_info\",\"para\":{\"height\":3}}") {
        InboundAction::NewMiningInfo(p) => assert_eq!(p, "{\"height\":3}"),
        _ => panic!("not mining info"),
    }
    let (a, b) = subscription_frames();
    assert_eq!(a, "{\"cmd\":\"mining_info\"}");
    assert_eq!(b, "{\"cmd\":\"poolmgr.mining_info\"}");
    assert_eq!(
        heartbeat_frame("K", "rig via Archon", 2048),
        "{\"cmd\":\"poolmgr.heartbeat\",\"para\":{\"account_key\":\"K\",\"miner_name\":\"rig via Archon\",\"miner_mark\":\"20190327\",\"capacity\":2048}}"
    );
    assert_eq!(miner_name(Some("rig"), Some("host"), "Archon", "1.0", true), "rig via Archon v1.0");
    assert_eq!(miner_name(None, Some("host"), "Archon", "1.0", false), "host via Archon");
    assert_eq!(miner_name(None, None, "Archon", "1.0", false), "Archon");
}

#[test]
fn poller_outages() {
    let mut s = PollerState::new(0);
    let o = on_poll_result(&mut s, Some(10), false, false, 300, 1_000);
    assert!(o.publish);
    assert_eq!(o.notice, OutageNotice::Quiet);
    assert!(!on_poll_result(&mut s, Some(10), false, false, 300, 2_000).publish);
    assert!(!on_poll_result(&mut s, Some(9), false, false, 300, 2_500).publish);
    assert!(on_poll_result(&mut s, Some(9), true, false, 300, 2_600).publish);
    assert_eq!(on_poll_result(&mut s, None, false, false, 300, 3_000).notice, OutageNotice::Started);
    assert_eq!(on_poll_result(&mut s, None, false, false, 300, 100_000).notice, OutageNotice::Quiet);
    assert_eq!(
        on_poll_result(&mut s, None, false, false, 300, 303_000).notice,
        OutageNotice::Continues { seconds_unavailable: 300 }
    );
    assert_eq!(on_poll_result(&mut s, Some(11), false, false, 300, 400_600).notice, OutageNotice::Over { seconds_unavailable: 398 });
    assert_eq!(on_poll_result(&mut s, None, false, true, 300, 500_000).notice, OutageNotice::Quiet);
    assert_eq!(poll_interval_secs(0), 1);
    assert_eq!(poll_interval_secs(7), 7);
}

#[test]
fn formatting() {
    assert_eq!(format_timespan(0, true), "00:00:00");
    assert_eq!(format_timespan(3661, true), "01:01:01");
    assert_eq!(format_timespan(90061, true), "1d 01:01:01");
    assert_eq!(format_timespan(2592000 + 5, true), "1m 0d 00:00:05");
    assert_eq!(format_timespan(31536000 + 86400, true), "1y 0m 1d 00:00:00");
    assert_eq!(format_timespan(3661, false), "");
    assert_eq!(pad_left(5, 2), "05");
    assert_eq!(pad_left(123, 2), "123");
    assert_eq!(modulus(7, 3), (true, 2, 1));
    assert_eq!(modulus(2, 3), (false, 0, 2));
    assert_eq!(censor_account_id(12345678, true), "1XXX678");
    assert_eq!(censor_account_id(12345678, false), "12345678");
    assert_eq!(censor_account_id(42, true), "42");
    assert_eq!(uppercase_first("archon"), "Archon");
    assert_eq!(uppercase_first("ßx"), "SSx");
    assert_eq!(uppercase_first(""), "");
    assert_eq!(decimal_string(0), "0");
    assert_eq!(decimal_string(18446744073709551615), "18446744073709551615");
    assert_eq!(get_logging_level_from_string("warn", None), LogLevel::Warn);
    assert_eq!(get_logging_level_from_string("loud", None), LogLevel::Info);
    assert_eq!(get_logging_level_from_string("loud", Some(LogLevel::Off)), LogLevel::Off);
}

#[test]
fn display_choices() {
    assert_eq!(get_color("magenta", true), "magenta");
    assert_eq!(get_color("magenta", false), "white");
    let picked = get_color("purple", true);
    assert!(["green", "yellow", "blue", "magenta", "cyan", "white"].contains(&picked.as_str()));
    assert_eq!(deadline_color(3600), DeadlineColor::Green);
    assert_eq!(deadline_color(3601), DeadlineColor::Yellow);
    assert_eq!(deadline_color(86401), DeadlineColor::White);
    assert_eq!(block_target_deadline(0, None, None), (u64::MAX, false));
    assert_eq!(block_target_deadline(500, None, Some(400)), (400, false));
    assert_eq!(block_target_deadline(500, Some(300), Some(400)), (300, true));
}

#[test]
fn text_helpers() {
    assert!(str_equal("abc", "abc"));
    assert!(!str_equal("abc", "abd"));
    assert!(starts_with("hello", "he"));
    assert!(!starts_with("he", "hello"));
    assert!(contains("say success now", "success"));
    assert!(contains("x", ""));
    assert!(!contains("succes", "success"));
    assert_eq!(host_of_endpoint("10.0.0.1:8080"), "10.0.0.1");
    assert_eq!(host_of_endpoint(":8080"), ":8080");
    assert_eq!(host_of_endpoint("10.0.0.1"), "10.0.0.1");
    assert_eq!(ip_to_u32("10.0.0.1"), 167772161);
    assert_eq!(ip_to_u32("192.168.1.7"), 3232235783);
    assert_eq!(ip_to_u32("not an ip"), 0);
}

#[test]
fn control_characters_are_escaped() {
    let reply = failure_reply("a\u{1}b\u{1f}c\u{7}");
    assert_eq!(reply, "{\"result\":\"failure\",\"reason\":\"a\\u0001b\\u001fc\\u0007\"}");
    let v: serde_json::Value = serde_json::from_str(&reply).unwrap();
    assert_eq!(v["reason"], "a\u{1}b\u{1f}c\u{7}");
    let m = MiningInfo { height: 1, base_target: 2, generation_signature: "x\u{0}y".to_string(), target_deadline: None };
    let json = mining_info_to_json(&m);
    let v: serde_json::Value = serde_json::from_str(&json).unwrap();
    assert_eq!(v["generationSignature"], "x\u{0}y");
}

#[test]
fn height_zero_uses_current_chain() {
    let mut a = chain("A", 1);
    a.is_pool = true;
    let mut b = chain("B", 0);
    b.is_pool = true;
    let registry = Registry::new(vec![a, b], true).unwrap();
    let mut arbiter = Arbiter::new(ArbiterConfig { grace_period_secs: 60, priority_mode: true, interrupt_lower_priority_blocks: true }, registry);
    let started = arbiter
        .on_new_mining_info(1, MiningInfo { height: 40, base_target: 10, generation_signature: "aa".to_string(), target_deadline: None }, 0)
        .expect("B starts");
    assert_eq!(started.chain_index, 1);
    assert_eq!(arbiter.get_chain_index_from_height(0), 1);
    assert_eq!(arbiter.get_chain_index_from_height(1), 1);
    let mut best = BestDeadlineTable::new();
    let sub = NonceSubmission { block_height: 0, account_id: 4, nonce: 9, deadline: Some(20), adjusted: true };
    match process_nonce_submission(&arbiter, &mut best, sub, 0, 1_000) {
        SubmissionPlan::Forward(f) => {
            assert_eq!(f.chain_index, 1);
            assert_eq!(f.height, 40);
        }
        SubmissionPlan::Reply(r) => panic!("{}", r),
    }
    assert_eq!(best.get_best_deadline(40, 4), 20);
}

#[test]
fn websocket_steps_and_capacity() {
    assert_eq!(next_websocket_step(0, 0, true, true), WebsocketStep::Answer);
    assert_eq!(next_websocket_step(0, 3, true, false), WebsocketStep::WaitAgain);
    assert_eq!(next_websocket_step(0, 4, true, false), WebsocketStep::Resend);
    assert_eq!(next_websocket_step(2, 0, false, false), WebsocketStep::Resend);
    assert_eq!(next_websocket_step(4, 4, true, false), WebsocketStep::GiveUp);
    assert_eq!(next_websocket_step(4, 0, false, false), WebsocketStep::GiveUp);
    let mut c = chain("H", 0);
    assert_eq!(forwarded_capacity_gib(&c, 4096, 512), 512);
    c.is_hpool = true;
    assert_eq!(forwarded_capacity_gib(&c, 4096, 512), 4096);
}
