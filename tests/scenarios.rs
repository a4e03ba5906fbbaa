use archon::arbiter::{Arbiter, ArbiterConfig, LastBlockInfo};
use archon::best::BestDeadlineTable;
use archon::chain::{MiningInfo, PocChain, Registry};
use archon::hdpool::{on_inbound_frame, submit_frame, submit_sent_reply, HDPoolSubmitNonceInfo, InboundAction};
use archon::json::success_reply;
use archon::submission::{next_forward_step, process_nonce_submission, ForwardStep, NonceSubmission, SubmissionPlan};

fn chain(name: &str, priority: u8) -> PocChain {
    PocChain {
        name: name.to_string(),
        url: format!("http://{}.example", name.to_lowercase()),
        priority,
        color: "green".to_string(),
        enabled: true,
        is_pool: true,
        is_bhd: false,
        is_hpool: false,
        is_hdpool: false,
        account_key: None,
        miner_name: None,
        append_version_to_miner_name: false,
        target_deadline: None,
        numeric_id_to_target_deadline: Vec::new(),
        use_dynamic_deadlines: false,
        allow_lower_block_heights: false,
        requeue_interrupted_blocks: true,
        maximum_requeue_times: None,
        get_mining_info_interval_secs: 3,
        numeric_id_to_passphrase: Vec::new(),
    }
}

fn info(height: u32, base_target: u32) -> MiningInfo {
    MiningInfo { height, base_target, generation_signature: "abcd".to_string(), target_deadline: None }
}

fn config(grace: u32, priority_mode: bool) -> ArbiterConfig {
    ArbiterConfig { grace_period_secs: grace, priority_mode, interrupt_lower_priority_blocks: true }
}

fn single_chain_s1() -> (Arbiter, BestDeadlineTable) {
    let mut p = chain("P", 0);
    p.target_deadline = Some(10000);
    let registry = Registry::new(vec![p], true).unwrap();
    let mut arbiter = Arbiter::new(config(120, true), registry);
    arbiter.on_new_mining_info(0, info(1000, 100000), 0);
    arbiter.arbitrate_queue(1000);
    (arbiter, BestDeadlineTable::new())
}

fn submission(deadline: u64) -> NonceSubmission {
    NonceSubmission { block_height: 1000, account_id: 42, nonce: 1, deadline: Some(deadline), adjusted: true }
}

#[test]
fn single_chain_accept() {
    let (arbiter, mut best) = single_chain_s1();
    match process_nonce_submission(&arbiter, &mut best, submission(9000), 0, 2000) {
        SubmissionPlan::Forward(f) => {
            assert_eq!(f.deadline_adjusted, 9000);
            assert_eq!(f.height, 1000);
            assert_eq!(f.deadline_unadjusted, 900_000_000);
            assert_eq!(
                f.url,
                "http://p.example/burst?requestType=submitNonce&blockheight=1000&accountId=42&nonce=1&deadline=900000000"
            );
            let upstream = "{\"result\":\"success\",\"deadline\":9000}";
            assert_eq!(next_forward_step(0, Some(upstream), f.deadline_adjusted), ForwardStep::Accepted);
            assert_eq!(success_reply(f.deadline_adjusted), "{\"result\":\"success\",\"deadline\":9000}");
        }
        SubmissionPlan::Reply(r) => panic!("not forwarded: {}", r),
    }
    assert_eq!(best.get_best_deadline(1000, 42), 9000);
}

#[test]
fn over_target_silent_drop() {
    let (arbiter, mut best) = single_chain_s1();
    match process_nonce_submission(&arbiter, &mut best, submission(15000), 0, 2000) {
        SubmissionPlan::Reply(r) => assert_eq!(r, "{\"result\":\"success\",\"deadline\":15000}"),
        SubmissionPlan::Forward(_) => panic!("forwarded over target"),
    }
    assert!(best.get_best_deadlines_for_block(1000).is_none());
}

#[test]
fn best_deadline_dedup() {
    let (arbiter, mut best) = single_chain_s1();
    assert!(matches!(process_nonce_submission(&arbiter, &mut best, submission(9000), 0, 2000), SubmissionPlan::Forward(_)));
    match process_nonce_submission(&arbiter, &mut best, submission(9500), 0, 3000) {
        SubmissionPlan::Reply(r) => assert_eq!(r, "{\"result\":\"success\",\"deadline\":9500}"),
        SubmissionPlan::Forward(_) => panic!("worse deadline forwarded"),
    }
    assert_eq!(best.get_best_deadline(1000, 42), 9000);
}

#[test]
fn priority_preemption_with_requeue() {
    let registry = Registry::new(vec![chain("A", 1), chain("B", 0)], true).unwrap();
    let mut arbiter = Arbiter::new(config(120, true), registry);
    arbiter.on_new_mining_info(0, info(500, 1000), 0);
    let started = arbiter.arbitrate_queue(0).expect("A starts");
    assert_eq!(started.chain_index, 0);
    assert_eq!(arbiter.get_queued_chain_info(0, 0), (500, 0));
    let started = arbiter.on_new_mining_info(1, info(777, 1000), 30_000).expect("B starts");
    assert_eq!(started.chain_index, 1);
    assert_eq!(
        started.last_block_info,
        Some(LastBlockInfo::Requeued { times: None, seconds: 30, chain: 0 })
    );
    assert_eq!(arbiter.get_current_chain_index(), 1);
    assert_eq!(arbiter.get_queued_chain_info(0, 30_000).0, 499);
    assert_eq!(arbiter.get_num_times_requeued(0, 500), 1);
}

#[test]
fn fifo_waits_for_grace() {
    let registry = Registry::new(vec![chain("A", 0), chain("B", 0)], false).unwrap();
    let mut arbiter = Arbiter::new(config(60, false), registry);
    arbiter.on_new_mining_info(0, info(10, 1000), 0);
    assert_eq!(arbiter.arbitrate_queue(0).expect("A starts").chain_index, 0);
    assert!(arbiter.on_new_mining_info(1, info(20, 1000), 30_000).is_none());
    assert_eq!(arbiter.get_current_chain_index(), 0);
    assert!(arbiter.arbitrate_queue(31_000).is_none());
    let (queued, _, pick) = arbiter.any_blocks_queued();
    assert!(queued);
    assert_eq!(pick, 1);
    let started = arbiter.arbitrate_queue(61_000).expect("B starts");
    assert_eq!(started.chain_index, 1);
    assert_eq!(started.last_block_info, Some(LastBlockInfo::Completed { seconds: 61, chain: 0 }));
    assert_eq!(arbiter.get_current_chain_index(), 1);
}

#[test]
fn hdpool_submit_round_trip() {
    let mut h = chain("H", 0);
    h.is_pool = false;
    h.is_hdpool = true;
    h.account_key = Some("K".to_string());
    h.url = String::new();
    let registry = Registry::new(vec![h], true).unwrap();
    let mut arbiter = Arbiter::new(config(120, true), registry);
    let frame = "{\"cmd\":\"mining_info\",\"para\":{\"height\":900,\"baseTarget\":50}}";
    match on_inbound_frame(frame) {
        InboundAction::NewMiningInfo(para) => {
            let v: serde_json::Value = serde_json::from_str(&para).unwrap();
            assert_eq!(v["height"], 900);
            assert_eq!(v["baseTarget"], 50);
        }
        _ => panic!("mining info frame not recognised"),
    }
    arbiter.on_new_mining_info(0, info(900, 50), 0);
    arbiter.arbitrate_queue(0);
    let mut best = BestDeadlineTable::new();
    let sub = NonceSubmission { block_height: 900, account_id: 7, nonce: 3, deadline: Some(4), adjusted: true };
    let f = match process_nonce_submission(&arbiter, &mut best, sub, 0, 1000) {
        SubmissionPlan::Forward(f) => f,
        SubmissionPlan::Reply(r) => panic!("not forwarded: {}", r),
    };
    assert!(f.via_websocket);
    let info = HDPoolSubmitNonceInfo {
        account_id: f.account_id,
        height: f.height,
        nonce: f.nonce,
        deadline_adjusted: f.deadline_adjusted,
        deadline_unadjusted: f.deadline_unadjusted,
    };
    let text = submit_frame("K", 1024, "rig via Archon", info, 1_600_000_000);
    let v: serde_json::Value = serde_json::from_str(&text).unwrap();
    assert_eq!(v["cmd"], "poolmgr.submit_nonce");
    let s = &v["para"]["submit"][0];
    assert_eq!(s["accountId"], 7);
    assert_eq!(s["height"], 900);
    assert_eq!(s["nonce"], 3);
    assert_eq!(s["deadline"], 200);
    assert_eq!(submit_sent_reply(f.deadline_adjusted), "{\"result\":\"success\",\"deadline\":\"4\"}");
}
