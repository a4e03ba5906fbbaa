use archon::arbiter::{decide_new_block, decide_sweep, Arbiter, ArbiterConfig, BlockAction, LastBlockInfo, RequeueCount};
use archon::best::BestDeadlineTable;
use archon::capacity::CapacityTracker;
use archon::chain::{MiningInfo, PocChain, Registry};
use archon::difficulty::{get_dynamic_deadline_for_block, get_network_difficulty_for_block};
use archon::submission::{process_nonce_submission, NonceSubmission, SubmissionPlan};

fn chain(name: &str, priority: u8) -> PocChain {
    PocChain {
        name: name.to_string(),
        url: format!("http://{}.example", name.to_lowercase()),
        priority,
        color: "blue".to_string(),
        enabled: true,
        is_pool: true,
        is_bhd: false,
        is_hpool: false,
        is_hdpool: false,
        account_key: None,
        miner_name: None,
        append_version_to_miner_name: false,
        target_deadline: None,
        numeric_id_to_target_deadline: Vec::new(),
        use_dynamic_deadlines: false,
        allow_lower_block_heights: false,
        requeue_interrupted_blocks: true,
        maximum_requeue_times: None,
        get_mining_info_interval_secs: 3,
        numeric_id_to_passphrase: Vec::new(),
    }
}

fn info(height: u32, base_target: u32) -> MiningInfo {
    MiningInfo { height, base_target, generation_signature: "00ff".to_string(), target_deadline: None }
}

fn started(chains: Vec<PocChain>, cfg: ArbiterConfig) -> Arbiter {
    let registry = Registry::new(chains, cfg.priority_mode).unwrap();
    let mut arbiter = Arbiter::new(cfg, registry);
    arbiter.on_new_mining_info(0, info(100, 1000), 0);
    arbiter.arbitrate_queue(0).expect("first chain starts");
    arbiter
}

#[test]
fn index_lookup_is_stable_and_skips_disabled() {
    let mut off = chain("Off", 5);
    off.enabled = false;
    let registry = Registry::new(vec![chain("A", 0), off, chain("B", 1)], true).unwrap();
    assert_eq!(registry.len(), 2);
    let first = registry.get_chain_index("http://b.example", "B");
    let second = registry.get_chain_index("http://b.example", "B");
    assert_eq!(first, 1);
    assert_eq!(first, second);
    assert_eq!(registry.get_chain_from_index(first).unwrap().name, "B");
    assert_eq!(registry.get_chain_index("http://off.example", "Off"), 0);
    assert!(registry.get_chain_from_index(2).is_none());
    assert_eq!(registry.get_num_chains_with_priority(1), 1);
    assert_eq!(registry.get_num_chains_with_priority(5), 0);
}

#[test]
fn best_deadline_never_increases() {
    let mut best = BestDeadlineTable::new();
    best.update_best_deadline(10, 1, 500);
    best.update_best_deadline(10, 2, 700);
    best.update_best_deadline(10, 1, 400);
    assert_eq!(best.get_best_deadline(10, 1), 400);
    assert_eq!(best.get_best_deadline(10, 2), 700);
    assert_eq!(best.get_best_deadline(11, 1), u64::MAX);
    assert_eq!(best.get_best_deadlines_for_block(10).unwrap(), vec![(2, 700), (1, 400)]);
    let all = best.get_best_deadlines();
    assert_eq!(all.len(), 1);
    assert_eq!(all[&10], vec![(2, 700), (1, 400)]);
}

#[test]
fn gate_keeps_over_target_from_upstream() {
    let mut c = chain("A", 0);
    c.numeric_id_to_target_deadline = vec![(9, 50)];
    c.target_deadline = Some(1000);
    let arbiter = started(vec![c], ArbiterConfig { grace_period_secs: 60, priority_mode: true, interrupt_lower_priority_blocks: true });
    let mut best = BestDeadlineTable::new();
    let over = NonceSubmission { block_height: 100, account_id: 9, nonce: 1, deadline: Some(60), adjusted: true };
    assert!(matches!(process_nonce_submission(&arbiter, &mut best, over, 0, 10), SubmissionPlan::Reply(_)));
    let within = NonceSubmission { block_height: 100, account_id: 9, nonce: 1, deadline: Some(50), adjusted: true };
    match process_nonce_submission(&arbiter, &mut best, within, 0, 10) {
        SubmissionPlan::Forward(f) => {
            assert!(f.id_override);
            assert_eq!(f.target_deadline, 50);
        }
        SubmissionPlan::Reply(r) => panic!("{}", r),
    }
    let unadjusted = NonceSubmission { block_height: 0, account_id: 3, nonce: 2, deadline: Some(900_500), adjusted: false };
    match process_nonce_submission(&arbiter, &mut best, unadjusted, 0, 10) {
        SubmissionPlan::Forward(f) => {
            assert_eq!(f.deadline_adjusted, 900);
            assert_eq!(f.deadline_unadjusted, 900_500);
            assert_eq!(f.height, 100);
            assert_eq!(f.target_deadline, 1000);
        }
        SubmissionPlan::Reply(r) => panic!("{}", r),
    }
}

#[test]
fn forwarding_never_regresses() {
    let arbiter = started(vec![chain("A", 0)], ArbiterConfig { grace_period_secs: 60, priority_mode: true, interrupt_lower_priority_blocks: true });
    let mut best = BestDeadlineTable::new();
    let sub = |d: u64| NonceSubmission { block_height: 100, account_id: 5, nonce: 1, deadline: Some(d), adjusted: true };
    assert!(matches!(process_nonce_submission(&arbiter, &mut best, sub(800), 0, 1), SubmissionPlan::Forward(_)));
    assert!(matches!(process_nonce_submission(&arbiter, &mut best, sub(900), 0, 2), SubmissionPlan::Reply(_)));
    assert!(matches!(process_nonce_submission(&arbiter, &mut best, sub(800), 0, 3), SubmissionPlan::Forward(_)));
    assert!(matches!(process_nonce_submission(&arbiter, &mut best, sub(700), 0, 4), SubmissionPlan::Forward(_)));
    assert_eq!(best.get_best_deadline(100, 5), 700);
}

#[test]
fn one_current_chain_always() {
    let cfg = ArbiterConfig { grace_period_secs: 10, priority_mode: true, interrupt_lower_priority_blocks: true };
    let mut arbiter = started(vec![chain("A", 2), chain("B", 1), chain("C", 0)], cfg);
    let n = arbiter.registry().len() as u8;
    let mut t = 0u64;
    for round in 0..30u32 {
        t += 3_000;
        let index = (round % 3) as u8;
        arbiter.on_new_mining_info(index, info(200 + round, 1000), t);
        assert!(arbiter.get_current_chain_index() < n);
        arbiter.arbitrate_queue(t + 1_000);
        assert!(arbiter.get_current_chain_index() < n);
    }
}

#[test]
fn grace_period_holds_without_interrupting() {
    let cfg = ArbiterConfig { grace_period_secs: 120, priority_mode: true, interrupt_lower_priority_blocks: false };
    let mut arbiter = started(vec![chain("A", 1), chain("B", 0), chain("C", 2)], cfg);
    assert!(arbiter.on_new_mining_info(1, info(300, 1000), 30_000).is_none());
    assert!(arbiter.on_new_mining_info(2, info(400, 1000), 40_000).is_none());
    assert!(arbiter.arbitrate_queue(50_000).is_none());
    assert_eq!(arbiter.get_current_chain_index(), 0);
    let next = arbiter.arbitrate_queue(121_000).expect("B after grace");
    assert_eq!(next.chain_index, 1);
    assert_eq!(next.last_block_info, Some(LastBlockInfo::Completed { seconds: 121, chain: 0 }));
}

#[test]
fn lower_priority_waits_for_grace_even_when_interrupting() {
    let cfg = ArbiterConfig { grace_period_secs: 120, priority_mode: true, interrupt_lower_priority_blocks: true };
    let mut arbiter = started(vec![chain("A", 0), chain("B", 1)], cfg);
    assert!(arbiter.on_new_mining_info(1, info(300, 1000), 30_000).is_none());
    assert_eq!(arbiter.get_current_chain_index(), 0);
    assert!(arbiter.on_new_mining_info(1, info(301, 1000), 130_000).is_some());
    assert_eq!(arbiter.get_current_chain_index(), 1);
}

#[test]
fn requeue_stops_at_maximum() {
    let mut a = chain("A", 1);
    a.maximum_requeue_times = Some(1);
    let cfg = ArbiterConfig { grace_period_secs: 120, priority_mode: true, interrupt_lower_priority_blocks: true };
    let mut arbiter = started(vec![a, chain("B", 0)], cfg);
    let first = arbiter.on_new_mining_info(1, info(700, 1000), 10_000).unwrap();
    assert_eq!(
        first.last_block_info,
        Some(LastBlockInfo::Requeued { times: Some(RequeueCount { number: 1, maximum: 1 }), seconds: 10, chain: 0 })
    );
    let back = arbiter.arbitrate_queue(11_000);
    assert!(back.is_none());
    let again = arbiter.arbitrate_queue(200_000).expect("A resumes after grace");
    assert_eq!(again.chain_index, 0);
    assert_eq!(again.height, 100);
    assert!(again.first_announcement);
    let second = arbiter.on_new_mining_info(1, info(701, 1000), 210_000).unwrap();
    assert_eq!(second.last_block_info, Some(LastBlockInfo::Interrupted { seconds: 10, chain: 0 }));
    assert_eq!(arbiter.get_num_times_requeued(0, 100), 1);
}

#[test]
fn capacity_ignores_stale_miners() {
    let mut tracker = CapacityTracker::new(1800, None);
    tracker.update_connected_miners("10.0.0.1:8124", 1024, 0);
    tracker.update_connected_miners("10.0.0.2:8124", 2048, 1_000_000);
    assert_eq!(tracker.get_total_capacity_gib(1_000_000), 3072);
    assert_eq!(tracker.get_total_capacity_gib(2_000_000), 2048);
    assert_eq!(tracker.get_current_capacity(167772161, 2_000_000), 0);
    assert_eq!(tracker.get_current_capacity(167772162, 2_000_000), 2048);
    tracker.update_connected_miners("10.0.0.2:9000", 0, 2_500_000);
    assert_eq!(tracker.get_current_capacity(167772162, 2_500_000), 2048);
}

#[test]
fn capacity_falls_back_to_initial() {
    let mut tracker = CapacityTracker::new(1800, Some(4096));
    assert_eq!(tracker.get_total_capacity_gib(0), 4096);
    tracker.update_connected_miners("192.168.1.7:1", 512, 0);
    assert_eq!(tracker.get_total_capacity_gib(1_000), 512);
    assert_eq!(tracker.get_total_capacity_gib(1_800_000), 4096);
}

#[test]
fn network_difficulty_values() {
    assert_eq!(get_network_difficulty_for_block(1, 240), 18325193796);
    assert_eq!(get_network_difficulty_for_block(100000, 240), 183251);
    assert_eq!(get_network_difficulty_for_block(1, 300), 14660155037);
    assert_eq!(get_network_difficulty_for_block(50, 300), 293203100);
}

#[test]
fn dynamic_deadline_values() {
    assert_eq!(get_dynamic_deadline_for_block(true, 100000, 1024), Some(131940720));
    assert_eq!(get_dynamic_deadline_for_block(true, 100000, 2048), Some(65970360));
    assert_eq!(get_dynamic_deadline_for_block(true, 100000, 0), None);
    assert_eq!(get_dynamic_deadline_for_block(false, 100000, 1024), None);
}

#[test]
fn block_actions_follow_the_table() {
    let p = ArbiterConfig { grace_period_secs: 1, priority_mode: true, interrupt_lower_priority_blocks: true };
    assert_eq!(decide_new_block(p, 0, 1, false, false, false, true), BlockAction::StartInterrupting);
    assert_eq!(decide_new_block(p, 0, 1, false, true, false, true), BlockAction::StartCompleted);
    assert_eq!(decide_new_block(p, 1, 1, true, false, true, true), BlockAction::StartSuperseded);
    assert_eq!(decide_new_block(p, 1, 1, true, false, false, true), BlockAction::Wait);
    assert_eq!(decide_new_block(p, 2, 1, false, false, false, true), BlockAction::Wait);
    let f = ArbiterConfig { grace_period_secs: 1, priority_mode: false, interrupt_lower_priority_blocks: true };
    assert_eq!(decide_new_block(f, 0, 0, true, false, false, false), BlockAction::StartSuperseded);
    assert_eq!(decide_new_block(f, 0, 0, false, true, false, true), BlockAction::StartCompleted);
    assert_eq!(decide_sweep(p, true, 1, false), BlockAction::StartInterrupting);
    assert_eq!(decide_sweep(p, true, 0, false), BlockAction::StartSuperseded);
    assert_eq!(decide_sweep(p, true, -1, false), BlockAction::Wait);
    assert_eq!(decide_sweep(f, true, 0, true), BlockAction::StartCompleted);
    assert_eq!(decide_sweep(f, false, 0, true), BlockAction::Wait);
}

#[test]
fn backwards_clock_keeps_grace_period() {
    let cfg = ArbiterConfig { grace_period_secs: 0, priority_mode: true, interrupt_lower_priority_blocks: false };
    let registry = Registry::new(vec![chain("A", 1), chain("B", 2), chain("C", 0)], true).unwrap();
    let mut arbiter = Arbiter::new(cfg, registry);
    arbiter.on_new_mining_info(0, info(100, 1000), 100_000);
    arbiter.arbitrate_queue(100_000).expect("A starts");
    assert!(!arbiter.has_grace_period_elapsed(50_000));
    assert!(arbiter.has_grace_period_elapsed(100_000));
    assert!(arbiter.on_new_mining_info(1, info(300, 1000), 50_000).is_none());
    assert!(arbiter.on_new_mining_info(2, info(400, 1000), 60_000).is_none());
    assert!(arbiter.arbitrate_queue(70_000).is_none());
    assert_eq!(arbiter.get_current_chain_index(), 0);
    assert_eq!(arbiter.arbitrate_queue(100_000).expect("C after grace").chain_index, 2);
}
