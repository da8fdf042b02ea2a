use unifaas::dispatcher::{
    error_body, forward_uri, start_step, InstanceState, InstanceTable, StartAction, StartEvent,
    StartStage,
};
use unifaas::registry::config::{ContainerConfig, FunctionConfig, RuntimeConfig};

fn config(concurrent: usize, single_use: bool, keepalive: u64) -> FunctionConfig {
    FunctionConfig {
        keepalive,
        concurrent_requests: concurrent,
        single_use,
        runtime: RuntimeConfig::Container(ContainerConfig {
            image: "img".to_string(),
            memory: 128,
            runtime: None,
        }),
    }
}

fn add(t: &mut InstanceTable<&'static str>, f: &str, id: &'static str, c: &FunctionConfig, now: u64) {
    let h = t.add_booting(f.to_string(), id.to_string(), id, 7, c, now);
    assert_eq!(h.instance_id, id);
    assert_eq!(h.ip, 7);
}

#[test]
fn booting_instance_holds_first_permit() {
    let mut t = InstanceTable::new();
    assert!(t.is_empty());
    add(&mut t, "foo", "a", &config(2, false, 10), 100);
    assert_eq!(t.len(), 1);
    let e = t.get(0);
    assert_eq!(e.state, InstanceState::BOOTING);
    assert_eq!(e.permits, 1);
    assert_eq!(e.max_users, 2);
    assert!(!e.closed);
    assert_eq!(e.last_used_ms, 100);
    // Not ready yet: nobody else gets it.
    assert!(t.get_available_instance("foo", 150).is_none());
}

#[test]
fn ready_instance_is_reused_up_to_its_limit() {
    let mut t = InstanceTable::new();
    add(&mut t, "foo", "a", &config(2, false, 10), 100);
    assert!(t.set_state("a", InstanceState::READY));
    let h = t.get_available_instance("foo", 200).unwrap();
    assert_eq!(h.instance_id, "a");
    assert_eq!(t.get(0).permits, 0);
    assert_eq!(t.get(0).last_used_ms, 200);
    // Both permits are taken now.
    assert!(t.get_available_instance("foo", 300).is_none());
    assert_eq!(t.get(0).last_used_ms, 200);
    // Other functions never get it.
    assert!(t.get_available_instance("bar", 300).is_none());
    assert!(t.release_permit("a", 0));
    assert_eq!(t.get(0).permits, 1);
    assert_eq!(t.get_available_instance("foo", 400).unwrap().instance_id, "a");
}

#[test]
fn first_available_instance_in_start_order() {
    let mut t = InstanceTable::new();
    add(&mut t, "foo", "a", &config(1, false, 10), 0);
    add(&mut t, "foo", "b", &config(1, false, 10), 0);
    add(&mut t, "foo", "c", &config(1, false, 10), 0);
    t.set_state("b", InstanceState::READY);
    t.set_state("c", InstanceState::READY);
    t.release_permit("b", 0);
    t.release_permit("c", 0);
    assert_eq!(t.get_available_instance("foo", 5).unwrap().instance_id, "b");
    assert_eq!(t.get_available_instance("foo", 5).unwrap().instance_id, "c");
    assert!(t.get_available_instance("foo", 5).is_none());
}

#[test]
fn single_use_instance_takes_one_request() {
    let mut t = InstanceTable::new();
    add(&mut t, "foo", "a", &config(3, true, 1000), 0);
    assert!(t.get(0).closed);
    t.set_state("a", InstanceState::READY);
    // While its request runs it is neither reused nor stopped.
    assert!(t.get_available_instance("foo", 5).is_none());
    assert!(t.reap(10, false).is_empty());
    t.release_permit("a", 20);
    assert!(t.get_available_instance("foo", 30).is_none());
    // Once its request is done it is stopped, keepalive or not.
    assert_eq!(t.reap(30, false), vec!["a"]);
}

#[test]
fn unknown_ids_change_nothing() {
    let mut t = InstanceTable::new();
    add(&mut t, "foo", "a", &config(1, false, 10), 0);
    assert!(!t.set_state("zz", InstanceState::ERROR));
    assert!(!t.release_permit("zz", 0));
    assert_eq!(t.get(0).state, InstanceState::BOOTING);
    assert_eq!(t.get(0).permits, 0);
}

#[test]
fn releasing_never_exceeds_capacity() {
    let mut t = InstanceTable::new();
    add(&mut t, "foo", "a", &config(2, false, 10), 0);
    assert!(t.release_permit("a", 1));
    assert!(t.release_permit("a", 2));
    assert_eq!(t.get(0).permits, 2);
    assert_eq!(t.get(0).last_used_ms, 2);
}

#[test]
fn keepalive_runs_from_the_end_of_the_last_request() {
    let mut t = InstanceTable::new();
    add(&mut t, "foo", "a", &config(1, false, 1), 0);
    t.set_state("a", InstanceState::READY);
    assert!(t.reap(3000, false).is_empty());
    t.release_permit("a", 5000);
    assert!(t.reap(6000, false).is_empty());
    assert_eq!(t.reap(6001, false), vec!["a"]);
}

#[test]
fn reap_stops_idle_expired_and_broken() {
    let mut t = InstanceTable::new();
    add(&mut t, "foo", "busy", &config(1, false, 1), 0);
    add(&mut t, "foo", "fresh", &config(1, false, 10), 0);
    add(&mut t, "foo", "old", &config(1, false, 1), 0);
    add(&mut t, "foo", "broken", &config(1, false, 1000), 0);
    add(&mut t, "foo", "busy-broken", &config(1, false, 1000), 0);
    for id in ["fresh", "old", "broken"] {
        t.release_permit(id, 0);
    }
    t.finish_boot("broken", false);
    t.finish_boot("busy-broken", false);
    t.finish_boot("fresh", true);
    assert_eq!(t.get(3).state, InstanceState::ERROR);
    assert_eq!(t.get(1).state, InstanceState::READY);
    assert!(t.contains_id("old"));
    assert!(!t.contains_id("nope"));
    // At 1000 ms nothing has expired (1000 < 1000 is false).
    assert_eq!(t.reap(1000, false), vec!["broken"]);
    assert_eq!(t.reap(1001, false), vec!["old"]);
    assert_eq!(t.len(), 3);
    assert_eq!(t.get(0).instance_id, "busy");
    assert_eq!(t.get(1).instance_id, "fresh");
    assert_eq!(t.get(2).instance_id, "busy-broken");
    // Shutdown stops every idle instance and only those.
    assert_eq!(t.reap(0, true), vec!["fresh"]);
    assert_eq!(t.len(), 2);
    t.release_permit("busy", 0);
    t.release_permit("busy-broken", 0);
    assert_eq!(t.reap(0, true), vec!["busy", "busy-broken"]);
    assert!(t.is_empty());
}

#[test]
fn huge_keepalive_does_not_overflow() {
    let mut t = InstanceTable::new();
    add(&mut t, "foo", "a", &config(1, false, u64::MAX), u64::MAX);
    t.release_permit("a", u64::MAX);
    assert!(t.reap(u64::MAX, false).is_empty());
    assert_eq!(t.reap(u64::MAX, true), vec!["a"]);
}

#[test]
fn forward_address() {
    let ip = (10u32 << 24) | (100 << 16) | 2;
    assert_eq!(forward_uri(ip, "hello", None), "http://10.100.0.2:8080/hello");
    assert_eq!(forward_uri(ip, "hello", Some("a=1&b=2")), "http://10.100.0.2:8080/hello?a=1&b=2");
    assert_eq!(forward_uri(ip, "", Some("")), "http://10.100.0.2:8080/?");
}

#[test]
fn error_bodies() {
    assert_eq!(error_body("too many requests"), "error: too many requests");
    assert_eq!(error_body(""), "error: ");
}

fn run(events: Vec<StartEvent>) -> (StartStage, Vec<String>) {
    let mut stage = StartStage::LoadConfig;
    let mut log = Vec::new();
    for e in events {
        let (next, action) = start_step(stage, e);
        stage = next;
        log.push(match action {
            StartAction::AllocateLease => "lease".to_string(),
            StartAction::Boot => "boot".to_string(),
            StartAction::AwaitReady => "wait".to_string(),
            StartAction::Forward => "forward".to_string(),
            StartAction::Fail(m) => format!("fail: {}", m),
            StartAction::Ignore => "ignore".to_string(),
        });
    }
    (stage, log)
}

#[test]
fn vm_start_that_succeeds() {
    let (stage, log) = run(vec![
        StartEvent::ConfigLoaded(true),
        StartEvent::LeaseGranted,
        StartEvent::Booted,
        StartEvent::CalledBack,
    ]);
    assert_eq!(stage, StartStage::Done);
    assert_eq!(log, vec!["lease", "boot", "wait", "forward"]);
}

#[test]
fn container_start_skips_the_lease() {
    let (stage, log) = run(vec![StartEvent::ConfigLoaded(false), StartEvent::Booted, StartEvent::TimedOut]);
    assert_eq!(stage, StartStage::Done);
    assert_eq!(log, vec!["boot", "wait", "fail: Ready callback timeout"]);
}

#[test]
fn start_failures_answer_once() {
    let (_, log) = run(vec![StartEvent::ConfigFailed("No such file".into()), StartEvent::Booted]);
    assert_eq!(log, vec!["fail: No such file", "ignore"]);
    let (_, log) = run(vec![StartEvent::ConfigLoaded(true), StartEvent::LeaseRefused, StartEvent::CalledBack]);
    assert_eq!(log, vec!["lease", "fail: Network allocation error", "ignore"]);
    let (stage, log) = run(vec![StartEvent::ConfigLoaded(false), StartEvent::BootFailed("error: VmmSpawnFailed".into())]);
    assert_eq!(stage, StartStage::Done);
    assert_eq!(log, vec!["boot", "fail: error: VmmSpawnFailed"]);
    // Events that do not belong to the stage change nothing.
    let (stage, log) = run(vec![StartEvent::CalledBack, StartEvent::LeaseGranted]);
    assert_eq!(stage, StartStage::LoadConfig);
    assert_eq!(log, vec!["ignore", "ignore"]);
}
