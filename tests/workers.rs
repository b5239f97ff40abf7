use retis::debug::{get_ebpf_debug, set_ebpf_debug, EbpfDebug};
use retis::enricher::{EnrichRequest, EnricherAction, EnricherState, FlowInfoRegistry, Ufid};
use retis::error::RetisError;
use retis::hook::Hook;
use retis::probe::UsdtProbe;
use retis::tracking::{leading_timestamp, TrackingGC};
use retis::user::{UProbe, User};

const SEC: u64 = 1_000_000_000;

#[test]
fn gc_removes_only_stale_entries() {
    let gc = TrackingGC::new(vec!["tracking_map".to_string()]).limit(60);
    let now = 100 * SEC;
    let entries = vec![
        (vec![1], now - 61 * SEC),
        (vec![2], now - 60 * SEC),
        (vec![3], now - 10),
        (vec![4], now + 5),
    ];
    assert_eq!(gc.stale_keys(now, &entries), vec![vec![1]]);
}

#[test]
fn gc_defaults_and_builders() {
    let gc = TrackingGC::new(vec![]);
    assert_eq!(gc.interval, 5);
    assert_eq!(gc.limit, 60);
    assert_eq!(gc.name, "tracking_gc");
    let gc = gc.interval(1).limit(2).name("skb_tracking_gc");
    assert_eq!((gc.interval, gc.limit), (1, 2));
    assert_eq!(gc.name, "skb_tracking_gc");
    assert_eq!(leading_timestamp(&vec![1, 0, 0, 0, 0, 0, 0, 0, 9]), Ok(1));
    assert_eq!(leading_timestamp(&vec![1, 0]), Err(RetisError::SectionSizeMismatch));
}

fn req(u: u32, ts: u64) -> EnrichRequest {
    EnrichRequest::new(Ufid(u, 0, 0, 0), 0x10 + u as u64, 0x20 + u as u64, ts)
}

#[test]
fn flow_enricher_deduplication() {
    let mut st = EnricherState::new(false);
    let mut queried = Vec::new();
    let t0 = 1_000_000;
    let mut run = |st: &mut EnricherState, now: u64, queried: &mut Vec<Ufid>| {
        if let EnricherAction::Query(t) = st.poll(now) {
            queried.push(t.ufid);
            assert!(st.complete(&t, Some("in_port(1),eth() actions:2".to_string()), None).is_some());
        }
    };
    st.on_request(req(1, t0));
    run(&mut st, t0, &mut queried);
    st.on_request(req(2, t0 + 5));
    run(&mut st, t0 + 5, &mut queried);
    st.on_request(req(1, t0 + 10));
    run(&mut st, t0 + 10, &mut queried);
    for k in 1..20 {
        run(&mut st, t0 + 10 + 50 * k, &mut queried);
    }
    assert_eq!(queried, vec![Ufid(1, 0, 0, 0), Ufid(2, 0, 0, 0)]);
}

#[test]
fn enricher_rate_limit() {
    let mut st = EnricherState::new(false);
    for u in 0..5 {
        st.on_request(req(u, 0));
    }
    assert!(matches!(st.poll(0), EnricherAction::Query(_)));
    assert_eq!(st.poll(10), EnricherAction::Wait(90));
    assert!(matches!(st.poll(100), EnricherAction::Query(_)));
}

#[test]
fn enricher_idle_and_old_requests() {
    let mut st = EnricherState::new(true);
    assert_eq!(st.poll(0), EnricherAction::Wait(500));
    st.on_request(req(1, 0));
    st.on_request(req(2, 9_000));
    // The first request is older than the flow age: it is dropped.
    match st.poll(10_000) {
        EnricherAction::Query(t) => assert_eq!(t.ufid, Ufid(2, 0, 0, 0)),
        other => panic!("unexpected {:?}", other),
    }
    // With detrace supported, a missing detrace answer gives no event.
    assert!(st.complete(&req(2, 9_000), Some("flow".to_string()), None).is_none());
    let ev = st
        .complete(
            &req(2, 9_000),
            Some("  in_port(1) actions:2\n".to_string()),
            Some("table=0 actions=NORMAL\ntable=1 actions=drop\n".to_string()),
        )
        .unwrap();
    assert_eq!(ev.dpflow, "in_port(1) actions:2");
    assert_eq!(ev.ofpflows, vec!["table=0 actions=NORMAL".to_string(), "table=1 actions=drop".to_string()]);
}

#[test]
fn registry_invalidates_changed_flow() {
    let mut reg = FlowInfoRegistry::new();
    let r = req(1, 100);
    assert!(!reg.lookup(&r, 100));
    reg.insert(&r);
    assert!(reg.lookup(&r, 200));
    let changed = EnrichRequest::new(Ufid(1, 0, 0, 0), 0x99, 0x21, 300);
    assert!(!reg.lookup(&changed, 300));
    // The stale entry is gone.
    assert!(!reg.lookup(&r, 300));
    reg.insert(&r);
    reg.run(100);
    assert!(!reg.lookup(&r, 400));
}

#[test]
fn ebpf_debug_set_once() {
    let mut flag = EbpfDebug::new();
    assert!(set_ebpf_debug(&mut flag, true).is_ok());
    assert_eq!(set_ebpf_debug(&mut flag, false), Err(RetisError::DebugAlreadySet));
    assert!(get_ebpf_debug(&mut flag));
    let mut unset = EbpfDebug::new();
    assert!(!get_ebpf_debug(&mut unset));
    assert!(set_ebpf_debug(&mut unset, true).is_err());
}

fn usdt() -> UProbe {
    UProbe::Usdt(UsdtProbe {
        provider: "dpif_netlink_operate__".to_string(),
        name: "op_flow_execute".to_string(),
        ksym: 0x1234,
        path: "/usr/sbin/ovs-vswitchd".to_string(),
        pid: 4242,
    })
}

#[test]
fn user_probes() {
    let mut user = User::new(7).unwrap();
    assert!(user.reuse_map("events_map", 8).is_err());
    assert!(user.reuse_map("config", 9).is_ok());
    assert!(user.register_hook_to(usdt(), Hook::from(&[0])).is_ok());
    assert_eq!(user.register_hook_to(usdt(), Hook::from(&[0])), Err(RetisError::HookAlreadyRegistered));
    assert_eq!(user.register_hook_to(UProbe::Uprobe, Hook::from(&[0])), Err(RetisError::UnsupportedProbeType));
    let steps = user.attach();
    assert_eq!(steps.len(), 1);
    assert_eq!(steps[0].prog, 0);
    assert_eq!(user.maps().len(), 2);
}
