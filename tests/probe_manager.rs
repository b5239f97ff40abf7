use retis::error::RetisError;
use retis::hook::Hook;
use retis::inspector::{KernelInspector, TargetTypes};
use retis::manager::{Filter, HookRef, ProbeManager, ProbeOption, SetRef, HOOK_MAX, PROBE_MAX};
use retis::probe::{Probe, ProbeKind, Symbol, UsdtProbe};

// Dummy hook.
const HOOK: &[u8] = &[0];
const OTHER_HOOK: &[u8] = &[1, 2];

fn string_list(v: &[&str]) -> Vec<String> {
    v.iter().map(|s| s.to_string()).collect()
}

fn small_inspector() -> KernelInspector {
    let kallsyms = string_list(&[
        "ffffffff95612980 T kfree_skb_reason",
        "ffffffff99d1da80 T consume_skb",
        "ffffffff983c29a0 D __tracepoint_kfree_skb",
    ]);
    let types = vec![
        TargetTypes { target: "kfree_skb_reason".to_string(), params: string_list(&["struct sk_buff *", "enum skb_drop_reason"]) },
        TargetTypes { target: "consume_skb".to_string(), params: string_list(&["struct sk_buff *"]) },
        TargetTypes {
            target: "skb:kfree_skb".to_string(),
            params: string_list(&["struct sk_buff *", "void *", "enum skb_drop_reason"]),
        },
    ];
    KernelInspector::new(&kallsyms, Some(&string_list(&["skb:kfree_skb"])), None, types).unwrap()
}

fn kprobe(ins: &KernelInspector, target: &str) -> Probe {
    Probe::kprobe(Symbol::from_name(target, ins).unwrap()).unwrap()
}

fn raw_tp(ins: &KernelInspector, target: &str) -> Probe {
    Probe::raw_tracepoint(Symbol::from_name(target, ins).unwrap()).unwrap()
}

fn numbered_inspector(n: usize) -> KernelInspector {
    let mut lines = Vec::new();
    let mut types = Vec::new();
    for i in 0..n {
        lines.push(format!("{:016x} T func_{}", 0x1000 + i, i));
        types.push(TargetTypes { target: format!("func_{}", i), params: string_list(&["struct sk_buff *"]) });
    }
    KernelInspector::new(&lines, None, None, types).unwrap()
}

#[test]
fn manager_add_probe() {
    let ins = small_inspector();
    let mut mgr = ProbeManager::new();

    assert!(mgr.add_probe(kprobe(&ins, "kfree_skb_reason")).is_ok());
    assert!(mgr.add_probe(kprobe(&ins, "consume_skb")).is_ok());
    assert!(mgr.add_probe(kprobe(&ins, "consume_skb")).is_ok());

    assert!(mgr.add_probe(raw_tp(&ins, "skb:kfree_skb")).is_ok());
    assert!(mgr.add_probe(raw_tp(&ins, "skb:kfree_skb")).is_ok());

    assert_eq!(mgr.attach().steps.len(), 3);
}

#[test]
fn register_hooks() {
    let ins = small_inspector();
    let mut mgr = ProbeManager::new();

    assert!(mgr.register_kernel_hook(Hook::from(HOOK)).is_ok());
    assert!(mgr.register_kernel_hook(Hook::from(HOOK)).is_ok());

    assert!(mgr.register_hook_to(Hook::from(HOOK), kprobe(&ins, "kfree_skb_reason")).is_ok());
    assert!(mgr.add_probe(kprobe(&ins, "kfree_skb_reason")).is_ok());

    assert!(mgr.add_probe(raw_tp(&ins, "skb:kfree_skb")).is_ok());
    assert!(mgr.register_hook_to(Hook::from(HOOK), raw_tp(&ins, "skb:kfree_skb")).is_ok());
    assert!(mgr.register_hook_to(Hook::from(HOOK), raw_tp(&ins, "skb:kfree_skb")).is_ok());

    for _ in 0..HOOK_MAX - 4 {
        assert!(mgr.register_kernel_hook(Hook::from(HOOK)).is_ok());
    }

    // We should hit the hook limit here.
    assert!(mgr.register_kernel_hook(Hook::from(HOOK)).is_err());

    assert!(mgr.register_hook_to(Hook::from(HOOK), kprobe(&ins, "kfree_skb_reason")).is_ok());

    // We should hit the hook limit here as well.
    assert!(mgr.register_hook_to(Hook::from(HOOK), kprobe(&ins, "kfree_skb_reason")).is_err());
    assert!(mgr.register_hook_to(Hook::from(HOOK), raw_tp(&ins, "skb:kfree_skb")).is_err());
}

#[test]
fn manager_reuse_map() {
    let mut mgr = ProbeManager::new();

    assert!(mgr.reuse_map("config", 0).is_ok());
    assert!(mgr.reuse_map("event", 0).is_ok());
    assert!(mgr.reuse_map("event", 0).is_err());
}

#[test]
fn cap_enforcement() {
    let ins = numbered_inspector(PROBE_MAX + 1);
    let mut mgr = ProbeManager::new();
    for i in 0..PROBE_MAX {
        assert!(mgr.add_probe(kprobe(&ins, &format!("func_{}", i))).is_ok());
    }
    let r = mgr.add_probe(kprobe(&ins, &format!("func_{}", PROBE_MAX)));
    assert_eq!(r, Err(RetisError::ProbeCapacityReached));
    // Nothing was added: re-adding a registered probe still works, the plan
    // has exactly the accepted probes.
    assert!(mgr.add_probe(kprobe(&ins, "func_0")).is_ok());
    assert_eq!(mgr.attach().steps.len(), PROBE_MAX);
}

#[test]
fn hook_promotion_on_targeted_registration() {
    let ins = small_inspector();
    let mut mgr = ProbeManager::new();
    assert!(mgr.add_probe(kprobe(&ins, "kfree_skb_reason")).is_ok());
    assert!(mgr.register_hook_to(Hook::from(OTHER_HOOK), kprobe(&ins, "kfree_skb_reason")).is_ok());
    let plan = mgr.attach();
    assert_eq!(plan.steps.len(), 1);
    assert_eq!(plan.steps[0].set, SetRef::Targeted(0));
    assert_eq!(plan.steps[0].hooks, vec![HookRef::Targeted(0, 0)]);
}

#[test]
fn attach_plan_orders_hooks() {
    let ins = small_inspector();
    let mut mgr = ProbeManager::new();
    assert!(mgr.register_kernel_hook(Hook::from(HOOK)).is_ok());
    assert!(mgr.add_probe(kprobe(&ins, "consume_skb")).is_ok());
    assert!(mgr.register_hook_to(Hook::from(OTHER_HOOK), raw_tp(&ins, "skb:kfree_skb")).is_ok());
    assert!(mgr.set_probe_opt(ProbeOption::StackTrace).is_ok());
    assert_eq!(mgr.set_probe_opt(ProbeOption::StackTrace), Err(RetisError::OptionAlreadySet));
    let plan = mgr.attach();
    assert_eq!(plan.steps.len(), 2);
    let generic = &plan.steps[0];
    assert_eq!(generic.set, SetRef::Generic);
    assert_eq!(generic.kind, ProbeKind::Kprobe);
    assert_eq!(generic.ksym, 0xffffffff99d1da80);
    assert_eq!(generic.nargs, 1);
    assert_eq!(generic.hooks, vec![HookRef::Generic(0)]);
    let targeted = &plan.steps[1];
    assert_eq!(targeted.kind, ProbeKind::RawTracepoint);
    assert_eq!(targeted.ksym, 0xffffffff983c29a0);
    assert_eq!(targeted.hooks, vec![HookRef::Targeted(0, 0), HookRef::Generic(0)]);
    let config = targeted.config.unwrap();
    assert_eq!(config.offsets.sk_buff, 0);
    assert_eq!(config.offsets.skb_drop_reason, 2);
    assert_eq!(config.to_bytes(), vec![0, 2, 0xff, 0xff, 1]);
}

#[test]
fn usdt_single_hook() {
    let mut mgr = ProbeManager::new();
    let usdt = || {
        Probe::Usdt(UsdtProbe {
            provider: "main".to_string(),
            name: "run_start".to_string(),
            ksym: 0x4000,
            path: "/usr/sbin/ovs-vswitchd".to_string(),
            pid: 42,
        })
    };
    assert!(mgr.register_hook_to(Hook::from(HOOK), usdt()).is_ok());
    assert_eq!(mgr.register_hook_to(Hook::from(HOOK), usdt()), Err(RetisError::UsdtSingleHook));
    assert!(mgr.register_kernel_hook(Hook::from(HOOK)).is_ok());
    let plan = mgr.attach();
    assert_eq!(plan.steps[0].hooks, vec![HookRef::Targeted(0, 0)]);
    assert!(plan.steps[0].config.is_none());
}

#[test]
fn filters_one_per_kind() {
    let mut mgr = ProbeManager::new();
    assert!(mgr.register_filter(Filter::Packet(vec![1, 2])).is_ok());
    assert!(mgr.register_filter(Filter::Meta(vec![3])).is_ok());
    assert_eq!(mgr.register_filter(Filter::Packet(vec![4])), Err(RetisError::FilterAlreadyRegistered));
}

#[test]
fn hook_reuse_map() {
    let mut hook = Hook::from(HOOK);
    assert!(hook.reuse_map("tracking", 3).is_ok());
    assert_eq!(hook.reuse_map("tracking", 4), Err(RetisError::MapAlreadyReused));
    assert_eq!(hook.maps.len(), 1);
    let (name, fd) = hook.maps.get(0);
    assert_eq!(name, "tracking");
    assert_eq!(fd, 3);
}

#[test]
fn runtime_limits() {
    let ins = small_inspector();
    let mut mgr = ProbeManager::with_limits(1, 2);
    assert!(mgr.add_probe(kprobe(&ins, "consume_skb")).is_ok());
    assert_eq!(mgr.add_probe(kprobe(&ins, "kfree_skb_reason")), Err(RetisError::ProbeCapacityReached));
    // Moving the probe to a targeted set keeps the count.
    assert!(mgr.register_hook_to(Hook::from(HOOK), kprobe(&ins, "consume_skb")).is_ok());
    assert!(mgr.register_kernel_hook(Hook::from(HOOK)).is_ok());
    assert_eq!(mgr.register_kernel_hook(Hook::from(HOOK)), Err(RetisError::HookCapacityReached));
}
