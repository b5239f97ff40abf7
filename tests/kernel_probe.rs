
use retis::inspector::{KernelInspector, TargetTypes};
use retis::parse::parse_probe;
use retis::probe::{Probe, Symbol};

fn strings(v: &[&str]) -> Vec<String> {
    v.iter().map(|s| s.to_string()).collect()
}

fn types(target: &str, params: &[&str]) -> TargetTypes {
    TargetTypes { target: target.to_string(), params: strings(params) }
}

fn inspector() -> KernelInspector {
    let kallsyms = strings(&[
        "ffffffff95612980 T kfree_skb_reason",
        "ffffffff959754a0 T inet_dev_addr_type",
        "ffffffff983c29a0 D __tracepoint_kfree_skb",
        "ffffffff983c2a00 D __tracepoint_consume_skb",
        "ffffffff99d1da70 t skb_release_data",
        "ffffffff99d1da80 T consume_skb",
        "ffffffff9a000010 T tcp_v6_init_sock",
        "ffffffff9a000020 T tcp_v6_connect",
        "ffffffff9a000030 T tcp_v6_do_rcv",
        "ffffffff9a000040 T tcp_sendmsg",
        "ffffffffc0a01000 t nf_hook_slow_fake\t[nf_fake]",
    ]);
    let events = strings(&["skb:kfree_skb", "skb:consume_skb"]);
    let funcs = strings(&[
        "kfree_skb_reason",
        "inet_dev_addr_type",
        "skb_release_data",
        "consume_skb",
        "tcp_v6_init_sock",
        "tcp_v6_connect",
        "tcp_v6_do_rcv",
        "tcp_sendmsg",
        "nf_hook_slow_fake [nf_fake]",
    ]);
    let btf = vec![
        types("skb:kfree_skb", &["struct sk_buff *", "void *", "enum skb_drop_reason"]),
        types("skb:consume_skb", &["struct sk_buff *", "void *"]),
        types("kfree_skb_reason", &["struct sk_buff *", "enum skb_drop_reason"]),
        types("consume_skb", &["struct sk_buff *"]),
        types("inet_dev_addr_type", &["struct net *", "struct net_device *", "__be32"]),
        types("skb_release_data", &["struct sk_buff *", "enum skb_drop_reason"]),
        types("tcp_v6_init_sock", &["struct sock *"]),
        types("tcp_v6_connect", &["struct sock *", "struct sockaddr *", "int"]),
        types("tcp_v6_do_rcv", &["struct sock *", "struct sk_buff *"]),
        types("tcp_sendmsg", &["struct sock *", "struct msghdr *", "size_t"]),
        types("nf_hook_slow_fake", &["struct sk_buff *"]),
    ];
    KernelInspector::new(&kallsyms, Some(&events), Some(&funcs), btf).unwrap()
}

fn parse(text: &str) -> Result<Vec<Probe>, retis::error::RetisError> {
    parse_probe(text, &inspector(), |_: &Symbol| true)
}

#[test]
fn utils_parse_probe() {
    // Valid probes.
    assert!(parse("consume_skb").is_ok());
    assert!(parse("kprobe:kfree_skb_reason").is_ok());
    assert!(parse("k:kfree_skb_reason").is_ok());
    assert!(parse("skb:kfree_skb").is_ok());
    assert!(parse("tp:skb:kfree_skb").is_ok());
    assert!(parse("tcp_v6_*").is_ok());
    assert!(parse("kprobe:tcp_v6_*").is_ok());
    assert!(!parse("kprobe:tcp_v6_*").unwrap().is_empty());
    assert!(parse("kretprobe:tcp_*").is_ok());
    assert!(parse("kr:tcp_*").is_ok());
    assert!(parse("tp:skb:kfree_*").is_ok());
    assert!(parse("tp:*skb*").is_ok());

    // Invalid probe: symbol does not exist.
    assert!(parse("foobar").is_err());
    assert!(parse("kprobe:foobar").is_err());
    assert!(parse("tp:42:foobar").is_err());
    assert!(parse("tp:kfree_*").is_err());
    assert!(parse("*foo*").is_err());

    // Invalid probe: wrong TYPE.
    assert!(parse("kprobe:skb:kfree_skb").is_err());
    assert!(parse("foo:kfree_skb").is_err());

    // Invalid probe: empty parts.
    assert!(parse("").is_err());
    assert!(parse("kprobe:").is_err());
    assert!(parse("tp:").is_err());
    assert!(parse("tp:skb:").is_err());
    assert!(parse(":kfree_skb_reason").is_err());
}

#[test]
fn inspect_symbol() {
    let ins = inspector();

    // Inspect an event.
    let desc = retis::inspect::inspect_symbol(&Symbol::from_name("skb:kfree_skb", &ins).unwrap());
    assert!(desc.is_ok());

    let desc = desc.unwrap();
    assert!(desc.ksym == 0xffffffff983c29a0);
    assert!(desc.nargs == 3);
    assert!(desc.offsets.sk_buff == 0);
    assert!(desc.offsets.skb_drop_reason == 2);
    assert!(desc.offsets.net_device == -1);
    assert!(desc.offsets.net == -1);

    // Inspect a function.
    let desc = retis::inspect::inspect_symbol(&Symbol::from_name("kfree_skb_reason", &ins).unwrap());
    assert!(desc.is_ok());

    let desc = desc.unwrap();
    assert!(desc.ksym == 0xffffffff95612980);
    assert!(desc.nargs == 2);
    assert!(desc.offsets.sk_buff == 0);
    assert!(desc.offsets.skb_drop_reason == 1);
    assert!(desc.offsets.net_device == -1);
    assert!(desc.offsets.net == -1);

    // Inspect a function with net device and netns arguments.
    let desc = retis::inspect::inspect_symbol(&Symbol::from_name("inet_dev_addr_type", &ins).unwrap());
    assert!(desc.is_ok());

    let desc = desc.unwrap();
    assert!(desc.ksym == 0xffffffff959754a0);
    assert!(desc.nargs == 3);
    assert!(desc.offsets.sk_buff == -1);
    assert!(desc.offsets.skb_drop_reason == -1);
    assert!(desc.offsets.net_device == 1);
    assert!(desc.offsets.net == 0);
}

#[test]
fn wildcard_kprobe_registration() {
    let probes = parse("kprobe:tcp_v6_*").unwrap();
    let names: Vec<String> = probes.iter().map(|p| p.target()).collect();
    assert_eq!(names, vec!["tcp_v6_init_sock", "tcp_v6_connect", "tcp_v6_do_rcv"]);
    assert!(probes.iter().all(|p| matches!(p, Probe::Kprobe(_))));
    let mut mgr = retis::manager::ProbeManager::new();
    for p in probes {
        assert!(mgr.add_probe(p).is_ok());
    }
    let plan = mgr.attach();
    assert_eq!(plan.steps.len(), 3);
    assert!(plan.steps.iter().all(|s| s.set == retis::manager::SetRef::Generic));
}

#[test]
fn tracepoint_disambiguation() {
    let probes = parse("skb:kfree_skb").unwrap();
    assert_eq!(probes.len(), 1);
    assert!(matches!(probes[0], Probe::RawTracepoint(_)));
    assert_eq!(probes[0].target(), "skb:kfree_skb");
}

#[test]
fn parse_probe_filter_drops_symbols() {
    let ins = inspector();
    let probes = parse_probe("kprobe:tcp_v6_*", &ins, |s: &Symbol| s.name() != "tcp_v6_connect").unwrap();
    assert_eq!(probes.len(), 2);
}

#[test]
fn inspector_init() {
    let _ = inspector();
    assert!(KernelInspector::new(&strings(&["not a line"]), None, None, Vec::new()).is_err());
    assert!(KernelInspector::new(&strings(&["zz T foo"]), None, None, Vec::new()).is_err());
}

#[test]
fn symbol_name() {
    assert!(inspector().get_symbol_name(0xffffffff99d1da80).unwrap() == "consume_skb");
}

#[test]
fn symbol_addr() {
    assert!(inspector().get_symbol_addr("consume_skb").unwrap() == 0xffffffff99d1da80);
}

#[test]
fn test_bijection() {
    let symbol = "consume_skb";
    let addr = inspector().get_symbol_addr(symbol).unwrap();
    let name = inspector().get_symbol_name(addr).unwrap();

    assert!(symbol == name);
}

#[test]
fn nearest_symbol() {
    let addr = inspector().get_symbol_addr("consume_skb").unwrap();

    assert!(inspector().find_nearest_symbol(addr + 1).unwrap() == addr);
    assert!(inspector().find_nearest_symbol(addr).unwrap() == addr);
    assert!(inspector().find_nearest_symbol(addr - 1).unwrap() != addr);
}

#[test]
fn name_from_addr_near() {
    let mut sym_info = inspector()
        .get_name_offt_from_addr_near(0xffffffff99d1da80 + 1)
        .unwrap();

    assert_eq!(sym_info.0, "consume_skb");
    assert_eq!(sym_info.1, 0x1_u64);

    sym_info = inspector()
        .get_name_offt_from_addr_near(0xffffffff99d1da80 - 1)
        .unwrap();
    assert_ne!(sym_info.0, "consume_skb");

    sym_info = inspector()
        .get_name_offt_from_addr_near(0xffffffff99d1da80)
        .unwrap();
    assert_eq!(sym_info.0, "consume_skb");
    assert_eq!(sym_info.1, 0x0_u64);
}

#[test]
fn module_symbol_name_stops_at_tab() {
    let ins = inspector();
    assert_eq!(ins.get_symbol_name(0xffffffffc0a01000).unwrap(), "nf_hook_slow_fake");
    assert_eq!(ins.is_function_traceable("nf_hook_slow_fake"), Some(true));
}

#[test]
fn duplicate_lines_keep_the_first() {
    let lines = strings(&["0000000000001000 t init_a", "0000000000001000 t init_b"]);
    let ins = KernelInspector::new(&lines, None, None, Vec::new()).unwrap();
    assert_eq!(ins.get_symbol_name(0x1000).unwrap(), "init_a");
    assert!(ins.get_symbol_addr("init_b").is_err());
}

#[test]
fn traceability_unknown_without_lists() {
    let lines = strings(&["0000000000001000 T f"]);
    let ins = KernelInspector::new(&lines, None, None, Vec::new()).unwrap();
    assert_eq!(ins.is_event_traceable("skb:kfree_skb"), None);
    assert_eq!(ins.is_function_traceable("f"), None);
    assert!(ins.matching_functions("f*").is_err());
}

#[test]
fn find_matching_event_by_suffix() {
    let ins = inspector();
    assert_eq!(ins.find_matching_event("kfree_skb"), Some("skb:kfree_skb".to_string()));
    assert_eq!(ins.find_matching_event("nothing"), None);
}
