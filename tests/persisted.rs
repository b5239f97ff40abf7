use retis::enricher::{OvsFlowInfoEvent, Ufid};
use retis::events::SkbDropEvent;
use retis::json::{
    drop_from_json, drop_to_json, flow_info_from_json, flow_info_to_json, get_field, tracking_from_json,
    tracking_to_json, JsonObject, JsonValue,
};
use retis::json::{ovs_from_json, ovs_to_json};
use retis::ovs::OvsEvent;
use retis::skb::{IpAddress, SkbEvent};
use retis::tracking::SkbTrackingEvent;

#[test]
fn tracking_round_trip() {
    let e = SkbTrackingEvent { orig_head: 0xffff8880_1234, timestamp: 42, skb: 0xffff8880_5678, drop_reason: Some(2) };
    let obj = tracking_to_json(&e);
    assert_eq!(obj.fields[0].0, "orig_head");
    assert!(matches!(get_field(&obj, "drop_reason"), Some(JsonValue::Number(2))));
    assert_eq!(tracking_from_json(&obj), Ok(e));
    let none = SkbTrackingEvent { drop_reason: None, ..e };
    let obj = tracking_to_json(&none);
    assert!(matches!(get_field(&obj, "drop_reason"), Some(JsonValue::Null)));
    assert_eq!(tracking_from_json(&obj), Ok(none));
}

#[test]
fn tracking_from_reordered_object() {
    let obj = JsonObject {
        fields: vec![
            ("skb".to_string(), JsonValue::Number(3)),
            ("timestamp".to_string(), JsonValue::Number(2)),
            ("orig_head".to_string(), JsonValue::Number(1)),
        ],
    };
    let e = tracking_from_json(&obj).unwrap();
    assert_eq!((e.orig_head, e.timestamp, e.skb, e.drop_reason), (1, 2, 3, None));
    let bad = JsonObject { fields: vec![("skb".to_string(), JsonValue::Text("x".to_string()))] };
    assert!(tracking_from_json(&bad).is_err());
}

#[test]
fn flow_info_round_trip() {
    let e = OvsFlowInfoEvent {
        ufid: Ufid(1, 2, 3, 4),
        flow: 0x10,
        sf_acts: 0x20,
        dpflow: "recirc_id(0),in_port(2) actions:3".to_string(),
        ofpflows: vec!["table_id=0 priority=0 actions=NORMAL".to_string()],
    };
    let obj = flow_info_to_json(&e);
    assert!(matches!(get_field(&obj, "ufid"), Some(JsonValue::Numbers(v)) if v == &vec![1, 2, 3, 4]));
    let back = flow_info_from_json(&obj).unwrap();
    assert_eq!(back.ufid, e.ufid);
    assert_eq!(back.dpflow, e.dpflow);
    assert_eq!(back.ofpflows, e.ofpflows);
}

#[test]
fn drop_round_trip() {
    let e = SkbDropEvent { subsys: Some("openvswitch".to_string()), drop_reason: "OVS_DROP_LAST_ACTION".to_string() };
    let back = drop_from_json(&drop_to_json(&e)).unwrap();
    assert_eq!(back.subsys, e.subsys);
    assert_eq!(back.drop_reason, e.drop_reason);
    let core = SkbDropEvent { subsys: None, drop_reason: "NO_SOCKET".to_string() };
    let back = drop_from_json(&drop_to_json(&core)).unwrap();
    assert_eq!(back.subsys, None);
}

#[test]
fn type_line_parsing() {
    let t = retis::inspector::TargetTypes::from_line("kfree_skb_reason\tstruct sk_buff *\tenum skb_drop_reason").unwrap();
    assert_eq!(t.target, "kfree_skb_reason");
    assert_eq!(t.params, vec!["struct sk_buff *".to_string(), "enum skb_drop_reason".to_string()]);
    assert!(retis::inspector::TargetTypes::from_line("").is_err());
    assert_eq!(retis::text::split_char("a::b", ':'), vec!["a".to_string(), "".to_string(), "b".to_string()]);
}

#[test]
fn ovs_round_trip() {
    for e in [
        OvsEvent::Upcall { cmd: 1, upcall_port: 4 },
        OvsEvent::RecvUpcall { upcall_type: 1, pkt_size: 98, key_size: 200 },
        OvsEvent::OpFlowPut,
        OvsEvent::OpFlowExec,
    ] {
        assert_eq!(ovs_from_json(&ovs_to_json(&e)), Ok(e));
    }
    let bad = JsonObject { fields: vec![("event_type".to_string(), JsonValue::Text("nope".to_string()))] };
    assert!(ovs_from_json(&bad).is_err());
}

#[test]
fn drop_event_text() {
    let e = SkbDropEvent { subsys: Some("openvswitch".to_string()), drop_reason: "OVS_DROP_LAST_ACTION".to_string() };
    assert_eq!(e.event_fmt(), "drop (reason openvswitch/OVS_DROP_LAST_ACTION)");
    let core = SkbDropEvent { subsys: None, drop_reason: "NO_SOCKET".to_string() };
    assert_eq!(core.event_fmt(), "drop (reason NO_SOCKET)");
}

#[test]
fn event_from_persisted_objects() {
    let tracking = SkbTrackingEvent { orig_head: 1, timestamp: 2, skb: 3, drop_reason: None };
    let objects = vec![
        ("ovs".to_string(), ovs_to_json(&OvsEvent::OpFlowPut)),
        ("skb-tracking".to_string(), tracking_to_json(&tracking)),
    ];
    let e = retis::json::event_from_json(objects).unwrap();
    assert_eq!(e.section_ids(), vec![retis::events::SectionId::SkbTracking, retis::events::SectionId::Ovs]);
    let unknown = vec![("bogus".to_string(), tracking_to_json(&tracking))];
    assert!(retis::json::event_from_json(unknown).is_err());
    let twice = vec![
        ("skb-tracking".to_string(), tracking_to_json(&tracking)),
        ("skb-tracking".to_string(), tracking_to_json(&tracking)),
    ];
    assert!(retis::json::event_from_json(twice).is_err());
}

#[test]
fn skb_round_trip() {
    let mut e = SkbEvent::empty();
    e.etype = Some(0x0800);
    e.src = Some([0x02, 0x42, 0xac, 0x11, 0x00, 0x02]);
    e.saddr = Some(IpAddress::V4([10, 0, 0, 1]));
    e.daddr = Some(IpAddress::V6([0x20, 0x01, 0x0d, 0xb8, 0, 0, 0, 0, 0, 0, 0, 0, 0, 0, 0, 1]));
    e.tcp_seq = Some(123456);
    e.icmp_code = Some(3);
    let obj = retis::json::skb_to_json(&e);
    assert!(matches!(get_field(&obj, "src"), Some(JsonValue::Text(t)) if t == "02:42:ac:11:00:02"));
    assert!(matches!(get_field(&obj, "saddr"), Some(JsonValue::Text(t)) if t == "10.0.0.1"));
    assert!(matches!(get_field(&obj, "daddr"), Some(JsonValue::Text(t)) if t == "2001:0db8:0000:0000:0000:0000:0000:0001"));
    assert!(matches!(get_field(&obj, "dst"), Some(JsonValue::Null)));
    let back = retis::json::skb_from_json(&obj).unwrap();
    assert_eq!(back.etype, e.etype);
    assert_eq!(back.src, e.src);
    assert_eq!(back.dst, None);
    assert_eq!(back.saddr, e.saddr);
    assert_eq!(back.daddr, e.daddr);
    assert_eq!(back.tcp_seq, e.tcp_seq);
    assert_eq!(back.icmp_code, e.icmp_code);
    assert_eq!(retis::addr_text::ipv4_from_str("192.168.1.255"), Some([192, 168, 1, 255]));
    assert_eq!(retis::addr_text::ipv4_from_str("256.1.1.1"), None);
    let bad = JsonObject { fields: vec![("src".to_string(), JsonValue::Text("zz".to_string()))] };
    assert!(retis::json::skb_from_json(&bad).is_err());
}
