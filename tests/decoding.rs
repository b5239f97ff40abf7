use retis::error::RetisError;
use retis::events::{event_from_raw, Event, Section, SectionId};
use retis::ovs::{ovs_from_raw, unmarshall_op_exec, unmarshall_op_put, unmarshall_recv, unmarshall_upcall, OvsEvent, OvsEventType};
use retis::raw::{parse_record, RawSection, RawSectionHeader};
use retis::skb::{
    parse_tcp, skb_from_raw, unmarshal_icmp, unmarshal_ipv4, unmarshal_ipv6, unmarshal_l2, unmarshal_tcp,
    unmarshal_udp, IpAddress, SkbEvent,
};
use retis::tracking::skb_tracking_from_raw;

fn section(owner: u8, data_type: u8, data: Vec<u8>) -> RawSection {
    RawSection { header: RawSectionHeader { owner, data_type, size: data.len() as u16 }, data }
}

#[test]
fn record_split() {
    let mut rec = vec![11, 0, 0, 0, 7, 0, 0, 0];
    rec.extend_from_slice(&[7, 5, 2, 0, 8, 0]);
    rec.extend_from_slice(&[5, 0, 1, 0, 9]);
    let secs = parse_record(&rec).unwrap();
    assert_eq!(secs.len(), 2);
    assert_eq!(secs[0].header.owner, 7);
    assert_eq!(secs[0].header.data_type, 5);
    assert_eq!(secs[0].data, vec![8, 0]);
    assert_eq!(secs[1].header.owner, 5);
    assert_eq!(secs[1].data, vec![9]);
}

#[test]
fn record_malformed() {
    assert_eq!(parse_record(&vec![1, 2, 3]).unwrap_err(), RetisError::MalformedRecord);
    // Section length past the record.
    let rec = vec![6, 0, 0, 0, 0, 0, 0, 0, 7, 5, 9, 0, 1, 2];
    assert_eq!(parse_record(&rec).unwrap_err(), RetisError::MalformedRecord);
    // Total length past the buffer.
    let rec = vec![20, 0, 0, 0, 0, 0, 0, 0];
    assert_eq!(parse_record(&rec).unwrap_err(), RetisError::MalformedRecord);
}

#[test]
fn l2_decode() {
    let mut e = SkbEvent::empty();
    let data = vec![0x02, 0x42, 0xac, 0x11, 0x00, 0x02, 0xff, 0xff, 0xff, 0xff, 0xff, 0xff, 0x08, 0x00];
    assert!(unmarshal_l2(&section(7, 0, data), &mut e).is_ok());
    assert_eq!(e.etype, Some(0x0800));
    assert_eq!(e.src, Some([0x02, 0x42, 0xac, 0x11, 0x00, 0x02]));
    assert_eq!(e.dst, Some([0xff; 6]));
    assert_eq!(unmarshal_l2(&section(7, 0, vec![1, 2]), &mut e), Err(RetisError::SectionSizeMismatch));
}

#[test]
fn ipv4_decode() {
    let mut e = SkbEvent::empty();
    let data = vec![10, 0, 0, 1, 10, 0, 0, 2, 0x05, 0xdc, 6];
    assert!(unmarshal_ipv4(&section(7, 1, data), &mut e).is_ok());
    assert_eq!(e.saddr, Some(IpAddress::V4([10, 0, 0, 1])));
    assert_eq!(e.daddr, Some(IpAddress::V4([10, 0, 0, 2])));
    assert_eq!(e.ip_version, Some(4));
    assert_eq!(e.l3_len, Some(1500));
    assert_eq!(e.protocol, Some(6));
}

#[test]
fn ipv6_decode() {
    let mut e = SkbEvent::empty();
    let mut data = vec![0u8; 35];
    data[0] = 0x20;
    data[15] = 1;
    data[31] = 2;
    data[32] = 0x01;
    data[33] = 0x00;
    data[34] = 17;
    assert!(unmarshal_ipv6(&section(7, 2, data), &mut e).is_ok());
    let mut src = [0u8; 16];
    src[0] = 0x20;
    src[15] = 1;
    assert_eq!(e.saddr, Some(IpAddress::V6(src)));
    assert_eq!(e.ip_version, Some(6));
    assert_eq!(e.l3_len, Some(256));
    assert_eq!(e.protocol, Some(17));
}

#[test]
fn tcp_decode_and_flags() {
    let data = vec![0x1f, 0x90, 0x00, 0x50, 0, 0, 0, 1, 0, 0, 1, 0, 0xff, 0xff, 0x12, 5];
    let tcp = parse_tcp(&section(7, 3, data.clone())).unwrap();
    assert_eq!(tcp.sport, 8080);
    assert_eq!(tcp.dport, 80);
    assert_eq!(tcp.seq, 1);
    assert_eq!(tcp.ack_seq, 256);
    assert_eq!(tcp.window, 65535);
    // SYN + ACK.
    assert_eq!(tcp.fin(), 0);
    assert_eq!(tcp.syn(), 1);
    assert_eq!(tcp.rst(), 0);
    assert_eq!(tcp.psh(), 0);
    assert_eq!(tcp.ack(), 1);
    assert_eq!(tcp.urg(), 0);
    assert_eq!(tcp.ece(), 0);
    assert_eq!(tcp.cwr(), 0);
    let mut e = SkbEvent::empty();
    assert!(unmarshal_tcp(&section(7, 3, data), &mut e).is_ok());
    assert_eq!(e.tcp_flags, Some(0x12));
    assert_eq!(e.tcp_doff, Some(5));
    assert_eq!(e.sport, Some(8080));
}

#[test]
fn udp_icmp_decode() {
    let mut e = SkbEvent::empty();
    assert!(unmarshal_udp(&section(7, 4, vec![0, 53, 0x30, 0x39, 0, 40]), &mut e).is_ok());
    assert_eq!(e.sport, Some(53));
    assert_eq!(e.dport, Some(12345));
    assert_eq!(e.udp_len, Some(40));
    assert!(unmarshal_icmp(&section(7, 5, vec![8, 0]), &mut e).is_ok());
    assert_eq!(e.icmp_type, Some(8));
    assert_eq!(e.icmp_code, Some(0));
}

#[test]
fn skb_from_sections() {
    let secs = vec![section(7, 5, vec![3, 1]), section(7, 4, vec![0, 1, 0, 2, 0, 8])];
    let e = skb_from_raw(&secs).unwrap();
    assert_eq!(e.icmp_type, Some(3));
    assert_eq!(e.udp_len, Some(8));
    assert!(matches!(skb_from_raw(&vec![section(7, 42, vec![])]), Err(RetisError::UnknownDataType)));
}

#[test]
fn ovs_decode() {
    assert_eq!(OvsEventType::from_u8(1), Ok(OvsEventType::RecvUpcall));
    assert!(OvsEventType::from_u8(4).is_err());
    assert_eq!(OvsEventType::OpFlowExec.to_str_ref(), Ok("op_flow_exec"));
    assert_eq!(
        unmarshall_upcall(&section(8, 0, vec![1, 3, 0, 0, 0])),
        Ok(OvsEvent::Upcall { cmd: 1, upcall_port: 3 })
    );
    assert_eq!(
        unmarshall_recv(&section(8, 1, vec![2, 0, 0, 0, 100, 0, 0, 0, 1, 1, 0, 0, 0, 0, 0, 0])),
        Ok(OvsEvent::RecvUpcall { upcall_type: 2, pkt_size: 100, key_size: 257 })
    );
    assert_eq!(unmarshall_op_put(&section(8, 2, vec![])), Ok(OvsEvent::OpFlowPut));
    assert_eq!(unmarshall_op_exec(&section(8, 3, vec![])), Ok(OvsEvent::OpFlowExec));
    assert_eq!(unmarshall_op_exec(&section(8, 3, vec![1])), Err(RetisError::SectionSizeMismatch));
    assert_eq!(ovs_from_raw(&vec![section(8, 2, vec![])]), Ok(OvsEvent::OpFlowPut));
}

#[test]
fn tracking_decode() {
    let mut data = Vec::new();
    data.extend_from_slice(&0x1000u64.to_le_bytes());
    data.extend_from_slice(&77u64.to_le_bytes());
    data.extend_from_slice(&0x2000u64.to_le_bytes());
    data.extend_from_slice(&(-1i32).to_le_bytes());
    let e = skb_tracking_from_raw(&vec![section(5, 0, data.clone())]).unwrap();
    assert_eq!(e.orig_head, 0x1000);
    assert_eq!(e.timestamp, 77);
    assert_eq!(e.skb, 0x2000);
    assert_eq!(e.drop_reason, None);
    data[24] = 2;
    data[25] = 0;
    data[26] = 0;
    data[27] = 0;
    let e = skb_tracking_from_raw(&vec![section(5, 0, data)]).unwrap();
    assert_eq!(e.drop_reason, Some(2));
}

#[test]
fn event_assembly() {
    let secs = vec![
        section(7, 5, vec![0, 0]),
        section(8, 2, vec![]),
        section(7, 4, vec![0, 1, 0, 2, 0, 8]),
    ];
    let e = event_from_raw(secs).unwrap();
    assert_eq!(e.section_ids(), vec![SectionId::Skb, SectionId::Ovs]);
    match e.get(SectionId::Skb) {
        Some(Section::Skb(s)) => {
            assert_eq!(s.icmp_type, Some(0));
            assert_eq!(s.udp_len, Some(8));
        }
        _ => panic!("missing skb section"),
    }
    assert!(matches!(event_from_raw(vec![section(42, 0, vec![])]), Err(RetisError::UnknownOwner)));
    assert!(matches!(event_from_raw(vec![section(9, 0, vec![])]), Err(RetisError::NotDecodable)));
}

#[test]
fn section_ids_and_duplicates() {
    assert_eq!(SectionId::from_str("skb-tracking"), Ok(SectionId::SkbTracking));
    assert!(SectionId::from_str("bogus").is_err());
    assert_eq!(SectionId::OvsFlowInfo.to_str(), "ovs-flow-info");
    let mut e = Event::new();
    let info = |ufid| retis::enricher::OvsFlowInfoEvent {
        ufid,
        flow: 1,
        sf_acts: 2,
        dpflow: "in_port(1)".to_string(),
        ofpflows: vec![],
    };
    let u = retis::enricher::Ufid(1, 2, 3, 4);
    assert!(retis::events::fill_event(&mut e, info(u)).is_ok());
    assert!(matches!(retis::events::fill_event(&mut e, info(u)), Err(RetisError::DuplicateSection)));
}

#[test]
fn flow_lookup_to_request() {
    let mut data = Vec::new();
    data.extend_from_slice(&0xaaaau64.to_le_bytes());
    data.extend_from_slice(&0xbbbbu64.to_le_bytes());
    for u in [1u32, 2, 3, 4, 7, 8] {
        data.extend_from_slice(&u.to_le_bytes());
    }
    for v in [0x10u64, 0x20, 0x30] {
        data.extend_from_slice(&v.to_le_bytes());
    }
    let e = retis::ovs::parse_flow_lookup_ret(&section(8, 4, data)).unwrap();
    assert_eq!(e.ufid, [1, 2, 3, 4]);
    assert_eq!((e.n_mask_hit, e.n_cache_hit), (7, 8));
    assert_eq!(e.skb, 0x30);
    let r = retis::ovs::enrich_request(&e, 99);
    assert_eq!(r.ufid, retis::enricher::Ufid(1, 2, 3, 4));
    assert_eq!((r.flow, r.sf_acts, r.ts), (0xaaaa, 0xbbbb, 99));
    assert!(retis::ovs::parse_flow_lookup_ret(&section(8, 4, vec![0; 3])).is_err());
}
