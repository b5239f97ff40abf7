//! The self-describing persisted form of the tracking, drop and flow-info
//! sections: flat objects of named values, with stable field names. Turning
//! them into text is left to a JSON writer.

use vstd::prelude::*;

use crate::enricher::{OvsFlowInfoEvent, Ufid};
use crate::error::RetisError;
use crate::events::{Event, Section, SectionId, SkbDropEvent};
use crate::inspector::{clone_strings, texts};
use crate::ovs::OvsEvent;
use crate::text::same_text;
use crate::addr_text::{
    ipv4_from_str, ipv4_of, ipv4_text, ipv4_to_string, ipv6_from_str, ipv6_of, ipv6_text, ipv6_to_string,
    lemma_dec_round_trip, lemma_ipv4_round_trip, lemma_ipv6_round_trip, lemma_mac_round_trip, mac_from_str, mac_of,
    mac_text, mac_to_string,
};
use crate::skb::{IpAddress, SkbEvent};
use crate::tracking::SkbTrackingEvent;

verus! {

/// A field value.
#[derive(Debug)]
pub enum JsonValue {
    Null,
    Number(u64),
    Text(String),
    Numbers(Vec<u64>),
    Texts(Vec<String>),
}

/// What a field value holds.
pub enum JsonSpec {
    Null,
    Number(u64),
    Text(Seq<char>),
    Numbers(Seq<u64>),
    Texts(Seq<Seq<char>>),
}

pub open spec fn value_view(v: JsonValue) -> JsonSpec {
    match v {
        JsonValue::Null => JsonSpec::Null,
        JsonValue::Number(n) => JsonSpec::Number(n),
        JsonValue::Text(s) => JsonSpec::Text(s@),
        JsonValue::Numbers(v) => JsonSpec::Numbers(v@),
        JsonValue::Texts(v) => JsonSpec::Texts(texts(v@)),
    }
}

/// A flat object: named values in order.
#[derive(Debug)]
pub struct JsonObject {
    pub fields: Vec<(String, JsonValue)>,
}

impl JsonObject {
    pub open spec fn view(&self) -> Seq<(Seq<char>, JsonSpec)> {
        self.fields@.map_values(|f: (String, JsonValue)| (f.0@, value_view(f.1)))
    }
}

/// The value of the first field named `k`.
pub open spec fn lookup(fields: Seq<(Seq<char>, JsonSpec)>, k: Seq<char>) -> Option<JsonSpec>
    decreases fields.len(),
{
    if fields.len() == 0 {
        None
    } else if fields[0].0 == k {
        Some(fields[0].1)
    } else {
        lookup(fields.drop_first(), k)
    }
}

/// The value of the first field named `k`.
pub fn get_field<'a>(obj: &'a JsonObject, k: &str) -> (r: Option<&'a JsonValue>)
    ensures
        match lookup(obj.view(), k@) {
            Some(v) => r matches Some(x) && value_view(*x) == v,
            None => r is None,
        },
{
    let ghost all = obj.view();
    assert(all.subrange(0, all.len() as int) =~= all);
    let mut i: usize = 0;
    while i < obj.fields.len()
        invariant
            all == obj.view(),
            i <= all.len(),
            lookup(all, k@) == lookup(all.subrange(i as int, all.len() as int), k@),
        decreases obj.fields.len() - i,
    {
        assert(all.subrange(i as int, all.len() as int).drop_first() =~= all.subrange(i + 1, all.len() as int));
        if same_text(obj.fields[i].0.as_str(), k) {
            return Some(&obj.fields[i].1);
        }
        i += 1;
    }
    None
}

/// The persisted form of a tracking section.
pub open spec fn tracking_fields(e: SkbTrackingEvent) -> Seq<(Seq<char>, JsonSpec)> {
    seq![
        ("orig_head"@, JsonSpec::Number(e.orig_head)),
        ("timestamp"@, JsonSpec::Number(e.timestamp)),
        ("skb"@, JsonSpec::Number(e.skb)),
        ("drop_reason"@, match e.drop_reason {
            Some(d) => JsonSpec::Number(d as u64),
            None => JsonSpec::Null,
        }),
    ]
}

/// The tracking section a persisted object holds.
pub open spec fn tracking_of(f: Seq<(Seq<char>, JsonSpec)>) -> Option<SkbTrackingEvent> {
    match (lookup(f, "orig_head"@), lookup(f, "timestamp"@), lookup(f, "skb"@)) {
        (Some(JsonSpec::Number(h)), Some(JsonSpec::Number(t)), Some(JsonSpec::Number(s))) => {
            match lookup(f, "drop_reason"@) {
                None | Some(JsonSpec::Null) => Some(
                    SkbTrackingEvent { orig_head: h, timestamp: t, skb: s, drop_reason: None },
                ),
                Some(JsonSpec::Number(d)) => if d <= u32::MAX {
                    Some(SkbTrackingEvent { orig_head: h, timestamp: t, skb: s, drop_reason: Some(d as u32) })
                } else {
                    None
                },
                _ => None,
            }
        },
        _ => None,
    }
}

fn field(k: &str, v: JsonValue) -> (r: (String, JsonValue))
    ensures
        r.0@ == k@,
        r.1 == v,
{
    (String::from_str(k), v)
}

pub fn tracking_to_json(e: &SkbTrackingEvent) -> (r: JsonObject)
    ensures
        r.view() == tracking_fields(*e),
{
    let mut fields: Vec<(String, JsonValue)> = Vec::new();
    fields.push(field("orig_head", JsonValue::Number(e.orig_head)));
    fields.push(field("timestamp", JsonValue::Number(e.timestamp)));
    fields.push(field("skb", JsonValue::Number(e.skb)));
    let reason = match e.drop_reason {
        Some(d) => JsonValue::Number(d as u64),
        None => JsonValue::Null,
    };
    fields.push(field("drop_reason", reason));
    let r = JsonObject { fields };
    assert(r.view() =~= tracking_fields(*e));
    r
}

pub fn tracking_from_json(obj: &JsonObject) -> (r: Result<SkbTrackingEvent, RetisError>)
    ensures
        match tracking_of(obj.view()) {
            Some(e) => r == Ok::<SkbTrackingEvent, RetisError>(e),
            None => r == Err::<SkbTrackingEvent, RetisError>(RetisError::InvalidValue),
        },
{
    let h = match get_field(obj, "orig_head") {
        Some(JsonValue::Number(n)) => *n,
        _ => return Err(RetisError::InvalidValue),
    };
    let t = match get_field(obj, "timestamp") {
        Some(JsonValue::Number(n)) => *n,
        _ => return Err(RetisError::InvalidValue),
    };
    let s = match get_field(obj, "skb") {
        Some(JsonValue::Number(n)) => *n,
        _ => return Err(RetisError::InvalidValue),
    };
    let drop_reason = match get_field(obj, "drop_reason") {
        None | Some(JsonValue::Null) => None,
        Some(JsonValue::Number(d)) => {
            if *d > u32::MAX as u64 {
                return Err(RetisError::InvalidValue);
            }
            Some(*d as u32)
        },
        _ => return Err(RetisError::InvalidValue),
    };
    Ok(SkbTrackingEvent { orig_head: h, timestamp: t, skb: s, drop_reason })
}

/// Reading back the persisted form of a tracking section gives the section.
pub proof fn lemma_tracking_round_trip(e: SkbTrackingEvent)
    ensures
        tracking_of(tracking_fields(e)) == Some(e),
{
    reveal_strlit("orig_head");
    reveal_strlit("timestamp");
    reveal_strlit("skb");
    reveal_strlit("drop_reason");
    reveal_with_fuel(lookup, 5);
    let f = tracking_fields(e);
    assert("orig_head"@.len() == 9 && "timestamp"@.len() == 9 && "skb"@.len() == 3 && "drop_reason"@.len() == 11);
    assert("orig_head"@[0] == 'o' && "timestamp"@[0] == 't');
    assert("orig_head"@ != "timestamp"@);
    assert(f.drop_first() =~= seq![f[1], f[2], f[3]]);
    assert(f.drop_first().drop_first() =~= seq![f[2], f[3]]);
    assert(f.drop_first().drop_first().drop_first() =~= seq![f[3]]);
}

/// What a flow-info section holds.
pub struct FlowInfoView {
    pub ufid: Ufid,
    pub flow: u64,
    pub sf_acts: u64,
    pub dpflow: Seq<char>,
    pub ofpflows: Seq<Seq<char>>,
}

pub open spec fn flow_info_view(e: OvsFlowInfoEvent) -> FlowInfoView {
    FlowInfoView { ufid: e.ufid, flow: e.flow, sf_acts: e.sf_acts, dpflow: e.dpflow@, ofpflows: texts(e.ofpflows@) }
}

/// The persisted form of a flow-info section.
pub open spec fn flow_info_fields(e: FlowInfoView) -> Seq<(Seq<char>, JsonSpec)> {
    seq![
        ("ufid"@, JsonSpec::Numbers(seq![e.ufid.0 as u64, e.ufid.1 as u64, e.ufid.2 as u64, e.ufid.3 as u64])),
        ("flow"@, JsonSpec::Number(e.flow)),
        ("sf_acts"@, JsonSpec::Number(e.sf_acts)),
        ("dpflow"@, JsonSpec::Text(e.dpflow)),
        ("ofpflows"@, JsonSpec::Texts(e.ofpflows)),
    ]
}

/// The flow-info section a persisted object holds.
pub open spec fn flow_info_of(f: Seq<(Seq<char>, JsonSpec)>) -> Option<FlowInfoView> {
    match (lookup(f, "ufid"@), lookup(f, "flow"@), lookup(f, "sf_acts"@), lookup(f, "dpflow"@), lookup(f, "ofpflows"@)) {
        (
            Some(JsonSpec::Numbers(u)),
            Some(JsonSpec::Number(fl)),
            Some(JsonSpec::Number(a)),
            Some(JsonSpec::Text(d)),
            Some(JsonSpec::Texts(o)),
        ) => if u.len() == 4 && u[0] <= u32::MAX && u[1] <= u32::MAX && u[2] <= u32::MAX && u[3] <= u32::MAX {
            Some(
                FlowInfoView {
                    ufid: Ufid(u[0] as u32, u[1] as u32, u[2] as u32, u[3] as u32),
                    flow: fl,
                    sf_acts: a,
                    dpflow: d,
                    ofpflows: o,
                },
            )
        } else {
            None
        },
        _ => None,
    }
}

pub fn flow_info_to_json(e: &OvsFlowInfoEvent) -> (r: JsonObject)
    ensures
        r.view() == flow_info_fields(flow_info_view(*e)),
{
    let mut u: Vec<u64> = Vec::new();
    u.push(e.ufid.0 as u64);
    u.push(e.ufid.1 as u64);
    u.push(e.ufid.2 as u64);
    u.push(e.ufid.3 as u64);
    assert(u@ =~= seq![e.ufid.0 as u64, e.ufid.1 as u64, e.ufid.2 as u64, e.ufid.3 as u64]);
    let mut fields: Vec<(String, JsonValue)> = Vec::new();
    fields.push(field("ufid", JsonValue::Numbers(u)));
    fields.push(field("flow", JsonValue::Number(e.flow)));
    fields.push(field("sf_acts", JsonValue::Number(e.sf_acts)));
    fields.push(field("dpflow", JsonValue::Text(e.dpflow.clone())));
    fields.push(field("ofpflows", JsonValue::Texts(clone_strings(&e.ofpflows))));
    let r = JsonObject { fields };
    assert(r.view() =~= flow_info_fields(flow_info_view(*e)));
    r
}

pub fn flow_info_from_json(obj: &JsonObject) -> (r: Result<OvsFlowInfoEvent, RetisError>)
    ensures
        match flow_info_of(obj.view()) {
            Some(v) => r matches Ok(e) && flow_info_view(e) == v,
            None => r == Err::<OvsFlowInfoEvent, RetisError>(RetisError::InvalidValue),
        },
{
    let u = match get_field(obj, "ufid") {
        Some(JsonValue::Numbers(u)) => u,
        _ => return Err(RetisError::InvalidValue),
    };
    let flow = match get_field(obj, "flow") {
        Some(JsonValue::Number(n)) => *n,
        _ => return Err(RetisError::InvalidValue),
    };
    let sf_acts = match get_field(obj, "sf_acts") {
        Some(JsonValue::Number(n)) => *n,
        _ => return Err(RetisError::InvalidValue),
    };
    let dpflow = match get_field(obj, "dpflow") {
        Some(JsonValue::Text(d)) => d.clone(),
        _ => return Err(RetisError::InvalidValue),
    };
    let ofpflows = match get_field(obj, "ofpflows") {
        Some(JsonValue::Texts(o)) => clone_strings(o),
        _ => return Err(RetisError::InvalidValue),
    };
    if u.len() != 4 || u[0] > u32::MAX as u64 || u[1] > u32::MAX as u64 || u[2] > u32::MAX as u64 || u[3]
        > u32::MAX as u64 {
        return Err(RetisError::InvalidValue);
    }
    let ufid = Ufid(u[0] as u32, u[1] as u32, u[2] as u32, u[3] as u32);
    Ok(OvsFlowInfoEvent { ufid, flow, sf_acts, dpflow, ofpflows })
}

/// Reading back the persisted form of a flow-info section gives the section.
pub proof fn lemma_flow_info_round_trip(e: FlowInfoView)
    ensures
        flow_info_of(flow_info_fields(e)) == Some(e),
{
    reveal_strlit("ufid");
    reveal_strlit("flow");
    reveal_strlit("sf_acts");
    reveal_strlit("dpflow");
    reveal_strlit("ofpflows");
    reveal_with_fuel(lookup, 6);
    let f = flow_info_fields(e);
    assert("ufid"@.len() == 4 && "flow"@.len() == 4 && "sf_acts"@.len() == 7 && "dpflow"@.len() == 6
        && "ofpflows"@.len() == 8);
    assert("ufid"@[0] == 'u' && "flow"@[0] == 'f');
    assert("ufid"@ != "flow"@);
    assert(f.drop_first() =~= seq![f[1], f[2], f[3], f[4]]);
    assert(f.drop_first().drop_first() =~= seq![f[2], f[3], f[4]]);
    assert(f.drop_first().drop_first().drop_first() =~= seq![f[3], f[4]]);
    assert(f.drop_first().drop_first().drop_first().drop_first() =~= seq![f[4]]);
    let u = seq![e.ufid.0 as u64, e.ufid.1 as u64, e.ufid.2 as u64, e.ufid.3 as u64];
    assert(Ufid(u[0] as u32, u[1] as u32, u[2] as u32, u[3] as u32) == e.ufid);
}

/// What a drop section holds.
pub struct DropView {
    pub subsys: Option<Seq<char>>,
    pub drop_reason: Seq<char>,
}

pub open spec fn drop_view(e: SkbDropEvent) -> DropView {
    DropView {
        subsys: match e.subsys {
            Some(s) => Some(s@),
            None => None,
        },
        drop_reason: e.drop_reason@,
    }
}

/// The persisted form of a drop section.
pub open spec fn drop_fields(e: DropView) -> Seq<(Seq<char>, JsonSpec)> {
    seq![
        ("subsys"@, match e.subsys {
            Some(s) => JsonSpec::Text(s),
            None => JsonSpec::Null,
        }),
        ("drop_reason"@, JsonSpec::Text(e.drop_reason)),
    ]
}

/// The drop section a persisted object holds.
pub open spec fn drop_of(f: Seq<(Seq<char>, JsonSpec)>) -> Option<DropView> {
    match lookup(f, "drop_reason"@) {
        Some(JsonSpec::Text(r)) => match lookup(f, "subsys"@) {
            None | Some(JsonSpec::Null) => Some(DropView { subsys: None, drop_reason: r }),
            Some(JsonSpec::Text(s)) => Some(DropView { subsys: Some(s), drop_reason: r }),
            _ => None,
        },
        _ => None,
    }
}

pub fn drop_to_json(e: &SkbDropEvent) -> (r: JsonObject)
    ensures
        r.view() == drop_fields(drop_view(*e)),
{
    let subsys = match &e.subsys {
        Some(s) => JsonValue::Text(s.clone()),
        None => JsonValue::Null,
    };
    let mut fields: Vec<(String, JsonValue)> = Vec::new();
    fields.push(field("subsys", subsys));
    fields.push(field("drop_reason", JsonValue::Text(e.drop_reason.clone())));
    let r = JsonObject { fields };
    assert(r.view() =~= drop_fields(drop_view(*e)));
    r
}

pub fn drop_from_json(obj: &JsonObject) -> (r: Result<SkbDropEvent, RetisError>)
    ensures
        match drop_of(obj.view()) {
            Some(v) => r matches Ok(e) && drop_view(e) == v,
            None => r == Err::<SkbDropEvent, RetisError>(RetisError::InvalidValue),
        },
{
    let drop_reason = match get_field(obj, "drop_reason") {
        Some(JsonValue::Text(r)) => r.clone(),
        _ => return Err(RetisError::InvalidValue),
    };
    let subsys = match get_field(obj, "subsys") {
        None | Some(JsonValue::Null) => None,
        Some(JsonValue::Text(s)) => Some(s.clone()),
        _ => return Err(RetisError::InvalidValue),
    };
    Ok(SkbDropEvent { subsys, drop_reason })
}

/// Reading back the persisted form of a drop section gives the section.
pub proof fn lemma_drop_round_trip(e: DropView)
    ensures
        drop_of(drop_fields(e)) == Some(e),
{
    reveal_strlit("subsys");
    reveal_strlit("drop_reason");
    reveal_with_fuel(lookup, 3);
    let f = drop_fields(e);
    assert("subsys"@.len() == 6 && "drop_reason"@.len() == 11);
    assert(f.drop_first() =~= seq![f[1]]);
}

/// The persisted form of an ovs section.
pub open spec fn ovs_fields(e: OvsEvent) -> Seq<(Seq<char>, JsonSpec)> {
    match e {
        OvsEvent::Upcall { cmd, upcall_port } => seq![
            ("event_type"@, JsonSpec::Text("upcall"@)),
            ("cmd"@, JsonSpec::Number(cmd as u64)),
            ("upcall_port"@, JsonSpec::Number(upcall_port as u64)),
        ],
        OvsEvent::RecvUpcall { upcall_type, pkt_size, key_size } => seq![
            ("event_type"@, JsonSpec::Text("recv_upcall"@)),
            ("upcall_type"@, JsonSpec::Number(upcall_type as u64)),
            ("pkt_size"@, JsonSpec::Number(pkt_size as u64)),
            ("key_size"@, JsonSpec::Number(key_size)),
        ],
        OvsEvent::OpFlowPut => seq![("event_type"@, JsonSpec::Text("op_flow_put"@))],
        OvsEvent::OpFlowExec => seq![("event_type"@, JsonSpec::Text("op_flow_exec"@))],
    }
}

/// A number that fits `max`.
pub open spec fn number_upto(v: Option<JsonSpec>, max: u64) -> Option<u64> {
    match v {
        Some(JsonSpec::Number(n)) => if n <= max {
            Some(n)
        } else {
            None
        },
        _ => None,
    }
}

/// The ovs section a persisted object holds.
pub open spec fn ovs_of(f: Seq<(Seq<char>, JsonSpec)>) -> Option<OvsEvent> {
    match lookup(f, "event_type"@) {
        Some(JsonSpec::Text(t)) => if t == "upcall"@ {
            match (number_upto(lookup(f, "cmd"@), 255), number_upto(lookup(f, "upcall_port"@), 0xffff_ffff)) {
                (Some(c), Some(p)) => Some(OvsEvent::Upcall { cmd: c as u8, upcall_port: p as u32 }),
                _ => None,
            }
        } else if t == "recv_upcall"@ {
            match (
                number_upto(lookup(f, "upcall_type"@), 0xffff_ffff),
                number_upto(lookup(f, "pkt_size"@), 0xffff_ffff),
                number_upto(lookup(f, "key_size"@), 0xffff_ffff_ffff_ffff),
            ) {
                (Some(a), Some(b), Some(k)) => Some(
                    OvsEvent::RecvUpcall { upcall_type: a as u32, pkt_size: b as u32, key_size: k },
                ),
                _ => None,
            }
        } else if t == "op_flow_put"@ {
            Some(OvsEvent::OpFlowPut)
        } else if t == "op_flow_exec"@ {
            Some(OvsEvent::OpFlowExec)
        } else {
            None
        },
        _ => None,
    }
}

pub fn ovs_to_json(e: &OvsEvent) -> (r: JsonObject)
    ensures
        r.view() == ovs_fields(*e),
{
    let mut fields: Vec<(String, JsonValue)> = Vec::new();
    match e {
        OvsEvent::Upcall { cmd, upcall_port } => {
            fields.push(field("event_type", JsonValue::Text(String::from_str("upcall"))));
            fields.push(field("cmd", JsonValue::Number(*cmd as u64)));
            fields.push(field("upcall_port", JsonValue::Number(*upcall_port as u64)));
        },
        OvsEvent::RecvUpcall { upcall_type, pkt_size, key_size } => {
            fields.push(field("event_type", JsonValue::Text(String::from_str("recv_upcall"))));
            fields.push(field("upcall_type", JsonValue::Number(*upcall_type as u64)));
            fields.push(field("pkt_size", JsonValue::Number(*pkt_size as u64)));
            fields.push(field("key_size", JsonValue::Number(*key_size)));
        },
        OvsEvent::OpFlowPut => {
            fields.push(field("event_type", JsonValue::Text(String::from_str("op_flow_put"))));
        },
        OvsEvent::OpFlowExec => {
            fields.push(field("event_type", JsonValue::Text(String::from_str("op_flow_exec"))));
        },
    }
    let r = JsonObject { fields };
    assert(r.view() =~= ovs_fields(*e));
    r
}

fn number_field(obj: &JsonObject, k: &str, max: u64) -> (r: Option<u64>)
    ensures
        r == number_upto(lookup(obj.view(), k@), max),
{
    match get_field(obj, k) {
        Some(JsonValue::Number(n)) => if *n <= max {
            Some(*n)
        } else {
            None
        },
        _ => None,
    }
}

pub fn ovs_from_json(obj: &JsonObject) -> (r: Result<OvsEvent, RetisError>)
    ensures
        match ovs_of(obj.view()) {
            Some(e) => r == Ok::<OvsEvent, RetisError>(e),
            None => r == Err::<OvsEvent, RetisError>(RetisError::InvalidValue),
        },
{
    let t = match get_field(obj, "event_type") {
        Some(JsonValue::Text(t)) => t,
        _ => return Err(RetisError::InvalidValue),
    };
    if same_text(t.as_str(), "upcall") {
        match (number_field(obj, "cmd", 255), number_field(obj, "upcall_port", 0xffff_ffff)) {
            (Some(c), Some(p)) => Ok(OvsEvent::Upcall { cmd: c as u8, upcall_port: p as u32 }),
            _ => Err(RetisError::InvalidValue),
        }
    } else if same_text(t.as_str(), "recv_upcall") {
        match (
            number_field(obj, "upcall_type", 0xffff_ffff),
            number_field(obj, "pkt_size", 0xffff_ffff),
            number_field(obj, "key_size", 0xffff_ffff_ffff_ffff),
        ) {
            (Some(a), Some(b), Some(k)) => Ok(
                OvsEvent::RecvUpcall { upcall_type: a as u32, pkt_size: b as u32, key_size: k },
            ),
            _ => Err(RetisError::InvalidValue),
        }
    } else if same_text(t.as_str(), "op_flow_put") {
        Ok(OvsEvent::OpFlowPut)
    } else if same_text(t.as_str(), "op_flow_exec") {
        Ok(OvsEvent::OpFlowExec)
    } else {
        Err(RetisError::InvalidValue)
    }
}

/// Reading back the persisted form of an ovs section gives the section.
pub proof fn lemma_ovs_round_trip(e: OvsEvent)
    ensures
        ovs_of(ovs_fields(e)) == Some(e),
{
    reveal_strlit("event_type");
    reveal_strlit("upcall");
    reveal_strlit("recv_upcall");
    reveal_strlit("op_flow_put");
    reveal_strlit("op_flow_exec");
    reveal_strlit("cmd");
    reveal_strlit("upcall_port");
    reveal_strlit("upcall_type");
    reveal_strlit("pkt_size");
    reveal_strlit("key_size");
    reveal_with_fuel(lookup, 5);
    let f = ovs_fields(e);
    assert("event_type"@.len() == 10 && "upcall"@.len() == 6 && "recv_upcall"@.len() == 11
        && "op_flow_put"@.len() == 11 && "op_flow_exec"@.len() == 12 && "cmd"@.len() == 3
        && "upcall_port"@.len() == 11 && "upcall_type"@.len() == 11 && "pkt_size"@.len() == 8
        && "key_size"@.len() == 8);
    assert("recv_upcall"@[0] == 'r' && "op_flow_put"@[0] == 'o');
    assert("recv_upcall"@ != "op_flow_put"@);
    assert("event_type"@[0] == 'e' && "upcall_port"@[0] == 'u' && "upcall_type"@[0] == 'u');
    assert("event_type"@ != "upcall_port"@ && "event_type"@ != "upcall_type"@);
    assert("pkt_size"@[0] == 'p' && "key_size"@[0] == 'k');
    assert("pkt_size"@ != "key_size"@);
    match e {
        OvsEvent::Upcall { cmd, upcall_port } => {
            assert(f.drop_first() =~= seq![f[1], f[2]]);
            assert(f.drop_first().drop_first() =~= seq![f[2]]);
        },
        OvsEvent::RecvUpcall { .. } => {
            assert(f.drop_first() =~= seq![f[1], f[2], f[3]]);
            assert(f.drop_first().drop_first() =~= seq![f[2], f[3]]);
            assert(f.drop_first().drop_first().drop_first() =~= seq![f[3]]);
        },
        _ => {},
    }
}

/// Whether `s` is what the owner `id` reads from the persisted object `f`.
pub open spec fn section_reads(id: SectionId, f: Seq<(Seq<char>, JsonSpec)>, s: Section) -> bool {
    match s {
        Section::SkbTracking(x) => id == SectionId::SkbTracking && tracking_of(f) == Some(x),
        Section::SkbDrop(x) => id == SectionId::SkbDrop && drop_of(f) == Some(drop_view(x)),
        Section::Ovs(x) => id == SectionId::Ovs && ovs_of(f) == Some(x),
        Section::OvsFlowInfo(x) => id == SectionId::OvsFlowInfo && flow_info_of(f) == Some(flow_info_view(x)),
        Section::Skb(x) => id == SectionId::Skb && skb_of(f) == Some(skb_view(x)),
    }
}

/// Whether the owner `id` can read the persisted object `f`.
pub open spec fn json_readable(id: SectionId, f: Seq<(Seq<char>, JsonSpec)>) -> bool {
    match id {
        SectionId::SkbTracking => tracking_of(f) is Some,
        SectionId::SkbDrop => drop_of(f) is Some,
        SectionId::Ovs => ovs_of(f) is Some,
        SectionId::OvsFlowInfo => flow_info_of(f) is Some,
        SectionId::Skb => skb_of(f) is Some,
        _ => false,
    }
}

/// The owner a key names.
pub open spec fn owner_named(key: Seq<char>) -> SectionId {
    choose|id: SectionId| #[trigger] id.name() == key
}

/// The section a persisted object holds for the owner `id`.
pub fn section_from_json(id: SectionId, obj: &JsonObject) -> (r: Result<Section, RetisError>)
    ensures
        id == SectionId::SkbTracking ==> (match tracking_of(obj.view()) {
            Some(e) => r matches Ok(Section::SkbTracking(x)) && x == e,
            None => r is Err,
        }),
        id == SectionId::SkbDrop ==> (match drop_of(obj.view()) {
            Some(v) => r matches Ok(Section::SkbDrop(x)) && drop_view(x) == v,
            None => r is Err,
        }),
        id == SectionId::Ovs ==> (match ovs_of(obj.view()) {
            Some(e) => r matches Ok(Section::Ovs(x)) && x == e,
            None => r is Err,
        }),
        id == SectionId::OvsFlowInfo ==> (match flow_info_of(obj.view()) {
            Some(v) => r matches Ok(Section::OvsFlowInfo(x)) && flow_info_view(x) == v,
            None => r is Err,
        }),
        !json_readable(id, obj.view()) ==> r is Err,
        json_readable(id, obj.view()) ==> (r matches Ok(s) && section_reads(id, obj.view(), s)),
{
    match id {
        SectionId::SkbTracking => Ok(Section::SkbTracking(tracking_from_json(obj)?)),
        SectionId::SkbDrop => Ok(Section::SkbDrop(drop_from_json(obj)?)),
        SectionId::Ovs => Ok(Section::Ovs(ovs_from_json(obj)?)),
        SectionId::OvsFlowInfo => Ok(Section::OvsFlowInfo(flow_info_from_json(obj)?)),
        SectionId::Skb => Ok(Section::Skb(skb_from_json(obj)?)),
        _ => Err(RetisError::NotDecodable),
    }
}

proof fn lemma_name_injective(a: SectionId, b: SectionId)
    requires
        a.name() == b.name(),
    ensures
        a == b,
{
    reveal_strlit("common");
    reveal_strlit("kernel");
    reveal_strlit("userspace");
    reveal_strlit("tracking");
    reveal_strlit("skb-tracking");
    reveal_strlit("skb-drop");
    reveal_strlit("skb");
    reveal_strlit("ovs");
    reveal_strlit("nft");
    reveal_strlit("ct");
    reveal_strlit("ovs-flow-info");
    assert(SectionId::Common.name().len() == 6 && SectionId::Common.name()[0] == 'c');
    assert(SectionId::Kernel.name().len() == 6 && SectionId::Kernel.name()[0] == 'k');
    assert(SectionId::Userspace.name().len() == 9);
    assert(SectionId::Tracking.name().len() == 8 && SectionId::Tracking.name()[0] == 't');
    assert(SectionId::SkbTracking.name().len() == 12);
    assert(SectionId::SkbDrop.name().len() == 8 && SectionId::SkbDrop.name()[0] == 's');
    assert(SectionId::Skb.name().len() == 3 && SectionId::Skb.name()[0] == 's');
    assert(SectionId::Ovs.name().len() == 3 && SectionId::Ovs.name()[0] == 'o');
    assert(SectionId::Nft.name().len() == 3 && SectionId::Nft.name()[0] == 'n');
    assert(SectionId::Ct.name().len() == 2);
    assert(SectionId::OvsFlowInfo.name().len() == 13);
}

/// Whether the entries hold the section read from the persisted pair `o`.
pub open spec fn read_in(entries: Seq<(SectionId, Section)>, o: (String, JsonObject)) -> bool {
    exists|j: int| 0 <= j < entries.len() && (#[trigger] entries[j]).0.name() == o.0@ && section_reads(
        entries[j].0,
        o.1.view(),
        entries[j].1,
    )
}

/// Whether a key names a section owner.
pub open spec fn names_owner(key: Seq<char>) -> bool {
    exists|id: SectionId| #[trigger] id.name() == key
}

/// Builds an event from a persisted object: each key names a section owner,
/// each value is read by that owner; an unknown owner, an unreadable value or
/// a repeated owner fails the event.
pub fn event_from_json(objects: Vec<(String, JsonObject)>) -> (r: Result<Event, RetisError>)
    ensures
        r matches Ok(e) ==> e.wf() && e.ids().len() == objects@.len(),
        r matches Ok(e) ==> forall|k: int| 0 <= k < objects@.len() ==> read_in(e.entries(), #[trigger] objects@[k]),
        (forall|k: int| 0 <= k < objects@.len() ==> names_owner((#[trigger] objects@[k]).0@) && json_readable(
            owner_named(objects@[k].0@),
            objects@[k].1.view(),
        )) && (forall|a: int, b: int| 0 <= a < b < objects@.len() ==> objects@[a].0@ != objects@[b].0@)
            ==> r is Ok,
        (exists|i: int| 0 <= i < objects@.len() && !names_owner((#[trigger] objects@[i]).0@)) ==> r is Err,
{
    let mut event = Event::new();
    let mut i: usize = 0;
    while i < objects.len()
        invariant
            i <= objects@.len(),
            event.wf(),
            event.ids().len() == i,
            forall|k: int| 0 <= k < i ==> names_owner((#[trigger] objects@[k]).0@),
            forall|k: int| 0 <= k < i ==> read_in(event.entries(), #[trigger] objects@[k]),
            forall|x: SectionId| #[trigger] event.ids().contains(x) ==> exists|k: int| 0 <= k < i
                && x.name() == objects@[k].0@,
        decreases objects.len() - i,
    {
        let id = SectionId::from_str(objects[i].0.as_str())?;
        proof {
            lemma_name_injective(id, owner_named(objects@[i as int].0@));
        }
        let section = section_from_json(id, &objects[i].1)?;
        let ghost sec = section;
        let ghost before = event.entries();
        let ghost before_ids = event.ids();
        event.insert_section(id, section)?;
        proof {
            let p = choose|p: int| 0 <= p <= before.len() && event.entries() == before.insert(p, (id, sec));
            assert forall|k: int| 0 <= k < i + 1 implies read_in(event.entries(), #[trigger] objects@[k]) by {
                if k == i {
                    assert(event.entries()[p] == (id, sec));
                } else {
                    assert(read_in(before, objects@[k]));
                    let j = choose|j: int| 0 <= j < before.len() && (#[trigger] before[j]).0.name() == objects@[k].0@
                        && section_reads(before[j].0, objects@[k].1.view(), before[j].1);
                    if j < p {
                        assert(event.entries()[j] == before[j]);
                    } else {
                        assert(event.entries()[j + 1] == before[j]);
                    }
                }
            }
            assert forall|x: SectionId| #[trigger] event.ids().contains(x) implies exists|k: int| 0 <= k < i + 1
                && x.name() == objects@[k].0@ by {
                if x != id {
                    assert(before_ids.contains(x));
                }
            }
        }
        assert(names_owner(objects@[i as int].0@));
        i += 1;
    }
    Ok(event)
}

/// What an IP address holds.
pub enum IpView {
    V4(Seq<u8>),
    V6(Seq<u8>),
}

pub open spec fn ip_view(a: IpAddress) -> IpView {
    match a {
        IpAddress::V4(b) => IpView::V4(b@),
        IpAddress::V6(b) => IpView::V6(b@),
    }
}

/// The text of an IP address.
pub open spec fn ip_text(a: IpView) -> Seq<char> {
    match a {
        IpView::V4(b) => ipv4_text(b),
        IpView::V6(b) => ipv6_text(b),
    }
}

/// The IP address a text holds: eight hex groups, or dotted decimal.
pub open spec fn ip_of(t: Seq<char>) -> Option<IpView> {
    if t.len() == 39 {
        match ipv6_of(t) {
            Some(b) => Some(IpView::V6(b)),
            None => None,
        }
    } else {
        match ipv4_of(t) {
            Some(b) => Some(IpView::V4(b)),
            None => None,
        }
    }
}

/// What an skb section holds.
pub struct SkbView {
    pub etype: Option<u16>,
    pub src: Option<Seq<u8>>,
    pub dst: Option<Seq<u8>>,
    pub saddr: Option<IpView>,
    pub daddr: Option<IpView>,
    pub ip_version: Option<u8>,
    pub l3_len: Option<u16>,
    pub protocol: Option<u8>,
    pub sport: Option<u16>,
    pub dport: Option<u16>,
    pub tcp_seq: Option<u32>,
    pub tcp_ack_seq: Option<u32>,
    pub tcp_window: Option<u16>,
    pub tcp_flags: Option<u8>,
    pub tcp_doff: Option<u8>,
    pub udp_len: Option<u16>,
    pub icmp_type: Option<u8>,
    pub icmp_code: Option<u8>,
}

pub open spec fn skb_view(e: SkbEvent) -> SkbView {
    SkbView {
        etype: e.etype,
        src: match e.src { Some(a) => Some(a@), None => None },
        dst: match e.dst { Some(a) => Some(a@), None => None },
        saddr: match e.saddr { Some(a) => Some(ip_view(a)), None => None },
        daddr: match e.daddr { Some(a) => Some(ip_view(a)), None => None },
        ip_version: e.ip_version,
        l3_len: e.l3_len,
        protocol: e.protocol,
        sport: e.sport,
        dport: e.dport,
        tcp_seq: e.tcp_seq,
        tcp_ack_seq: e.tcp_ack_seq,
        tcp_window: e.tcp_window,
        tcp_flags: e.tcp_flags,
        tcp_doff: e.tcp_doff,
        udp_len: e.udp_len,
        icmp_type: e.icmp_type,
        icmp_code: e.icmp_code,
    }
}

pub open spec fn skb_etype_field(v: SkbView) -> (Seq<char>, JsonSpec) {
    ("etype"@, match v.etype { Some(n) => JsonSpec::Number(n as u64), None => JsonSpec::Null })
}

pub open spec fn skb_src_field(v: SkbView) -> (Seq<char>, JsonSpec) {
    ("src"@, match v.src { Some(b) => JsonSpec::Text(mac_text(b)), None => JsonSpec::Null })
}

pub open spec fn skb_dst_field(v: SkbView) -> (Seq<char>, JsonSpec) {
    ("dst"@, match v.dst { Some(b) => JsonSpec::Text(mac_text(b)), None => JsonSpec::Null })
}

pub open spec fn skb_saddr_field(v: SkbView) -> (Seq<char>, JsonSpec) {
    ("saddr"@, match v.saddr { Some(a) => JsonSpec::Text(ip_text(a)), None => JsonSpec::Null })
}

pub open spec fn skb_daddr_field(v: SkbView) -> (Seq<char>, JsonSpec) {
    ("daddr"@, match v.daddr { Some(a) => JsonSpec::Text(ip_text(a)), None => JsonSpec::Null })
}

pub open spec fn skb_ip_version_field(v: SkbView) -> (Seq<char>, JsonSpec) {
    ("ip_version"@, match v.ip_version { Some(n) => JsonSpec::Number(n as u64), None => JsonSpec::Null })
}

pub open spec fn skb_l3_len_field(v: SkbView) -> (Seq<char>, JsonSpec) {
    ("l3_len"@, match v.l3_len { Some(n) => JsonSpec::Number(n as u64), None => JsonSpec::Null })
}

pub open spec fn skb_protocol_field(v: SkbView) -> (Seq<char>, JsonSpec) {
    ("protocol"@, match v.protocol { Some(n) => JsonSpec::Number(n as u64), None => JsonSpec::Null })
}

pub open spec fn skb_sport_field(v: SkbView) -> (Seq<char>, JsonSpec) {
    ("sport"@, match v.sport { Some(n) => JsonSpec::Number(n as u64), None => JsonSpec::Null })
}

pub open spec fn skb_dport_field(v: SkbView) -> (Seq<char>, JsonSpec) {
    ("dport"@, match v.dport { Some(n) => JsonSpec::Number(n as u64), None => JsonSpec::Null })
}

pub open spec fn skb_tcp_seq_field(v: SkbView) -> (Seq<char>, JsonSpec) {
    ("tcp_seq"@, match v.tcp_seq { Some(n) => JsonSpec::Number(n as u64), None => JsonSpec::Null })
}

pub open spec fn skb_tcp_ack_seq_field(v: SkbView) -> (Seq<char>, JsonSpec) {
    ("tcp_ack_seq"@, match v.tcp_ack_seq { Some(n) => JsonSpec::Number(n as u64), None => JsonSpec::Null })
}

pub open spec fn skb_tcp_window_field(v: SkbView) -> (Seq<char>, JsonSpec) {
    ("tcp_window"@, match v.tcp_window { Some(n) => JsonSpec::Number(n as u64), None => JsonSpec::Null })
}

pub open spec fn skb_tcp_flags_field(v: SkbView) -> (Seq<char>, JsonSpec) {
    ("tcp_flags"@, match v.tcp_flags { Some(n) => JsonSpec::Number(n as u64), None => JsonSpec::Null })
}

pub open spec fn skb_tcp_doff_field(v: SkbView) -> (Seq<char>, JsonSpec) {
    ("tcp_doff"@, match v.tcp_doff { Some(n) => JsonSpec::Number(n as u64), None => JsonSpec::Null })
}

pub open spec fn skb_udp_len_field(v: SkbView) -> (Seq<char>, JsonSpec) {
    ("udp_len"@, match v.udp_len { Some(n) => JsonSpec::Number(n as u64), None => JsonSpec::Null })
}

pub open spec fn skb_icmp_type_field(v: SkbView) -> (Seq<char>, JsonSpec) {
    ("icmp_type"@, match v.icmp_type { Some(n) => JsonSpec::Number(n as u64), None => JsonSpec::Null })
}

pub open spec fn skb_icmp_code_field(v: SkbView) -> (Seq<char>, JsonSpec) {
    ("icmp_code"@, match v.icmp_code { Some(n) => JsonSpec::Number(n as u64), None => JsonSpec::Null })
}

/// The persisted form of an skb section; unset fields are null.
#[verifier::opaque]
pub open spec fn skb_fields(v: SkbView) -> Seq<(Seq<char>, JsonSpec)> {
    seq![
        skb_etype_field(v),
        skb_src_field(v),
        skb_dst_field(v),
        skb_saddr_field(v),
        skb_daddr_field(v),
        skb_ip_version_field(v),
        skb_l3_len_field(v),
        skb_protocol_field(v),
        skb_sport_field(v),
        skb_dport_field(v),
        skb_tcp_seq_field(v),
        skb_tcp_ack_seq_field(v),
        skb_tcp_window_field(v),
        skb_tcp_flags_field(v),
        skb_tcp_doff_field(v),
        skb_udp_len_field(v),
        skb_icmp_type_field(v),
        skb_icmp_code_field(v),
    ]
}

/// An optional number at most `max`: `Some(None)` when absent or null,
/// `None` when it is something else.
pub open spec fn opt_num(f: Seq<(Seq<char>, JsonSpec)>, k: Seq<char>, max: u64) -> Option<Option<u64>> {
    match lookup(f, k) {
        None => Some(None),
        Some(JsonSpec::Null) => Some(None),
        Some(JsonSpec::Number(n)) => if n <= max {
            Some(Some(n))
        } else {
            None
        },
        _ => None,
    }
}

/// An optional MAC address text.
pub open spec fn opt_mac(f: Seq<(Seq<char>, JsonSpec)>, k: Seq<char>) -> Option<Option<Seq<u8>>> {
    match lookup(f, k) {
        None => Some(None),
        Some(JsonSpec::Null) => Some(None),
        Some(JsonSpec::Text(t)) => match mac_of(t) {
            Some(b) => Some(Some(b)),
            None => None,
        },
        _ => None,
    }
}

/// An optional IP address text.
pub open spec fn opt_ip(f: Seq<(Seq<char>, JsonSpec)>, k: Seq<char>) -> Option<Option<IpView>> {
    match lookup(f, k) {
        None => Some(None),
        Some(JsonSpec::Null) => Some(None),
        Some(JsonSpec::Text(t)) => match ip_of(t) {
            Some(a) => Some(Some(a)),
            None => None,
        },
        _ => None,
    }
}

pub open spec fn narrow8(o: Option<u64>) -> Option<u8> {
    match o {
        Some(n) => Some(n as u8),
        None => None,
    }
}

pub open spec fn narrow16(o: Option<u64>) -> Option<u16> {
    match o {
        Some(n) => Some(n as u16),
        None => None,
    }
}

pub open spec fn narrow32(o: Option<u64>) -> Option<u32> {
    match o {
        Some(n) => Some(n as u32),
        None => None,
    }
}

/// The skb section a persisted object holds.
#[verifier::opaque]
pub open spec fn skb_of(f: Seq<(Seq<char>, JsonSpec)>) -> Option<SkbView> {
    let etype = opt_num(f, "etype"@, 0xffff);
    let src = opt_mac(f, "src"@);
    let dst = opt_mac(f, "dst"@);
    let saddr = opt_ip(f, "saddr"@);
    let daddr = opt_ip(f, "daddr"@);
    let ip_version = opt_num(f, "ip_version"@, 0xff);
    let l3_len = opt_num(f, "l3_len"@, 0xffff);
    let protocol = opt_num(f, "protocol"@, 0xff);
    let sport = opt_num(f, "sport"@, 0xffff);
    let dport = opt_num(f, "dport"@, 0xffff);
    let tcp_seq = opt_num(f, "tcp_seq"@, 0xffff_ffff);
    let tcp_ack_seq = opt_num(f, "tcp_ack_seq"@, 0xffff_ffff);
    let tcp_window = opt_num(f, "tcp_window"@, 0xffff);
    let tcp_flags = opt_num(f, "tcp_flags"@, 0xff);
    let tcp_doff = opt_num(f, "tcp_doff"@, 0xff);
    let udp_len = opt_num(f, "udp_len"@, 0xffff);
    let icmp_type = opt_num(f, "icmp_type"@, 0xff);
    let icmp_code = opt_num(f, "icmp_code"@, 0xff);
    if etype is Some && src is Some && dst is Some && saddr is Some && daddr is Some && ip_version is Some && l3_len is Some && protocol is Some && sport is Some && dport is Some && tcp_seq is Some && tcp_ack_seq is Some && tcp_window is Some && tcp_flags is Some && tcp_doff is Some && udp_len is Some && icmp_type is Some && icmp_code is Some {
        Some(
            SkbView {
            etype: narrow16(etype->0),
            src: src->0,
            dst: dst->0,
            saddr: saddr->0,
            daddr: daddr->0,
            ip_version: narrow8(ip_version->0),
            l3_len: narrow16(l3_len->0),
            protocol: narrow8(protocol->0),
            sport: narrow16(sport->0),
            dport: narrow16(dport->0),
            tcp_seq: narrow32(tcp_seq->0),
            tcp_ack_seq: narrow32(tcp_ack_seq->0),
            tcp_window: narrow16(tcp_window->0),
            tcp_flags: narrow8(tcp_flags->0),
            tcp_doff: narrow8(tcp_doff->0),
            udp_len: narrow16(udp_len->0),
            icmp_type: narrow8(icmp_type->0),
            icmp_code: narrow8(icmp_code->0),
            },
        )
    } else {
        None
    }
}
/// The text of an IP address.
pub fn ip_to_string(a: &IpAddress) -> (r: String)
    ensures
        r@ == ip_text(ip_view(*a)),
{
    match a {
        IpAddress::V4(b) => ipv4_to_string(b),
        IpAddress::V6(b) => ipv6_to_string(b),
    }
}

/// Reads an IP address text.
pub fn ip_from_str(s: &str) -> (r: Option<IpAddress>)
    ensures
        match ip_of(s@) {
            Some(v) => r matches Some(a) && ip_view(a) == v,
            None => r is None,
        },
{
    if s.unicode_len() == 39 {
        match ipv6_from_str(s) {
            Some(b) => Some(IpAddress::V6(b)),
            None => None,
        }
    } else {
        match ipv4_from_str(s) {
            Some(b) => Some(IpAddress::V4(b)),
            None => None,
        }
    }
}

fn opt_num_field(obj: &JsonObject, k: &str, max: u64) -> (r: Result<Option<u64>, RetisError>)
    ensures
        match opt_num(obj.view(), k@, max) {
            Some(x) => r == Ok::<Option<u64>, RetisError>(x),
            None => r is Err,
        },
{
    match get_field(obj, k) {
        None => Ok(None),
        Some(JsonValue::Null) => Ok(None),
        Some(JsonValue::Number(n)) => if *n <= max {
            Ok(Some(*n))
        } else {
            Err(RetisError::InvalidValue)
        },
        _ => Err(RetisError::InvalidValue),
    }
}

fn opt_mac_field(obj: &JsonObject, k: &str) -> (r: Result<Option<[u8; 6]>, RetisError>)
    ensures
        match opt_mac(obj.view(), k@) {
            Some(Some(b)) => r matches Ok(Some(a)) && a@ == b,
            Some(None) => r matches Ok(None),
            None => r is Err,
        },
{
    match get_field(obj, k) {
        None => Ok(None),
        Some(JsonValue::Null) => Ok(None),
        Some(JsonValue::Text(t)) => match mac_from_str(t.as_str()) {
            Some(a) => Ok(Some(a)),
            None => Err(RetisError::InvalidValue),
        },
        _ => Err(RetisError::InvalidValue),
    }
}

fn opt_ip_field(obj: &JsonObject, k: &str) -> (r: Result<Option<IpAddress>, RetisError>)
    ensures
        match opt_ip(obj.view(), k@) {
            Some(Some(v)) => r matches Ok(Some(a)) && ip_view(a) == v,
            Some(None) => r matches Ok(None),
            None => r is Err,
        },
{
    match get_field(obj, k) {
        None => Ok(None),
        Some(JsonValue::Null) => Ok(None),
        Some(JsonValue::Text(t)) => match ip_from_str(t.as_str()) {
            Some(a) => Ok(Some(a)),
            None => Err(RetisError::InvalidValue),
        },
        _ => Err(RetisError::InvalidValue),
    }
}

fn push_skb_etype(fields: &mut Vec<(String, JsonValue)>, e: &SkbEvent)
    ensures
        final(fields)@.map_values(|f: (String, JsonValue)| (f.0@, value_view(f.1))) == old(fields)@.map_values(
            |f: (String, JsonValue)| (f.0@, value_view(f.1)),
        ).push(skb_etype_field(skb_view(*e))),
{
    let ghost before = fields@;
    fields.push(field("etype", match e.etype {
        Some(n) => JsonValue::Number(n as u64),
        None => JsonValue::Null,
    }));
    assert(fields@.map_values(|f: (String, JsonValue)| (f.0@, value_view(f.1))) =~= before.map_values(
        |f: (String, JsonValue)| (f.0@, value_view(f.1)),
    ).push(skb_etype_field(skb_view(*e))));
}

fn push_skb_src(fields: &mut Vec<(String, JsonValue)>, e: &SkbEvent)
    ensures
        final(fields)@.map_values(|f: (String, JsonValue)| (f.0@, value_view(f.1))) == old(fields)@.map_values(
            |f: (String, JsonValue)| (f.0@, value_view(f.1)),
        ).push(skb_src_field(skb_view(*e))),
{
    let ghost before = fields@;
    fields.push(field("src", match &e.src {
        Some(b) => JsonValue::Text(mac_to_string(b)),
        None => JsonValue::Null,
    }));
    assert(fields@.map_values(|f: (String, JsonValue)| (f.0@, value_view(f.1))) =~= before.map_values(
        |f: (String, JsonValue)| (f.0@, value_view(f.1)),
    ).push(skb_src_field(skb_view(*e))));
}

fn push_skb_dst(fields: &mut Vec<(String, JsonValue)>, e: &SkbEvent)
    ensures
        final(fields)@.map_values(|f: (String, JsonValue)| (f.0@, value_view(f.1))) == old(fields)@.map_values(
            |f: (String, JsonValue)| (f.0@, value_view(f.1)),
        ).push(skb_dst_field(skb_view(*e))),
{
    let ghost before = fields@;
    fields.push(field("dst", match &e.dst {
        Some(b) => JsonValue::Text(mac_to_string(b)),
        None => JsonValue::Null,
    }));
    assert(fields@.map_values(|f: (String, JsonValue)| (f.0@, value_view(f.1))) =~= before.map_values(
        |f: (String, JsonValue)| (f.0@, value_view(f.1)),
    ).push(skb_dst_field(skb_view(*e))));
}

fn push_skb_saddr(fields: &mut Vec<(String, JsonValue)>, e: &SkbEvent)
    ensures
        final(fields)@.map_values(|f: (String, JsonValue)| (f.0@, value_view(f.1))) == old(fields)@.map_values(
            |f: (String, JsonValue)| (f.0@, value_view(f.1)),
        ).push(skb_saddr_field(skb_view(*e))),
{
    let ghost before = fields@;
    fields.push(field("saddr", match &e.saddr {
        Some(a) => JsonValue::Text(ip_to_string(a)),
        None => JsonValue::Null,
    }));
    assert(fields@.map_values(|f: (String, JsonValue)| (f.0@, value_view(f.1))) =~= before.map_values(
        |f: (String, JsonValue)| (f.0@, value_view(f.1)),
    ).push(skb_saddr_field(skb_view(*e))));
}

fn push_skb_daddr(fields: &mut Vec<(String, JsonValue)>, e: &SkbEvent)
    ensures
        final(fields)@.map_values(|f: (String, JsonValue)| (f.0@, value_view(f.1))) == old(fields)@.map_values(
            |f: (String, JsonValue)| (f.0@, value_view(f.1)),
        ).push(skb_daddr_field(skb_view(*e))),
{
    let ghost before = fields@;
    fields.push(field("daddr", match &e.daddr {
        Some(a) => JsonValue::Text(ip_to_string(a)),
        None => JsonValue::Null,
    }));
    assert(fields@.map_values(|f: (String, JsonValue)| (f.0@, value_view(f.1))) =~= before.map_values(
        |f: (String, JsonValue)| (f.0@, value_view(f.1)),
    ).push(skb_daddr_field(skb_view(*e))));
}

fn push_skb_ip_version(fields: &mut Vec<(String, JsonValue)>, e: &SkbEvent)
    ensures
        final(fields)@.map_values(|f: (String, JsonValue)| (f.0@, value_view(f.1))) == old(fields)@.map_values(
            |f: (String, JsonValue)| (f.0@, value_view(f.1)),
        ).push(skb_ip_version_field(skb_view(*e))),
{
    let ghost before = fields@;
    fields.push(field("ip_version", match e.ip_version {
        Some(n) => JsonValue::Number(n as u64),
        None => JsonValue::Null,
    }));
    assert(fields@.map_values(|f: (String, JsonValue)| (f.0@, value_view(f.1))) =~= before.map_values(
        |f: (String, JsonValue)| (f.0@, value_view(f.1)),
    ).push(skb_ip_version_field(skb_view(*e))));
}

fn push_skb_l3_len(fields: &mut Vec<(String, JsonValue)>, e: &SkbEvent)
    ensures
        final(fields)@.map_values(|f: (String, JsonValue)| (f.0@, value_view(f.1))) == old(fields)@.map_values(
            |f: (String, JsonValue)| (f.0@, value_view(f.1)),
        ).push(skb_l3_len_field(skb_view(*e))),
{
    let ghost before = fields@;
    fields.push(field("l3_len", match e.l3_len {
        Some(n) => JsonValue::Number(n as u64),
        None => JsonValue::Null,
    }));
    assert(fields@.map_values(|f: (String, JsonValue)| (f.0@, value_view(f.1))) =~= before.map_values(
        |f: (String, JsonValue)| (f.0@, value_view(f.1)),
    ).push(skb_l3_len_field(skb_view(*e))));
}

fn push_skb_protocol(fields: &mut Vec<(String, JsonValue)>, e: &SkbEvent)
    ensures
        final(fields)@.map_values(|f: (String, JsonValue)| (f.0@, value_view(f.1))) == old(fields)@.map_values(
            |f: (String, JsonValue)| (f.0@, value_view(f.1)),
        ).push(skb_protocol_field(skb_view(*e))),
{
    let ghost before = fields@;
    fields.push(field("protocol", match e.protocol {
        Some(n) => JsonValue::Number(n as u64),
        None => JsonValue::Null,
    }));
    assert(fields@.map_values(|f: (String, JsonValue)| (f.0@, value_view(f.1))) =~= before.map_values(
        |f: (String, JsonValue)| (f.0@, value_view(f.1)),
    ).push(skb_protocol_field(skb_view(*e))));
}

fn push_skb_sport(fields: &mut Vec<(String, JsonValue)>, e: &SkbEvent)
    ensures
        final(fields)@.map_values(|f: (String, JsonValue)| (f.0@, value_view(f.1))) == old(fields)@.map_values(
            |f: (String, JsonValue)| (f.0@, value_view(f.1)),
        ).push(skb_sport_field(skb_view(*e))),
{
    let ghost before = fields@;
    fields.push(field("sport", match e.sport {
        Some(n) => JsonValue::Number(n as u64),
        None => JsonValue::Null,
    }));
    assert(fields@.map_values(|f: (String, JsonValue)| (f.0@, value_view(f.1))) =~= before.map_values(
        |f: (String, JsonValue)| (f.0@, value_view(f.1)),
    ).push(skb_sport_field(skb_view(*e))));
}

fn push_skb_dport(fields: &mut Vec<(String, JsonValue)>, e: &SkbEvent)
    ensures
        final(fields)@.map_values(|f: (String, JsonValue)| (f.0@, value_view(f.1))) == old(fields)@.map_values(
            |f: (String, JsonValue)| (f.0@, value_view(f.1)),
        ).push(skb_dport_field(skb_view(*e))),
{
    let ghost before = fields@;
    fields.push(field("dport", match e.dport {
        Some(n) => JsonValue::Number(n as u64),
        None => JsonValue::Null,
    }));
    assert(fields@.map_values(|f: (String, JsonValue)| (f.0@, value_view(f.1))) =~= before.map_values(
        |f: (String, JsonValue)| (f.0@, value_view(f.1)),
    ).push(skb_dport_field(skb_view(*e))));
}

fn push_skb_tcp_seq(fields: &mut Vec<(String, JsonValue)>, e: &SkbEvent)
    ensures
        final(fields)@.map_values(|f: (String, JsonValue)| (f.0@, value_view(f.1))) == old(fields)@.map_values(
            |f: (String, JsonValue)| (f.0@, value_view(f.1)),
        ).push(skb_tcp_seq_field(skb_view(*e))),
{
    let ghost before = fields@;
    fields.push(field("tcp_seq", match e.tcp_seq {
        Some(n) => JsonValue::Number(n as u64),
        None => JsonValue::Null,
    }));
    assert(fields@.map_values(|f: (String, JsonValue)| (f.0@, value_view(f.1))) =~= before.map_values(
        |f: (String, JsonValue)| (f.0@, value_view(f.1)),
    ).push(skb_tcp_seq_field(skb_view(*e))));
}

fn push_skb_tcp_ack_seq(fields: &mut Vec<(String, JsonValue)>, e: &SkbEvent)
    ensures
        final(fields)@.map_values(|f: (String, JsonValue)| (f.0@, value_view(f.1))) == old(fields)@.map_values(
            |f: (String, JsonValue)| (f.0@, value_view(f.1)),
        ).push(skb_tcp_ack_seq_field(skb_view(*e))),
{
    let ghost before = fields@;
    fields.push(field("tcp_ack_seq", match e.tcp_ack_seq {
        Some(n) => JsonValue::Number(n as u64),
        None => JsonValue::Null,
    }));
    assert(fields@.map_values(|f: (String, JsonValue)| (f.0@, value_view(f.1))) =~= before.map_values(
        |f: (String, JsonValue)| (f.0@, value_view(f.1)),
    ).push(skb_tcp_ack_seq_field(skb_view(*e))));
}

fn push_skb_tcp_window(fields: &mut Vec<(String, JsonValue)>, e: &SkbEvent)
    ensures
        final(fields)@.map_values(|f: (String, JsonValue)| (f.0@, value_view(f.1))) == old(fields)@.map_values(
            |f: (String, JsonValue)| (f.0@, value_view(f.1)),
        ).push(skb_tcp_window_field(skb_view(*e))),
{
    let ghost before = fields@;
    fields.push(field("tcp_window", match e.tcp_window {
        Some(n) => JsonValue::Number(n as u64),
        None => JsonValue::Null,
    }));
    assert(fields@.map_values(|f: (String, JsonValue)| (f.0@, value_view(f.1))) =~= before.map_values(
        |f: (String, JsonValue)| (f.0@, value_view(f.1)),
    ).push(skb_tcp_window_field(skb_view(*e))));
}

fn push_skb_tcp_flags(fields: &mut Vec<(String, JsonValue)>, e: &SkbEvent)
    ensures
        final(fields)@.map_values(|f: (String, JsonValue)| (f.0@, value_view(f.1))) == old(fields)@.map_values(
            |f: (String, JsonValue)| (f.0@, value_view(f.1)),
        ).push(skb_tcp_flags_field(skb_view(*e))),
{
    let ghost before = fields@;
    fields.push(field("tcp_flags", match e.tcp_flags {
        Some(n) => JsonValue::Number(n as u64),
        None => JsonValue::Null,
    }));
    assert(fields@.map_values(|f: (String, JsonValue)| (f.0@, value_view(f.1))) =~= before.map_values(
        |f: (String, JsonValue)| (f.0@, value_view(f.1)),
    ).push(skb_tcp_flags_field(skb_view(*e))));
}

fn push_skb_tcp_doff(fields: &mut Vec<(String, JsonValue)>, e: &SkbEvent)
    ensures
        final(fields)@.map_values(|f: (String, JsonValue)| (f.0@, value_view(f.1))) == old(fields)@.map_values(
            |f: (String, JsonValue)| (f.0@, value_view(f.1)),
        ).push(skb_tcp_doff_field(skb_view(*e))),
{
    let ghost before = fields@;
    fields.push(field("tcp_doff", match e.tcp_doff {
        Some(n) => JsonValue::Number(n as u64),
        None => JsonValue::Null,
    }));
    assert(fields@.map_values(|f: (String, JsonValue)| (f.0@, value_view(f.1))) =~= before.map_values(
        |f: (String, JsonValue)| (f.0@, value_view(f.1)),
    ).push(skb_tcp_doff_field(skb_view(*e))));
}

fn push_skb_udp_len(fields: &mut Vec<(String, JsonValue)>, e: &SkbEvent)
    ensures
        final(fields)@.map_values(|f: (String, JsonValue)| (f.0@, value_view(f.1))) == old(fields)@.map_values(
            |f: (String, JsonValue)| (f.0@, value_view(f.1)),
        ).push(skb_udp_len_field(skb_view(*e))),
{
    let ghost before = fields@;
    fields.push(field("udp_len", match e.udp_len {
        Some(n) => JsonValue::Number(n as u64),
        None => JsonValue::Null,
    }));
    assert(fields@.map_values(|f: (String, JsonValue)| (f.0@, value_view(f.1))) =~= before.map_values(
        |f: (String, JsonValue)| (f.0@, value_view(f.1)),
    ).push(skb_udp_len_field(skb_view(*e))));
}

fn push_skb_icmp_type(fields: &mut Vec<(String, JsonValue)>, e: &SkbEvent)
    ensures
        final(fields)@.map_values(|f: (String, JsonValue)| (f.0@, value_view(f.1))) == old(fields)@.map_values(
            |f: (String, JsonValue)| (f.0@, value_view(f.1)),
        ).push(skb_icmp_type_field(skb_view(*e))),
{
    let ghost before = fields@;
    fields.push(field("icmp_type", match e.icmp_type {
        Some(n) => JsonValue::Number(n as u64),
        None => JsonValue::Null,
    }));
    assert(fields@.map_values(|f: (String, JsonValue)| (f.0@, value_view(f.1))) =~= before.map_values(
        |f: (String, JsonValue)| (f.0@, value_view(f.1)),
    ).push(skb_icmp_type_field(skb_view(*e))));
}

fn push_skb_icmp_code(fields: &mut Vec<(String, JsonValue)>, e: &SkbEvent)
    ensures
        final(fields)@.map_values(|f: (String, JsonValue)| (f.0@, value_view(f.1))) == old(fields)@.map_values(
            |f: (String, JsonValue)| (f.0@, value_view(f.1)),
        ).push(skb_icmp_code_field(skb_view(*e))),
{
    let ghost before = fields@;
    fields.push(field("icmp_code", match e.icmp_code {
        Some(n) => JsonValue::Number(n as u64),
        None => JsonValue::Null,
    }));
    assert(fields@.map_values(|f: (String, JsonValue)| (f.0@, value_view(f.1))) =~= before.map_values(
        |f: (String, JsonValue)| (f.0@, value_view(f.1)),
    ).push(skb_icmp_code_field(skb_view(*e))));
}

pub fn skb_to_json(e: &SkbEvent) -> (r: JsonObject)
    ensures
        r.view() == skb_fields(skb_view(*e)),
{
    let mut fields: Vec<(String, JsonValue)> = Vec::new();
    assert(fields@.map_values(|f: (String, JsonValue)| (f.0@, value_view(f.1))) =~= Seq::<(Seq<char>, JsonSpec)>::empty());
    push_skb_etype(&mut fields, e);
    push_skb_src(&mut fields, e);
    push_skb_dst(&mut fields, e);
    push_skb_saddr(&mut fields, e);
    push_skb_daddr(&mut fields, e);
    push_skb_ip_version(&mut fields, e);
    push_skb_l3_len(&mut fields, e);
    push_skb_protocol(&mut fields, e);
    push_skb_sport(&mut fields, e);
    push_skb_dport(&mut fields, e);
    push_skb_tcp_seq(&mut fields, e);
    push_skb_tcp_ack_seq(&mut fields, e);
    push_skb_tcp_window(&mut fields, e);
    push_skb_tcp_flags(&mut fields, e);
    push_skb_tcp_doff(&mut fields, e);
    push_skb_udp_len(&mut fields, e);
    push_skb_icmp_type(&mut fields, e);
    push_skb_icmp_code(&mut fields, e);
    let r = JsonObject { fields };
    proof {
        reveal(skb_fields);
        assert(r.view() =~= skb_fields(skb_view(*e)));
    }
    r
}

pub fn skb_from_json(obj: &JsonObject) -> (r: Result<SkbEvent, RetisError>)
    ensures
        match skb_of(obj.view()) {
            Some(v) => r matches Ok(e) && skb_view(e) == v,
            None => r is Err,
        },
{
    proof {
        reveal(skb_of);
    }
    let etype = opt_num_field(obj, "etype", 0xffff)?;
    let src = opt_mac_field(obj, "src")?;
    let dst = opt_mac_field(obj, "dst")?;
    let saddr = opt_ip_field(obj, "saddr")?;
    let daddr = opt_ip_field(obj, "daddr")?;
    let ip_version = opt_num_field(obj, "ip_version", 0xff)?;
    let l3_len = opt_num_field(obj, "l3_len", 0xffff)?;
    let protocol = opt_num_field(obj, "protocol", 0xff)?;
    let sport = opt_num_field(obj, "sport", 0xffff)?;
    let dport = opt_num_field(obj, "dport", 0xffff)?;
    let tcp_seq = opt_num_field(obj, "tcp_seq", 0xffff_ffff)?;
    let tcp_ack_seq = opt_num_field(obj, "tcp_ack_seq", 0xffff_ffff)?;
    let tcp_window = opt_num_field(obj, "tcp_window", 0xffff)?;
    let tcp_flags = opt_num_field(obj, "tcp_flags", 0xff)?;
    let tcp_doff = opt_num_field(obj, "tcp_doff", 0xff)?;
    let udp_len = opt_num_field(obj, "udp_len", 0xffff)?;
    let icmp_type = opt_num_field(obj, "icmp_type", 0xff)?;
    let icmp_code = opt_num_field(obj, "icmp_code", 0xff)?;
    Ok(SkbEvent {
        etype: match etype {
            Some(n) => Some(n as u16),
            None => None,
        },
        src,
        dst,
        saddr,
        daddr,
        ip_version: match ip_version {
            Some(n) => Some(n as u8),
            None => None,
        },
        l3_len: match l3_len {
            Some(n) => Some(n as u16),
            None => None,
        },
        protocol: match protocol {
            Some(n) => Some(n as u8),
            None => None,
        },
        sport: match sport {
            Some(n) => Some(n as u16),
            None => None,
        },
        dport: match dport {
            Some(n) => Some(n as u16),
            None => None,
        },
        tcp_seq: match tcp_seq {
            Some(n) => Some(n as u32),
            None => None,
        },
        tcp_ack_seq: match tcp_ack_seq {
            Some(n) => Some(n as u32),
            None => None,
        },
        tcp_window: match tcp_window {
            Some(n) => Some(n as u16),
            None => None,
        },
        tcp_flags: match tcp_flags {
            Some(n) => Some(n as u8),
            None => None,
        },
        tcp_doff: match tcp_doff {
            Some(n) => Some(n as u8),
            None => None,
        },
        udp_len: match udp_len {
            Some(n) => Some(n as u16),
            None => None,
        },
        icmp_type: match icmp_type {
            Some(n) => Some(n as u8),
            None => None,
        },
        icmp_code: match icmp_code {
            Some(n) => Some(n as u8),
            None => None,
        },
    })
}

/// Looking up the key of entry `i` finds entry `i` when no earlier entry has
/// that key.
pub proof fn lemma_lookup_at(f: Seq<(Seq<char>, JsonSpec)>, i: int)
    requires
        0 <= i < f.len(),
        forall|j: int| 0 <= j < i ==> f[j].0 != f[i].0,
    ensures
        lookup(f, f[i].0) == Some(f[i].1),
    decreases i,
{
    if i > 0 {
        assert(f.drop_first()[i - 1] == f[i]);
        lemma_lookup_at(f.drop_first(), i - 1);
    }
}

/// Whether the keys of `f` are pairwise distinct.
pub open spec fn distinct_keys(f: Seq<(Seq<char>, JsonSpec)>) -> bool {
    forall|i: int, j: int| 0 <= j < i < f.len() ==> f[j].0 != f[i].0
}

proof fn lemma_skb_keys_distinct(v: SkbView)
    ensures
        distinct_keys(skb_fields(v)),
{
    reveal(skb_fields);
    reveal_strlit("etype");
    reveal_strlit("src");
    reveal_strlit("dst");
    reveal_strlit("saddr");
    reveal_strlit("daddr");
    reveal_strlit("ip_version");
    reveal_strlit("l3_len");
    reveal_strlit("protocol");
    reveal_strlit("sport");
    reveal_strlit("dport");
    reveal_strlit("tcp_seq");
    reveal_strlit("tcp_ack_seq");
    reveal_strlit("tcp_window");
    reveal_strlit("tcp_flags");
    reveal_strlit("tcp_doff");
    reveal_strlit("udp_len");
    reveal_strlit("icmp_type");
    reveal_strlit("icmp_code");
    let f = skb_fields(v);
    assert(f[0].0.len() == 5 && f[0].0[0] == 'e' && f[0].0[1] == 't' && f[0].0[4] == 'e');
    assert(f[1].0.len() == 3 && f[1].0[0] == 's' && f[1].0[1] == 'r' && f[1].0[2] == 'c');
    assert(f[2].0.len() == 3 && f[2].0[0] == 'd' && f[2].0[1] == 's' && f[2].0[2] == 't');
    assert(f[3].0.len() == 5 && f[3].0[0] == 's' && f[3].0[1] == 'a' && f[3].0[4] == 'r');
    assert(f[4].0.len() == 5 && f[4].0[0] == 'd' && f[4].0[1] == 'a' && f[4].0[4] == 'r');
    assert(f[5].0.len() == 10 && f[5].0[0] == 'i' && f[5].0[1] == 'p' && f[5].0[5] == 'r');
    assert(f[6].0.len() == 6 && f[6].0[0] == 'l' && f[6].0[1] == '3' && f[6].0[5] == 'n');
    assert(f[7].0.len() == 8 && f[7].0[0] == 'p' && f[7].0[1] == 'r' && f[7].0[5] == 'c');
    assert(f[8].0.len() == 5 && f[8].0[0] == 's' && f[8].0[1] == 'p' && f[8].0[4] == 't');
    assert(f[9].0.len() == 5 && f[9].0[0] == 'd' && f[9].0[1] == 'p' && f[9].0[4] == 't');
    assert(f[10].0.len() == 7 && f[10].0[0] == 't' && f[10].0[1] == 'c' && f[10].0[5] == 'e');
    assert(f[11].0.len() == 11 && f[11].0[0] == 't' && f[11].0[1] == 'c' && f[11].0[5] == 'c');
    assert(f[12].0.len() == 10 && f[12].0[0] == 't' && f[12].0[1] == 'c' && f[12].0[5] == 'i');
    assert(f[13].0.len() == 9 && f[13].0[0] == 't' && f[13].0[1] == 'c' && f[13].0[5] == 'l');
    assert(f[14].0.len() == 8 && f[14].0[0] == 't' && f[14].0[1] == 'c' && f[14].0[5] == 'o');
    assert(f[15].0.len() == 7 && f[15].0[0] == 'u' && f[15].0[1] == 'd' && f[15].0[5] == 'e');
    assert(f[16].0.len() == 9 && f[16].0[0] == 'i' && f[16].0[1] == 'c' && f[16].0[5] == 't');
    assert(f[17].0.len() == 9 && f[17].0[0] == 'i' && f[17].0[1] == 'c' && f[17].0[5] == 'c');
}

proof fn lemma_skb_lookups(v: SkbView)
    ensures
        lookup(skb_fields(v), "etype"@) == Some(skb_etype_field(v).1),
        lookup(skb_fields(v), "src"@) == Some(skb_src_field(v).1),
        lookup(skb_fields(v), "dst"@) == Some(skb_dst_field(v).1),
        lookup(skb_fields(v), "saddr"@) == Some(skb_saddr_field(v).1),
        lookup(skb_fields(v), "daddr"@) == Some(skb_daddr_field(v).1),
        lookup(skb_fields(v), "ip_version"@) == Some(skb_ip_version_field(v).1),
        lookup(skb_fields(v), "l3_len"@) == Some(skb_l3_len_field(v).1),
        lookup(skb_fields(v), "protocol"@) == Some(skb_protocol_field(v).1),
        lookup(skb_fields(v), "sport"@) == Some(skb_sport_field(v).1),
        lookup(skb_fields(v), "dport"@) == Some(skb_dport_field(v).1),
        lookup(skb_fields(v), "tcp_seq"@) == Some(skb_tcp_seq_field(v).1),
        lookup(skb_fields(v), "tcp_ack_seq"@) == Some(skb_tcp_ack_seq_field(v).1),
        lookup(skb_fields(v), "tcp_window"@) == Some(skb_tcp_window_field(v).1),
        lookup(skb_fields(v), "tcp_flags"@) == Some(skb_tcp_flags_field(v).1),
        lookup(skb_fields(v), "tcp_doff"@) == Some(skb_tcp_doff_field(v).1),
        lookup(skb_fields(v), "udp_len"@) == Some(skb_udp_len_field(v).1),
        lookup(skb_fields(v), "icmp_type"@) == Some(skb_icmp_type_field(v).1),
        lookup(skb_fields(v), "icmp_code"@) == Some(skb_icmp_code_field(v).1),
{
    let f = skb_fields(v);
    reveal(skb_fields);
    lemma_skb_keys_distinct(v);
    lemma_lookup_at(f, 0);
    assert(f[0].0 == "etype"@);
    lemma_lookup_at(f, 1);
    assert(f[1].0 == "src"@);
    lemma_lookup_at(f, 2);
    assert(f[2].0 == "dst"@);
    lemma_lookup_at(f, 3);
    assert(f[3].0 == "saddr"@);
    lemma_lookup_at(f, 4);
    assert(f[4].0 == "daddr"@);
    lemma_lookup_at(f, 5);
    assert(f[5].0 == "ip_version"@);
    lemma_lookup_at(f, 6);
    assert(f[6].0 == "l3_len"@);
    lemma_lookup_at(f, 7);
    assert(f[7].0 == "protocol"@);
    lemma_lookup_at(f, 8);
    assert(f[8].0 == "sport"@);
    lemma_lookup_at(f, 9);
    assert(f[9].0 == "dport"@);
    lemma_lookup_at(f, 10);
    assert(f[10].0 == "tcp_seq"@);
    lemma_lookup_at(f, 11);
    assert(f[11].0 == "tcp_ack_seq"@);
    lemma_lookup_at(f, 12);
    assert(f[12].0 == "tcp_window"@);
    lemma_lookup_at(f, 13);
    assert(f[13].0 == "tcp_flags"@);
    lemma_lookup_at(f, 14);
    assert(f[14].0 == "tcp_doff"@);
    lemma_lookup_at(f, 15);
    assert(f[15].0 == "udp_len"@);
    lemma_lookup_at(f, 16);
    assert(f[16].0 == "icmp_type"@);
    lemma_lookup_at(f, 17);
    assert(f[17].0 == "icmp_code"@);
}

/// Reading back the persisted form of an skb section gives the section.
#[verifier::rlimit(100)]
pub proof fn lemma_skb_round_trip(v: SkbView)
    requires
        v.src matches Some(b) ==> b.len() == 6,
        v.dst matches Some(b) ==> b.len() == 6,
        v.saddr matches Some(a) ==> match a {
            IpView::V4(b) => b.len() == 4,
            IpView::V6(b) => b.len() == 16,
        },
        v.daddr matches Some(a) ==> match a {
            IpView::V4(b) => b.len() == 4,
            IpView::V6(b) => b.len() == 16,
        },
    ensures
        skb_of(skb_fields(v)) == Some(v),
{
    lemma_skb_lookups(v);
    let f = skb_fields(v);
    if let Some(b) = v.src {
        lemma_mac_round_trip(b);
    }
    if let Some(b) = v.dst {
        lemma_mac_round_trip(b);
    }
    if let Some(a) = v.saddr {
        lemma_ip_round_trip(a);
    }
    if let Some(a) = v.daddr {
        lemma_ip_round_trip(a);
    }
    assert(opt_num(f, "etype"@, 0xffff) == Some(match v.etype { Some(n) => Some(n as u64), None => None::<u64> }));
    assert(opt_mac(f, "src"@) == Some(v.src));
    assert(opt_mac(f, "dst"@) == Some(v.dst));
    assert(opt_ip(f, "saddr"@) == Some(v.saddr));
    assert(opt_ip(f, "daddr"@) == Some(v.daddr));
    assert(opt_num(f, "ip_version"@, 0xff) == Some(match v.ip_version { Some(n) => Some(n as u64), None => None::<u64> }));
    assert(opt_num(f, "l3_len"@, 0xffff) == Some(match v.l3_len { Some(n) => Some(n as u64), None => None::<u64> }));
    assert(opt_num(f, "protocol"@, 0xff) == Some(match v.protocol { Some(n) => Some(n as u64), None => None::<u64> }));
    assert(opt_num(f, "sport"@, 0xffff) == Some(match v.sport { Some(n) => Some(n as u64), None => None::<u64> }));
    assert(opt_num(f, "dport"@, 0xffff) == Some(match v.dport { Some(n) => Some(n as u64), None => None::<u64> }));
    assert(opt_num(f, "tcp_seq"@, 0xffff_ffff) == Some(match v.tcp_seq { Some(n) => Some(n as u64), None => None::<u64> }));
    assert(opt_num(f, "tcp_ack_seq"@, 0xffff_ffff) == Some(match v.tcp_ack_seq { Some(n) => Some(n as u64), None => None::<u64> }));
    assert(opt_num(f, "tcp_window"@, 0xffff) == Some(match v.tcp_window { Some(n) => Some(n as u64), None => None::<u64> }));
    assert(opt_num(f, "tcp_flags"@, 0xff) == Some(match v.tcp_flags { Some(n) => Some(n as u64), None => None::<u64> }));
    assert(opt_num(f, "tcp_doff"@, 0xff) == Some(match v.tcp_doff { Some(n) => Some(n as u64), None => None::<u64> }));
    assert(opt_num(f, "udp_len"@, 0xffff) == Some(match v.udp_len { Some(n) => Some(n as u64), None => None::<u64> }));
    assert(opt_num(f, "icmp_type"@, 0xff) == Some(match v.icmp_type { Some(n) => Some(n as u64), None => None::<u64> }));
    assert(opt_num(f, "icmp_code"@, 0xff) == Some(match v.icmp_code { Some(n) => Some(n as u64), None => None::<u64> }));
    lemma_skb_of_assembles(f, v);
}

proof fn lemma_skb_of_assembles(f: Seq<(Seq<char>, JsonSpec)>, v: SkbView)
    requires
        opt_num(f, "etype"@, 0xffff) == Some(match v.etype { Some(n) => Some(n as u64), None => None::<u64> }),
        opt_mac(f, "src"@) == Some(v.src),
        opt_mac(f, "dst"@) == Some(v.dst),
        opt_ip(f, "saddr"@) == Some(v.saddr),
        opt_ip(f, "daddr"@) == Some(v.daddr),
        opt_num(f, "ip_version"@, 0xff) == Some(match v.ip_version { Some(n) => Some(n as u64), None => None::<u64> }),
        opt_num(f, "l3_len"@, 0xffff) == Some(match v.l3_len { Some(n) => Some(n as u64), None => None::<u64> }),
        opt_num(f, "protocol"@, 0xff) == Some(match v.protocol { Some(n) => Some(n as u64), None => None::<u64> }),
        opt_num(f, "sport"@, 0xffff) == Some(match v.sport { Some(n) => Some(n as u64), None => None::<u64> }),
        opt_num(f, "dport"@, 0xffff) == Some(match v.dport { Some(n) => Some(n as u64), None => None::<u64> }),
        opt_num(f, "tcp_seq"@, 0xffff_ffff) == Some(match v.tcp_seq { Some(n) => Some(n as u64), None => None::<u64> }),
        opt_num(f, "tcp_ack_seq"@, 0xffff_ffff) == Some(match v.tcp_ack_seq { Some(n) => Some(n as u64), None => None::<u64> }),
        opt_num(f, "tcp_window"@, 0xffff) == Some(match v.tcp_window { Some(n) => Some(n as u64), None => None::<u64> }),
        opt_num(f, "tcp_flags"@, 0xff) == Some(match v.tcp_flags { Some(n) => Some(n as u64), None => None::<u64> }),
        opt_num(f, "tcp_doff"@, 0xff) == Some(match v.tcp_doff { Some(n) => Some(n as u64), None => None::<u64> }),
        opt_num(f, "udp_len"@, 0xffff) == Some(match v.udp_len { Some(n) => Some(n as u64), None => None::<u64> }),
        opt_num(f, "icmp_type"@, 0xff) == Some(match v.icmp_type { Some(n) => Some(n as u64), None => None::<u64> }),
        opt_num(f, "icmp_code"@, 0xff) == Some(match v.icmp_code { Some(n) => Some(n as u64), None => None::<u64> }),
    ensures
        skb_of(f) == Some(v),
{
    reveal(skb_of);
}

proof fn lemma_ip_round_trip(a: IpView)
    requires
        match a {
            IpView::V4(b) => b.len() == 4,
            IpView::V6(b) => b.len() == 16,
        },
    ensures
        ip_of(ip_text(a)) == Some(a),
{
    match a {
        IpView::V4(b) => {
            lemma_ipv4_round_trip(b);
            lemma_dec_round_trip(b[0]);
            lemma_dec_round_trip(b[1]);
            lemma_dec_round_trip(b[2]);
            lemma_dec_round_trip(b[3]);
            assert(ipv4_text(b).len() <= 15);
        },
        IpView::V6(b) => {
            lemma_ipv6_round_trip(b);
        },
    }
}

} // verus!
