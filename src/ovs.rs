//! Decoders of the raw sections of the ovs module.

use vstd::prelude::*;

use crate::enricher::{EnrichRequest, Ufid};
use crate::error::RetisError;
use crate::raw::{le32, le64, raw_views, read_le32, read_le64, RawSection, RawSectionView};

verus! {

/// Types of events that can be generated by the ovs module.
#[derive(Debug, Clone, Copy, PartialEq, Eq, Structural)]
pub enum OvsEventType {
    /// Upcall tracepoint.
    Upcall,
    /// Upcall received in userspace.
    RecvUpcall,
    /// Flow Put Operation.
    OpFlowPut,
    /// Flow Exec Operation.
    OpFlowExec,
}

impl OvsEventType {
    pub open spec fn code(self) -> u8 {
        match self {
            OvsEventType::Upcall => 0,
            OvsEventType::RecvUpcall => 1,
            OvsEventType::OpFlowPut => 2,
            OvsEventType::OpFlowExec => 3,
        }
    }

    pub fn from_u8(val: u8) -> (r: Result<OvsEventType, RetisError>)
        ensures
            val <= 3 ==> (r matches Ok(t) && t.code() == val),
            val > 3 ==> r == Err::<OvsEventType, RetisError>(RetisError::InvalidValue),
    {
        match val {
            0 => Ok(OvsEventType::Upcall),
            1 => Ok(OvsEventType::RecvUpcall),
            2 => Ok(OvsEventType::OpFlowPut),
            3 => Ok(OvsEventType::OpFlowExec),
            _ => Err(RetisError::InvalidValue),
        }
    }

    pub fn to_str_ref(&self) -> (r: Result<&'static str, RetisError>)
        ensures
            r matches Ok(s) && s@ == (match self {
                OvsEventType::Upcall => "upcall"@,
                OvsEventType::RecvUpcall => "recv_upcall"@,
                OvsEventType::OpFlowPut => "op_flow_put"@,
                OvsEventType::OpFlowExec => "op_flow_exec"@,
            }),
    {
        let ret = match self {
            OvsEventType::Upcall => "upcall",
            OvsEventType::RecvUpcall => "recv_upcall",
            OvsEventType::OpFlowPut => "op_flow_put",
            OvsEventType::OpFlowExec => "op_flow_exec",
        };
        Ok(ret)
    }
}

/// The ovs event section.
#[derive(Debug, Clone, Copy, PartialEq, Eq, Structural)]
pub enum OvsEvent {
    /// Upcall: command (OVS_PACKET_CMD_*) and port.
    Upcall { cmd: u8, upcall_port: u32 },
    /// Upcall received in userspace.
    RecvUpcall { upcall_type: u32, pkt_size: u32, key_size: u64 },
    /// Flow put operation.
    OpFlowPut,
    /// Flow exec operation.
    OpFlowExec,
}

/// Packed sizes of the raw structures.
pub const UPCALL_SIZE: usize = 5;
pub const RECV_UPCALL_SIZE: usize = 16;

/// Upcall data: `u8 cmd` then `u32 port`.
pub fn unmarshall_upcall(raw: &RawSection) -> (r: Result<OvsEvent, RetisError>)
    ensures
        raw.data@.len() == UPCALL_SIZE ==> r == Ok::<OvsEvent, RetisError>(
            OvsEvent::Upcall { cmd: raw.data@[0], upcall_port: le32(raw.data@, 1) as u32 },
        ),
        raw.data@.len() != UPCALL_SIZE ==> r == Err::<OvsEvent, RetisError>(RetisError::SectionSizeMismatch),
{
    if raw.data.len() != UPCALL_SIZE {
        return Err(RetisError::SectionSizeMismatch);
    }
    Ok(OvsEvent::Upcall { cmd: raw.data[0], upcall_port: read_le32(&raw.data, 1) })
}

/// Received upcall: `u32 type`, `u32 pkt_size`, `u64 key_size`.
pub fn unmarshall_recv(raw: &RawSection) -> (r: Result<OvsEvent, RetisError>)
    ensures
        raw.data@.len() == RECV_UPCALL_SIZE ==> r == Ok::<OvsEvent, RetisError>(
            OvsEvent::RecvUpcall {
                upcall_type: le32(raw.data@, 0) as u32,
                pkt_size: le32(raw.data@, 4) as u32,
                key_size: le64(raw.data@, 8) as u64,
            },
        ),
        raw.data@.len() != RECV_UPCALL_SIZE ==> r == Err::<OvsEvent, RetisError>(
            RetisError::SectionSizeMismatch,
        ),
{
    if raw.data.len() != RECV_UPCALL_SIZE {
        return Err(RetisError::SectionSizeMismatch);
    }
    Ok(
        OvsEvent::RecvUpcall {
            upcall_type: read_le32(&raw.data, 0),
            pkt_size: read_le32(&raw.data, 4),
            key_size: read_le64(&raw.data, 8),
        },
    )
}

/// Flow put operation: carries no data.
pub fn unmarshall_op_put(raw: &RawSection) -> (r: Result<OvsEvent, RetisError>)
    ensures
        raw.data@.len() == 0 ==> r == Ok::<OvsEvent, RetisError>(OvsEvent::OpFlowPut),
        raw.data@.len() != 0 ==> r == Err::<OvsEvent, RetisError>(RetisError::SectionSizeMismatch),
{
    if raw.data.len() != 0 {
        return Err(RetisError::SectionSizeMismatch);
    }
    Ok(OvsEvent::OpFlowPut)
}

/// Flow exec operation: carries no data.
pub fn unmarshall_op_exec(raw: &RawSection) -> (r: Result<OvsEvent, RetisError>)
    ensures
        raw.data@.len() == 0 ==> r == Ok::<OvsEvent, RetisError>(OvsEvent::OpFlowExec),
        raw.data@.len() != 0 ==> r == Err::<OvsEvent, RetisError>(RetisError::SectionSizeMismatch),
{
    if raw.data.len() != 0 {
        return Err(RetisError::SectionSizeMismatch);
    }
    Ok(OvsEvent::OpFlowExec)
}

/// The ovs section a raw section of data type `t` holds.
pub open spec fn decode_ovs(t: u8, d: Seq<u8>) -> Result<OvsEvent, RetisError> {
    if t == 0 {
        if d.len() == UPCALL_SIZE {
            Ok(OvsEvent::Upcall { cmd: d[0], upcall_port: le32(d, 1) as u32 })
        } else {
            Err(RetisError::SectionSizeMismatch)
        }
    } else if t == 1 {
        if d.len() == RECV_UPCALL_SIZE {
            Ok(
                OvsEvent::RecvUpcall {
                    upcall_type: le32(d, 0) as u32,
                    pkt_size: le32(d, 4) as u32,
                    key_size: le64(d, 8) as u64,
                },
            )
        } else {
            Err(RetisError::SectionSizeMismatch)
        }
    } else if d.len() != 0 {
        Err(RetisError::SectionSizeMismatch)
    } else if t == 2 {
        Ok(OvsEvent::OpFlowPut)
    } else {
        Ok(OvsEvent::OpFlowExec)
    }
}

/// The ovs section that raw sections hold.
pub open spec fn ovs_decode(secs: Seq<RawSectionView>) -> Result<OvsEvent, RetisError> {
    if secs.len() != 1 {
        Err(RetisError::MalformedRecord)
    } else if secs[0].data_type > 3 {
        Err(RetisError::InvalidValue)
    } else {
        decode_ovs(secs[0].data_type, secs[0].data)
    }
}

/// Builds the ovs event section from its single raw section, whose data type
/// is the event type.
pub fn ovs_from_raw(raw_sections: &Vec<RawSection>) -> (r: Result<OvsEvent, RetisError>)
    ensures
        r == ovs_decode(raw_views(raw_sections@)),
{
    if raw_sections.len() != 1 {
        return Err(RetisError::MalformedRecord);
    }
    let raw = &raw_sections[0];
    match OvsEventType::from_u8(raw.header.data_type)? {
        OvsEventType::Upcall => unmarshall_upcall(raw),
        OvsEventType::RecvUpcall => unmarshall_recv(raw),
        OvsEventType::OpFlowPut => unmarshall_op_put(raw),
        OvsEventType::OpFlowExec => unmarshall_op_exec(raw),
    }
}

/// Flow lookup result reported by the datapath: the flow and actions
/// pointers, the flow identifier, the mask and cache hit counters, and the
/// tracking identity of the packet.
#[allow(non_camel_case_types)]
#[derive(Debug, Clone, Copy)]
pub struct flow_lookup_ret_event {
    pub flow: u64,
    pub sf_acts: u64,
    pub ufid: [u32; 4],
    pub n_mask_hit: u32,
    pub n_cache_hit: u32,
    pub skb_orig_head: u64,
    pub skb_timestamp: u64,
    pub skb: u64,
}

/// Packed size of the flow lookup result.
pub const FLOW_LOOKUP_RET_SIZE: usize = 64;

/// Reads a flow lookup result (host byte order).
pub fn parse_flow_lookup_ret(raw: &RawSection) -> (r: Result<flow_lookup_ret_event, RetisError>)
    ensures
        raw.data@.len() != FLOW_LOOKUP_RET_SIZE ==> r == Err::<flow_lookup_ret_event, RetisError>(
            RetisError::SectionSizeMismatch,
        ),
        raw.data@.len() == FLOW_LOOKUP_RET_SIZE ==> (r matches Ok(e) && e.flow == le64(raw.data@, 0)
            && e.sf_acts == le64(raw.data@, 8) && e.ufid@ == seq![
            le32(raw.data@, 16) as u32,
            le32(raw.data@, 20) as u32,
            le32(raw.data@, 24) as u32,
            le32(raw.data@, 28) as u32,
        ] && e.n_mask_hit == le32(raw.data@, 32) && e.n_cache_hit == le32(raw.data@, 36) && e.skb_orig_head
            == le64(raw.data@, 40) && e.skb_timestamp == le64(raw.data@, 48) && e.skb == le64(raw.data@, 56)),
{
    let d = &raw.data;
    if d.len() != FLOW_LOOKUP_RET_SIZE {
        return Err(RetisError::SectionSizeMismatch);
    }
    let ufid = [read_le32(d, 16), read_le32(d, 20), read_le32(d, 24), read_le32(d, 28)];
    let e = flow_lookup_ret_event {
        flow: read_le64(d, 0),
        sf_acts: read_le64(d, 8),
        ufid,
        n_mask_hit: read_le32(d, 32),
        n_cache_hit: read_le32(d, 36),
        skb_orig_head: read_le64(d, 40),
        skb_timestamp: read_le64(d, 48),
        skb: read_le64(d, 56),
    };
    assert(e.ufid@ =~= seq![
        le32(raw.data@, 16) as u32,
        le32(raw.data@, 20) as u32,
        le32(raw.data@, 24) as u32,
        le32(raw.data@, 28) as u32,
    ]);
    Ok(e)
}

/// The enrichment request a flow lookup result calls for, at time `ts` (ms).
pub fn enrich_request(e: &flow_lookup_ret_event, ts: u64) -> (r: EnrichRequest)
    ensures
        r == (EnrichRequest {
            ufid: Ufid(e.ufid[0], e.ufid[1], e.ufid[2], e.ufid[3]),
            flow: e.flow,
            sf_acts: e.sf_acts,
            ts,
        }),
{
    EnrichRequest::new(Ufid(e.ufid[0], e.ufid[1], e.ufid[2], e.ufid[3]), e.flow, e.sf_acts, ts)
}

} // verus!
