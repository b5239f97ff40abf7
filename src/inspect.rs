//! Description of a probe target: its address, its argument count and where
//! the arguments of known types are, as published to the probe configuration.

use vstd::prelude::*;

use crate::error::RetisError;
use crate::probe::Symbol;

verus! {

/// Argument index of each known parameter type; -1 when absent.
#[derive(Debug, Clone, Copy, PartialEq, Eq, Structural)]
pub struct ProbeOffsets {
    pub sk_buff: i8,
    pub skb_drop_reason: i8,
    pub net_device: i8,
    pub net: i8,
}

impl ProbeOffsets {
    /// No known parameter found.
    pub fn none() -> (r: ProbeOffsets)
        ensures
            r.sk_buff == -1 && r.skb_drop_reason == -1 && r.net_device == -1 && r.net == -1,
    {
        ProbeOffsets { sk_buff: -1, skb_drop_reason: -1, net_device: -1, net: -1 }
    }
}

/// Holds the result of a kernel symbol inspection and describes it.
#[derive(Debug, Clone, Copy, PartialEq, Eq, Structural)]
pub struct TargetDesc {
    /// Symbol address.
    pub ksym: u64,
    /// Number of arguments the symbol has.
    pub nargs: u32,
    /// Holds the different offsets to known parameters.
    pub offsets: ProbeOffsets,
}

/// Whether `o` is the argument index of the first parameter of type `ty`, as a
/// signed byte, or -1 when there is none.
pub open spec fn offset_is(ps: Seq<Seq<char>>, ty: Seq<char>, o: i8) -> bool {
    if exists|i: int| 0 <= i < ps.len() && ps[i] == ty {
        exists|i: int| #![trigger ps[i]]
            0 <= i < ps.len() && ps[i] == ty && o == i as i8 && forall|j: int|
                0 <= j < i ==> ps[j] != ty
    } else {
        o == -1
    }
}

fn offset_of(symbol: &Symbol, ty: &str) -> (r: i8)
    requires
        symbol.wf(),
    ensures
        offset_is(symbol.param_types(), ty@, r),
{
    match symbol.parameter_offset(ty) {
        Some(i) => {
            assert(symbol.param_types()[i as int] == ty@);
            i as i8
        },
        None => -1,
    }
}

/// Inspects a target and fills its description.
pub fn inspect_symbol(symbol: &Symbol) -> (r: Result<TargetDesc, RetisError>)
    requires
        symbol.wf(),
    ensures
        r matches Ok(d) && d.ksym == symbol.spec_addr() && d.nargs == symbol.param_types().len()
            && offset_is(symbol.param_types(), "struct sk_buff *"@, d.offsets.sk_buff)
            && offset_is(symbol.param_types(), "enum skb_drop_reason"@, d.offsets.skb_drop_reason)
            && offset_is(symbol.param_types(), "struct net_device *"@, d.offsets.net_device)
            && offset_is(symbol.param_types(), "struct net *"@, d.offsets.net),
{
    let offsets = ProbeOffsets {
        sk_buff: offset_of(symbol, "struct sk_buff *"),
        skb_drop_reason: offset_of(symbol, "enum skb_drop_reason"),
        net_device: offset_of(symbol, "struct net_device *"),
        net: offset_of(symbol, "struct net *"),
    };
    Ok(TargetDesc { ksym: symbol.addr(), nargs: symbol.nargs(), offsets })
}

} // verus!
