//! Resolved probe targets (symbols) and probes.

use vstd::prelude::*;
use vstd::string::*;

use crate::error::RetisError;
use crate::inspector::{listed, params_of, texts, KernelInspector};
use crate::text::{chars_of, find_char, first_index_of, slice_string};

verus! {

/// A resolved kernel target: a function or a `group:event` tracepoint.
pub enum Symbol {
    Func { name: String, addr: u64, params: Vec<String> },
    Event { group: String, name: String, addr: u64, params: Vec<String> },
}

/// Name of the symbol whose address stands for a tracepoint `group:event`.
pub open spec fn addr_symbol(target: Seq<char>) -> Seq<char> {
    match first_index_of(target, ':') {
        Some(i) => "__tracepoint_"@ + target.subrange(i + 1, target.len() as int),
        None => target,
    }
}

/// Whether the inspector's traceable lists allow `target` (unknown lists allow
/// everything).
pub open spec fn traceable_ok(ins: KernelInspector, target: Seq<char>) -> bool {
    let list = if first_index_of(target, ':') is Some { ins.events() } else { ins.funcs() };
    match list {
        Some(l) => listed(l, target),
        None => true,
    }
}

/// Whether the symbol table has a symbol of that name.
pub open spec fn has_symbol(ins: KernelInspector, n: Seq<char>) -> bool {
    exists|a: u64| #[trigger] ins.table().dom().contains(a) && ins.table()[a] == n
}

/// Why `target` cannot be resolved, checks taken in order; `None` when it can.
pub open spec fn symbol_error(ins: KernelInspector, target: Seq<char>) -> Option<RetisError> {
    if !traceable_ok(ins, target) {
        Some(RetisError::NotTraceable)
    } else if !has_symbol(ins, addr_symbol(target)) {
        Some(RetisError::UnknownSymbol)
    } else {
        match params_of(ins.types(), target) {
            None => Some(RetisError::MissingTypeInfo),
            Some(p) => if p.len() > u32::MAX {
                Some(RetisError::TooManyArguments)
            } else {
                None
            },
        }
    }
}

impl Symbol {
    /// `func` or `group:event`.
    pub open spec fn attach_name(&self) -> Seq<char> {
        match self {
            Symbol::Func { name, .. } => name@,
            Symbol::Event { group, name, .. } => group@ + seq![':'] + name@,
        }
    }

    pub open spec fn spec_addr(&self) -> u64 {
        match self {
            Symbol::Func { addr, .. } => *addr,
            Symbol::Event { addr, .. } => *addr,
        }
    }

    pub open spec fn param_types(&self) -> Seq<Seq<char>> {
        match self {
            Symbol::Func { params, .. } => texts(params@),
            Symbol::Event { params, .. } => texts(params@),
        }
    }

    pub open spec fn is_event(&self) -> bool {
        self is Event
    }

    /// Symbols are only built with an argument count that fits 32 bits.
    pub open spec fn wf(&self) -> bool {
        self.param_types().len() <= u32::MAX
    }

    /// Resolves `target` (`func` or `group:event`) with the inspector.
    pub fn from_name(target: &str, ins: &KernelInspector) -> (r: Result<Symbol, RetisError>)
        ensures
            match symbol_error(*ins, target@) {
                Some(e) => r == Err::<Symbol, RetisError>(e),
                None => r matches Ok(sym) && sym.attach_name() == target@ && sym.wf()
                    && sym.is_event() == (first_index_of(target@, ':') is Some)
                    && ins.table().dom().contains(sym.spec_addr())
                    && ins.table()[sym.spec_addr()] == addr_symbol(target@)
                    && params_of(ins.types(), target@) == Some(sym.param_types()),
            },
    {
        let v = chars_of(target);
        let colon = find_char(&v, ':');
        let traceable = match colon {
            Some(_) => ins.is_event_traceable(target),
            None => ins.is_function_traceable(target),
        };
        if traceable == Some(false) {
            return Err(RetisError::NotTraceable);
        }
        assert(traceable_ok(*ins, target@));
        let addr = match colon {
            Some(i) => {
                assert(i < v.len());
                let mut lookup = String::from_str("__tracepoint_");
                lookup.append(target.substring_char(i + 1, v.len()));
                assert(lookup@ == addr_symbol(target@));
                ins.get_symbol_addr(lookup.as_str())
            },
            None => ins.get_symbol_addr(target),
        };
        let addr = match addr {
            Ok(a) => a,
            Err(e) => {
                assert(!has_symbol(*ins, addr_symbol(target@)));
                return Err(e);
            },
        };
        assert(has_symbol(*ins, addr_symbol(target@)));
        let params = match ins.target_params(target) {
            Some(p) => p,
            None => return Err(RetisError::MissingTypeInfo),
        };
        if params.len() > u32::MAX as usize {
            return Err(RetisError::TooManyArguments);
        }
        match colon {
            Some(i) => {
                let group = slice_string(target, 0, i);
                let name = slice_string(target, i + 1, v.len());
                assert(group@ + seq![':'] + name@ =~= target@);
                Ok(Symbol::Event { group, name, addr, params })
            },
            None => Ok(Symbol::Func { name: String::from_str(target), addr, params }),
        }
    }

    /// Kernel address of the symbol.
    pub fn addr(&self) -> (r: u64)
        ensures
            r == self.spec_addr(),
    {
        match self {
            Symbol::Func { addr, .. } => *addr,
            Symbol::Event { addr, .. } => *addr,
        }
    }

    /// Number of arguments of the target.
    pub fn nargs(&self) -> (r: u32)
        requires
            self.wf(),
        ensures
            r == self.param_types().len(),
    {
        match self {
            Symbol::Func { params, .. } => params.len() as u32,
            Symbol::Event { params, .. } => params.len() as u32,
        }
    }

    /// `func` or `group:event`.
    pub fn name(&self) -> (r: String)
        ensures
            r@ == self.attach_name(),
    {
        match self {
            Symbol::Func { name, .. } => name.clone(),
            Symbol::Event { group, name, .. } => {
                let mut r = group.clone();
                r.append(":");
                proof {
                    reveal_strlit(":");
                }
                r.append(name.as_str());
                assert(r@ =~= group@ + seq![':'] + name@);
                r
            },
        }
    }

    /// Zero-based index of the first argument declared with type `ty`.
    pub fn parameter_offset(&self, ty: &str) -> (r: Option<u32>)
        requires
            self.wf(),
        ensures
            match r {
                Some(i) => i < self.param_types().len() && self.param_types()[i as int] == ty@
                    && forall|j: int| 0 <= j < i ==> self.param_types()[j] != ty@,
                None => forall|j: int| 0 <= j < self.param_types().len() ==> self.param_types()[j] != ty@,
            },
    {
        let params = match self {
            Symbol::Func { params, .. } => params,
            Symbol::Event { params, .. } => params,
        };
        let mut i: usize = 0;
        while i < params.len()
            invariant
                texts(params@) == self.param_types(),
                params@.len() <= u32::MAX,
                i <= params@.len(),
                forall|j: int| 0 <= j < i ==> self.param_types()[j] != ty@,
            decreases params.len() - i,
        {
            if crate::text::same_text(params[i].as_str(), ty) {
                return Some(i as u32);
            }
            i += 1;
        }
        None
    }
}

/// The type of a probe.
#[derive(Debug, Clone, Copy, PartialEq, Eq, Structural)]
pub enum ProbeKind {
    Kprobe,
    Kretprobe,
    RawTracepoint,
    Usdt,
}

/// A userspace statically-defined tracepoint.
#[derive(Debug)]
pub struct UsdtProbe {
    /// The provider name.
    pub provider: String,
    /// The probe's name.
    pub name: String,
    /// The probe's symbol.
    pub ksym: u64,
    /// The target's path.
    pub path: String,
    /// The target's pid.
    pub pid: i32,
}

impl UsdtProbe {
    /// Two USDT probes are the same probe when every field is.
    pub open spec fn same(&self, o: &UsdtProbe) -> bool {
        self.provider@ == o.provider@ && self.name@ == o.name@ && self.ksym == o.ksym
            && self.path@ == o.path@ && self.pid == o.pid
    }

    pub fn equals(&self, o: &UsdtProbe) -> (r: bool)
        ensures
            r == self.same(o),
    {
        crate::text::same_text(self.provider.as_str(), o.provider.as_str())
            && crate::text::same_text(self.name.as_str(), o.name.as_str()) && self.ksym == o.ksym
            && crate::text::same_text(self.path.as_str(), o.path.as_str()) && self.pid == o.pid
    }
}

/// A probe: a probe type and its target.
pub enum Probe {
    Kprobe(Symbol),
    Kretprobe(Symbol),
    RawTracepoint(Symbol),
    Usdt(UsdtProbe),
}

/// What tells two probes apart: the type, the target name and, for USDT, the
/// process.
pub struct ProbeKey {
    pub kind: ProbeKind,
    pub provider: Seq<char>,
    pub name: Seq<char>,
    pub path: Seq<char>,
    pub pid: int,
    pub ksym: int,
}

impl Probe {
    pub open spec fn kind(&self) -> ProbeKind {
        match self {
            Probe::Kprobe(_) => ProbeKind::Kprobe,
            Probe::Kretprobe(_) => ProbeKind::Kretprobe,
            Probe::RawTracepoint(_) => ProbeKind::RawTracepoint,
            Probe::Usdt(_) => ProbeKind::Usdt,
        }
    }

    /// The target name: `func`, `group:event` or `provider:name`.
    pub open spec fn target_name(&self) -> Seq<char> {
        match self {
            Probe::Kprobe(s) => s.attach_name(),
            Probe::Kretprobe(s) => s.attach_name(),
            Probe::RawTracepoint(s) => s.attach_name(),
            Probe::Usdt(u) => u.provider@ + seq![':'] + u.name@,
        }
    }

    pub open spec fn key(&self) -> ProbeKey {
        match self {
            Probe::Usdt(u) => ProbeKey {
                kind: ProbeKind::Usdt,
                provider: u.provider@,
                name: u.name@,
                path: u.path@,
                pid: u.pid as int,
                ksym: u.ksym as int,
            },
            _ => ProbeKey {
                kind: self.kind(),
                provider: Seq::empty(),
                name: self.target_name(),
                path: Seq::empty(),
                pid: 0,
                ksym: 0,
            },
        }
    }

    /// The symbol of a kernel probe.
    pub open spec fn symbol(&self) -> Option<Symbol> {
        match self {
            Probe::Kprobe(s) => Some(*s),
            Probe::Kretprobe(s) => Some(*s),
            Probe::RawTracepoint(s) => Some(*s),
            Probe::Usdt(_) => None,
        }
    }

    pub open spec fn wf(&self) -> bool {
        match self.symbol() {
            Some(s) => s.wf(),
            None => true,
        }
    }

    /// Whether a kernel symbol of this kind (event or not) suits the probe type.
    pub open spec fn kind_accepts(kind: ProbeKind, is_event: bool) -> bool {
        match kind {
            ProbeKind::Kprobe | ProbeKind::Kretprobe => !is_event,
            ProbeKind::RawTracepoint => is_event,
            ProbeKind::Usdt => false,
        }
    }

    /// A kernel-function entry probe.
    pub fn kprobe(symbol: Symbol) -> (r: Result<Probe, RetisError>)
        ensures
            !symbol.is_event() ==> r == Ok::<Probe, RetisError>(Probe::Kprobe(symbol)),
            symbol.is_event() ==> r == Err::<Probe, RetisError>(RetisError::SymbolKindMismatch),
    {
        match symbol {
            Symbol::Func { .. } => Ok(Probe::Kprobe(symbol)),
            Symbol::Event { .. } => Err(RetisError::SymbolKindMismatch),
        }
    }

    /// A kernel-function return probe.
    pub fn kretprobe(symbol: Symbol) -> (r: Result<Probe, RetisError>)
        ensures
            !symbol.is_event() ==> r == Ok::<Probe, RetisError>(Probe::Kretprobe(symbol)),
            symbol.is_event() ==> r == Err::<Probe, RetisError>(RetisError::SymbolKindMismatch),
    {
        match symbol {
            Symbol::Func { .. } => Ok(Probe::Kretprobe(symbol)),
            Symbol::Event { .. } => Err(RetisError::SymbolKindMismatch),
        }
    }

    /// A raw tracepoint probe.
    pub fn raw_tracepoint(symbol: Symbol) -> (r: Result<Probe, RetisError>)
        ensures
            symbol.is_event() ==> r == Ok::<Probe, RetisError>(Probe::RawTracepoint(symbol)),
            !symbol.is_event() ==> r == Err::<Probe, RetisError>(RetisError::SymbolKindMismatch),
    {
        match symbol {
            Symbol::Event { .. } => Ok(Probe::RawTracepoint(symbol)),
            Symbol::Func { .. } => Err(RetisError::SymbolKindMismatch),
        }
    }

    pub fn probe_kind(&self) -> (r: ProbeKind)
        ensures
            r == self.kind(),
    {
        match self {
            Probe::Kprobe(_) => ProbeKind::Kprobe,
            Probe::Kretprobe(_) => ProbeKind::Kretprobe,
            Probe::RawTracepoint(_) => ProbeKind::RawTracepoint,
            Probe::Usdt(_) => ProbeKind::Usdt,
        }
    }

    /// Whether two probes have the same key.
    pub fn same_key(&self, o: &Probe) -> (r: bool)
        ensures
            r == (self.key() == o.key()),
    {
        match (self, o) {
            (Probe::Usdt(a), Probe::Usdt(b)) => {
                let r = crate::text::same_text(a.provider.as_str(), b.provider.as_str())
                    && crate::text::same_text(a.name.as_str(), b.name.as_str())
                    && crate::text::same_text(a.path.as_str(), b.path.as_str()) && a.pid == b.pid
                    && a.ksym == b.ksym;
                r
            },
            (Probe::Usdt(_), _) => false,
            (_, Probe::Usdt(_)) => false,
            _ => {
                if self.probe_kind() != o.probe_kind() {
                    return false;
                }
                let a = self.target();
                let b = o.target();
                crate::text::same_text(a.as_str(), b.as_str())
            },
        }
    }

    /// The target name: `func`, `group:event` or `provider:name`.
    pub fn target(&self) -> (r: String)
        ensures
            r@ == self.target_name(),
    {
        match self {
            Probe::Kprobe(s) => s.name(),
            Probe::Kretprobe(s) => s.name(),
            Probe::RawTracepoint(s) => s.name(),
            Probe::Usdt(u) => {
                let mut r = u.provider.clone();
                r.append(":");
                proof {
                    reveal_strlit(":");
                }
                r.append(u.name.as_str());
                assert(r@ =~= u.provider@ + seq![':'] + u.name@);
                r
            },
        }
    }
}

} // verus!
