//! Parsing of user probe descriptions `[TYPE:]TARGET` into probes.

use vstd::prelude::*;
use vstd::string::*;

use crate::error::RetisError;
use crate::inspector::{glob_regex, matching, params_of, regex_compiles, texts, KernelInspector};
use crate::probe::{addr_symbol, symbol_error, Probe, ProbeKind, Symbol};
use crate::text::{
    chars_of, count_char, count_of, find_char, first_index_of, lemma_first_index_at, lemma_first_index_none,
    same_text, slice_string,
};

verus! {

/// The probe type and target a description names, before any lookup.
pub open spec fn probe_form(text: Seq<char>) -> Option<(ProbeKind, Seq<char>)> {
    match first_index_of(text, ':') {
        None => Some((ProbeKind::Kprobe, text)),
        Some(i) => {
            let ty = text.subrange(0, i);
            let target = text.subrange(i + 1, text.len() as int);
            if ty == "kprobe"@ || ty == "k"@ {
                Some((ProbeKind::Kprobe, target))
            } else if ty == "kretprobe"@ || ty == "kr"@ {
                Some((ProbeKind::Kretprobe, target))
            } else if ty == "raw_tracepoint"@ || ty == "tp"@ {
                Some((ProbeKind::RawTracepoint, target))
            } else if count_of(text, ':') == 1 {
                Some((ProbeKind::RawTracepoint, text))
            } else {
                None
            }
        },
    }
}

/// The probe type a valid description names.
pub open spec fn form_kind(text: Seq<char>) -> ProbeKind {
    match probe_form(text) {
        Some((k, _)) => k,
        None => ProbeKind::Kprobe,
    }
}

/// The target a valid description names.
pub open spec fn form_target(text: Seq<char>) -> Seq<char> {
    match probe_form(text) {
        Some((_, t)) => t,
        None => Seq::empty(),
    }
}

/// Whether a target has an empty part: it is empty, or a `group:event`
/// target has an empty group or event.
pub open spec fn has_empty_segment(kind: ProbeKind, target: Seq<char>) -> bool {
    target.len() == 0 || (kind == ProbeKind::RawTracepoint && match first_index_of(target, ':') {
        Some(i) => i == 0 || i + 1 == target.len(),
        None => false,
    })
}

/// The target names a target stands for: the traceable entries its wildcards
/// match, or the target itself.
pub open spec fn target_names(ins: KernelInspector, kind: ProbeKind, target: Seq<char>) -> Result<
    Seq<Seq<char>>,
    RetisError,
> {
    if first_index_of(target, '*') is Some {
        let list = if kind == ProbeKind::RawTracepoint { ins.events() } else { ins.funcs() };
        match list {
            None => Err(
                if kind == ProbeKind::RawTracepoint {
                    RetisError::NoTraceableEvents
                } else {
                    RetisError::NoTraceableFunctions
                },
            ),
            Some(l) => if regex_compiles(glob_regex(target)) {
                Ok(matching(l, glob_regex(target)))
            } else {
                Err(RetisError::InvalidPattern)
            },
        }
    } else {
        Ok(seq![target])
    }
}

/// The first failure met resolving `names` in order into symbols of the kind
/// the probe type needs.
pub open spec fn resolve_error(ins: KernelInspector, kind: ProbeKind, names: Seq<Seq<char>>) -> Option<
    RetisError,
>
    decreases names.len(),
{
    if names.len() == 0 {
        None
    } else {
        match symbol_error(ins, names[0]) {
            Some(e) => Some(e),
            None => if Probe::kind_accepts(kind, first_index_of(names[0], ':') is Some) {
                resolve_error(ins, kind, names.drop_first())
            } else {
                Some(RetisError::SymbolKindMismatch)
            },
        }
    }
}

/// Why a description fails, or `None` when it yields probes.
pub open spec fn parse_error(ins: KernelInspector, text: Seq<char>) -> Option<RetisError> {
    match probe_form(text) {
        None => Some(RetisError::InvalidProbeType),
        Some((kind, target)) => if has_empty_segment(kind, target) {
            Some(RetisError::EmptySegment)
        } else {
            match target_names(ins, kind, target) {
                Err(e) => Some(e),
                Ok(names) => if names.len() == 0 {
                    Some(RetisError::NoMatch)
                } else {
                    resolve_error(ins, kind, names)
                },
            }
        },
    }
}

/// The names a valid description resolves to.
pub open spec fn parse_names(ins: KernelInspector, text: Seq<char>) -> Seq<Seq<char>> {
    match probe_form(text) {
        Some((kind, target)) => match target_names(ins, kind, target) {
            Ok(names) => names,
            Err(_) => Seq::empty(),
        },
        None => Seq::empty(),
    }
}

/// Whether a symbol is what the inspector resolves its name to.
pub open spec fn resolved(ins: KernelInspector, s: Symbol) -> bool {
    &&& ins.table().dom().contains(s.spec_addr())
    &&& ins.table()[s.spec_addr()] == addr_symbol(s.attach_name())
    &&& params_of(ins.types(), s.attach_name()) == Some(s.param_types())
}

/// Whether the filter keeps every symbol.
pub open spec fn keeps_all<F: Fn(&Symbol) -> bool>(filter: F) -> bool {
    forall|s: &Symbol, b: bool| #[trigger] filter.ensures((s,), b) ==> b
}

fn probe_type(text: &str) -> (r: Option<(ProbeKind, String)>)
    ensures
        match probe_form(text@) {
            Some((k, t)) => r matches Some((rk, rt)) && rk == k && rt@ == t,
            None => r is None,
        },
{
    let v = chars_of(text);
    match find_char(&v, ':') {
        None => Some((ProbeKind::Kprobe, String::from_str(text))),
        Some(i) => {
            let ty = slice_string(text, 0, i);
            assert(i < v.len());
            let target = slice_string(text, i + 1, v.len());
            if same_text(ty.as_str(), "kprobe") || same_text(ty.as_str(), "k") {
                Some((ProbeKind::Kprobe, target))
            } else if same_text(ty.as_str(), "kretprobe") || same_text(ty.as_str(), "kr") {
                Some((ProbeKind::Kretprobe, target))
            } else if same_text(ty.as_str(), "raw_tracepoint") || same_text(ty.as_str(), "tp") {
                Some((ProbeKind::RawTracepoint, target))
            } else if count_char(&v, ':') == 1 {
                Some((ProbeKind::RawTracepoint, String::from_str(text)))
            } else {
                None
            }
        },
    }
}

fn empty_segment(kind: ProbeKind, target: &str) -> (r: bool)
    ensures
        r == has_empty_segment(kind, target@),
{
    let v = chars_of(target);
    if v.len() == 0 {
        return true;
    }
    if kind != ProbeKind::RawTracepoint {
        return false;
    }
    match find_char(&v, ':') {
        Some(i) => i == 0 || i + 1 == v.len(),
        None => false,
    }
}

/// Parses a probe description `[TYPE:]TARGET` into the probes it names, keeping
/// those whose symbol the filter accepts.
///
/// `TYPE` is `kprobe`/`k`, `kretprobe`/`kr` or `raw_tracepoint`/`tp`; without
/// it a target is a function, unless an unknown `TYPE` leaves a single `:`, in
/// which case the whole text is a `group:event` tracepoint. Wildcards (`*`) in
/// the target expand over the traceable functions or events.
pub fn parse_probe<F: Fn(&Symbol) -> bool>(probe: &str, ins: &KernelInspector, filter: F) -> (r: Result<
    Vec<Probe>,
    RetisError,
>)
    requires
        forall|s: &Symbol| #[trigger] filter.requires((s,)),
    ensures
        match parse_error(*ins, probe@) {
            Some(e) => r == Err::<Vec<Probe>, RetisError>(e),
            None => r matches Ok(v) && v@.len() <= parse_names(*ins, probe@).len()
                && (forall|k: int| 0 <= k < v@.len() ==> {
                    &&& (#[trigger] v@[k]).kind() == form_kind(probe@)
                    &&& v@[k].wf()
                    &&& parse_names(*ins, probe@).contains(v@[k].target_name())
                    &&& v@[k].symbol() matches Some(sym) && filter.ensures((&sym,), true) && resolved(*ins, sym)
                })
                && (keeps_all(filter) ==> v@.len() == parse_names(*ins, probe@).len()
                    && forall|k: int| 0 <= k < v@.len() ==> (#[trigger] v@[k]).target_name()
                        == parse_names(*ins, probe@)[k]),
        },
{
    let (kind, target) = match probe_type(probe) {
        Some(f) => f,
        None => return Err(RetisError::InvalidProbeType),
    };
    if empty_segment(kind, target.as_str()) {
        return Err(RetisError::EmptySegment);
    }
    let tv = chars_of(target.as_str());
    let names: Vec<String> = match find_char(&tv, '*') {
        Some(_) => {
            let m = if kind == ProbeKind::RawTracepoint {
                ins.matching_events(target.as_str())
            } else {
                ins.matching_functions(target.as_str())
            };
            match m {
                Ok(l) => l,
                Err(e) => return Err(e),
            }
        },
        None => {
            let mut l: Vec<String> = Vec::new();
            l.push(target);
            assert(texts(l@) =~= seq![form_target(probe@)]);
            l
        },
    };
    let ghost all = texts(names@);
    assert(all == parse_names(*ins, probe@));
    if names.len() == 0 {
        return Err(RetisError::NoMatch);
    }
    assert(all.subrange(0, all.len() as int) =~= all);
    assert(parse_error(*ins, probe@) == resolve_error(*ins, kind, all));
    let mut probes: Vec<Probe> = Vec::new();
    let mut i: usize = 0;
    while i < names.len()
        invariant
            all == texts(names@),
            all == parse_names(*ins, probe@),
            probe_form(probe@) is Some,
            kind == form_kind(probe@),
            parse_error(*ins, probe@) == resolve_error(*ins, kind, all),
            i <= names@.len(),
            resolve_error(*ins, kind, all) == resolve_error(*ins, kind, all.subrange(i as int, all.len() as int)),
            forall|s: &Symbol| #[trigger] filter.requires((s,)),
            probes@.len() <= i,
            forall|k: int| 0 <= k < probes@.len() ==> {
                &&& (#[trigger] probes@[k]).kind() == kind
                &&& probes@[k].wf()
                &&& all.contains(probes@[k].target_name())
                &&& probes@[k].symbol() matches Some(sym) && filter.ensures((&sym,), true) && resolved(*ins, sym)
            },
            keeps_all(filter) ==> probes@.len() == i && forall|k: int| 0 <= k < probes@.len()
                ==> (#[trigger] probes@[k]).target_name() == all[k],
        decreases names.len() - i,
    {
        let ghost rest = all.subrange(i as int, all.len() as int);
        assert(rest.drop_first() =~= all.subrange(i + 1, all.len() as int));
        assert(rest[0] == names@[i as int]@);
        let symbol = match Symbol::from_name(names[i].as_str(), ins) {
            Ok(s) => s,
            Err(e) => return Err(e),
        };
        let is_event = match &symbol {
            Symbol::Event { .. } => true,
            Symbol::Func { .. } => false,
        };
        assert(is_event == (first_index_of(rest[0], ':') is Some));
        let accepted = match kind {
            ProbeKind::Kprobe | ProbeKind::Kretprobe => !is_event,
            ProbeKind::RawTracepoint => is_event,
            ProbeKind::Usdt => false,
        };
        if !accepted {
            return Err(RetisError::SymbolKindMismatch);
        }
        let ghost sym = symbol;
        let keep = filter(&symbol);
        assert(resolved(*ins, sym));
        if keep {
            let p = match kind {
                ProbeKind::Kprobe => Probe::Kprobe(symbol),
                ProbeKind::Kretprobe => Probe::Kretprobe(symbol),
                _ => Probe::RawTracepoint(symbol),
            };
            assert(p.target_name() == all[i as int]);
            assert(p.symbol() == Some(sym));
            let ghost before = probes@;
            probes.push(p);
            assert(probes@[probes@.len() - 1] == p);
        }
        i += 1;
    }
    Ok(probes)
}

/// A description with an empty part (`""`, `"kprobe:"`, `"tp:"`,
/// `"tp:skb:"`, `":kfree_skb_reason"`) fails, whatever the inspector holds.
pub proof fn lemma_empty_segment_fails(ins: KernelInspector, text: Seq<char>)
    requires
        probe_form(text) matches Some((k, t)) && has_empty_segment(k, t),
    ensures
        parse_error(ins, text) == Some(RetisError::EmptySegment),
{
}

/// A description that does not fail names at least one target; with a filter
/// keeping every symbol it yields one probe per name.
pub proof fn lemma_valid_input_names_targets(ins: KernelInspector, text: Seq<char>)
    requires
        parse_error(ins, text) is None,
    ensures
        parse_names(ins, text).len() > 0,
{
}

/// The empty-part descriptions of the probe syntax are all rejected.
pub proof fn lemma_listed_empty_inputs_fail(ins: KernelInspector)
    ensures
        parse_error(ins, ""@) is Some,
        parse_error(ins, "kprobe:"@) is Some,
        parse_error(ins, "tp:"@) is Some,
        parse_error(ins, "tp:skb:"@) is Some,
        parse_error(ins, ":kfree_skb_reason"@) is Some,
{
    reveal_strlit("");
    reveal_strlit("kprobe:");
    reveal_strlit("kprobe");
    reveal_strlit("k");
    reveal_strlit("tp:");
    reveal_strlit("tp");
    reveal_strlit("tp:skb:");
    reveal_strlit(":kfree_skb_reason");
    reveal_strlit("kretprobe");
    reveal_strlit("kr");
    reveal_strlit("raw_tracepoint");
    lemma_first_index_none(""@, ':');
    lemma_first_index_at("kprobe:"@, ':', 6);
    assert("kprobe:"@.subrange(0, 6) =~= "kprobe"@);
    lemma_first_index_at("tp:"@, ':', 2);
    assert("tp:"@.subrange(0, 2) =~= "tp"@);
    lemma_first_index_at("tp:skb:"@, ':', 2);
    assert("tp:skb:"@.subrange(0, 2) =~= "tp"@);
    let t = "tp:skb:"@.subrange(3, 7);
    assert(t =~= seq!['s', 'k', 'b', ':']);
    lemma_first_index_at(t, ':', 3);
    assert("tp:skb:"@.len() == 7);
    assert("tp"@ != "kprobe"@ && "tp"@ != "k"@ && "tp"@ != "kretprobe"@);
    assert("tp"@[0] != "kr"@[0]);
    assert(probe_form("tp:skb:"@) == Some((ProbeKind::RawTracepoint, t)));
    assert(has_empty_segment(ProbeKind::RawTracepoint, t));
    let s = ":kfree_skb_reason"@;
    lemma_first_index_at(s, ':', 0);
    assert(s.subrange(0, 0).len() == 0);
    lemma_count_one_colon(s);
}

proof fn lemma_count_one_colon(s: Seq<char>)
    requires
        s =~= ":kfree_skb_reason"@,
        s.len() == 17,
    ensures
        count_of(s, ':') == 1,
{
    reveal_strlit(":kfree_skb_reason");
    reveal_with_fuel(count_of, 18);
    assert(s.drop_last() =~= s.subrange(0, 16));
}

} // verus!
