//! Probe manager: registry of probes, hooks, filters, options and shared maps,
//! with the probe and hook caps, and the plan that attaching follows.

use vstd::prelude::*;

use crate::error::RetisError;
use crate::hook::{map_names, Hook, MapFds};
use crate::inspect::{inspect_symbol, offset_is, ProbeOffsets};
use crate::inspector::listed;
use crate::probe::{Probe, ProbeKey, ProbeKind, Symbol};

verus! {

/// Default total number of probes the manager accepts.
pub const PROBE_MAX: usize = 1024;

/// Default number of hooks, generic and targeted together, one probe accepts.
pub const HOOK_MAX: usize = 10;

/// Global options changing how every probe behaves.
#[derive(Debug, Clone, Copy, PartialEq, Eq, Structural)]
pub enum ProbeOption {
    /// Capture the kernel stack trace.
    StackTrace,
}

/// The kind of a filter; one filter of each kind is accepted.
#[derive(Debug, Clone, Copy, PartialEq, Eq, Structural)]
pub enum FilterKind {
    Packet,
    Meta,
}

/// A filter program attached to all probes.
pub enum Filter {
    /// Packet filter, as compiled bytecode.
    Packet(Vec<u8>),
    /// Meta filter, as compiled bytecode.
    Meta(Vec<u8>),
}

impl Filter {
    pub open spec fn kind(&self) -> FilterKind {
        match self {
            Filter::Packet(_) => FilterKind::Packet,
            Filter::Meta(_) => FilterKind::Meta,
        }
    }

    pub fn filter_kind(&self) -> (r: FilterKind)
        ensures
            r == self.kind(),
    {
        match self {
            Filter::Packet(_) => FilterKind::Packet,
            Filter::Meta(_) => FilterKind::Meta,
        }
    }
}

/// What identifies a hook: its program and its own reused maps.
pub type HookView = (Seq<u8>, Seq<(Seq<char>, i32)>);

pub open spec fn hook_view(h: Hook) -> HookView {
    (h.bpf_prog@, h.maps.view())
}

/// A targeted set: one probe, its own hooks, and whether generic hooks join.
pub struct SetView {
    pub key: ProbeKey,
    pub hooks: Seq<HookView>,
    pub generic_ok: bool,
}

/// The registry as the contracts see it.
pub struct ManagerView {
    pub generic: Seq<ProbeKey>,
    pub generic_hooks: Seq<HookView>,
    pub targeted: Seq<SetView>,
    pub options: Seq<ProbeOption>,
    pub filters: Seq<FilterKind>,
    pub maps: Seq<(Seq<char>, i32)>,
    /// Total number of probes accepted.
    pub probe_max: nat,
    /// Number of hooks one probe accepts.
    pub hook_max: nat,
}

/// Index of the targeted set of `k`.
pub open spec fn set_index(t: Seq<SetView>, k: ProbeKey) -> Option<int>
    decreases t.len(),
{
    if t.len() == 0 {
        None
    } else {
        match set_index(t.drop_last(), k) {
            Some(i) => Some(i),
            None => if t.last().key == k {
                Some(t.len() - 1)
            } else {
                None
            },
        }
    }
}

/// Index of `k` in a list of keys.
pub open spec fn key_index(s: Seq<ProbeKey>, k: ProbeKey) -> Option<int>
    decreases s.len(),
{
    if s.len() == 0 {
        None
    } else {
        match key_index(s.drop_last(), k) {
            Some(i) => Some(i),
            None => if s.last() == k {
                Some(s.len() - 1)
            } else {
                None
            },
        }
    }
}

/// `s` without `k`.
pub open spec fn remove_key(s: Seq<ProbeKey>, k: ProbeKey) -> Seq<ProbeKey> {
    match key_index(s, k) {
        Some(i) => s.remove(i),
        None => s,
    }
}

/// Largest hook count of the targeted sets.
pub open spec fn max_hooks(t: Seq<SetView>) -> nat
    decreases t.len(),
{
    if t.len() == 0 {
        0
    } else {
        let m = max_hooks(t.drop_last());
        if t.last().hooks.len() > m {
            t.last().hooks.len()
        } else {
            m
        }
    }
}

impl ManagerView {
    /// Number of registered probes.
    pub open spec fn total(self) -> nat {
        self.generic.len() + self.targeted.len()
    }

    /// Whether `k` is registered, in the generic set or a targeted one.
    pub open spec fn registered(self, k: ProbeKey) -> bool {
        self.generic.contains(k) || set_index(self.targeted, k) is Some
    }

    /// Each probe is registered once; the caps hold.
    pub open spec fn wf(self) -> bool {
        &&& forall|i: int, j: int| 0 <= i < j < self.generic.len() ==> self.generic[i] != self.generic[j]
        &&& forall|i: int, j: int|
            0 <= i < j < self.targeted.len() ==> self.targeted[i].key != self.targeted[j].key
        &&& forall|i: int, j: int|
            0 <= i < self.generic.len() && 0 <= j < self.targeted.len() ==> self.generic[i]
                != self.targeted[j].key
        &&& self.total() <= self.probe_max
        &&& self.generic_hooks.len() <= self.hook_max
        &&& forall|j: int| 0 <= j < self.targeted.len() ==> self.targeted[j].hooks.len() <= self.hook_max
    }
}

/// Outcome of registering a probe of key `k`.
pub open spec fn spec_add_probe(v: ManagerView, k: ProbeKey) -> (ManagerView, Option<RetisError>) {
    if set_index(v.targeted, k) is Some || v.generic.contains(k) {
        (v, None)
    } else if v.total() >= v.probe_max {
        (v, Some(RetisError::ProbeCapacityReached))
    } else {
        (ManagerView { generic: v.generic.push(k), ..v }, None)
    }
}

/// Outcome of registering a hook `h` for the probe of key `k`.
pub open spec fn spec_register_hook_to(v: ManagerView, h: HookView, k: ProbeKey) -> (
    ManagerView,
    Option<RetisError>,
) {
    if v.generic_hooks.len() >= v.hook_max {
        (v, Some(RetisError::HookCapacityReached))
    } else {
        match set_index(v.targeted, k) {
            Some(i) => if k.kind == ProbeKind::Usdt {
                (v, Some(RetisError::UsdtSingleHook))
            } else if v.generic_hooks.len() + v.targeted[i].hooks.len() >= v.hook_max {
                (v, Some(RetisError::HookCapacityReached))
            } else {
                (
                    ManagerView {
                        targeted: v.targeted.update(
                            i,
                            SetView { hooks: v.targeted[i].hooks.push(h), ..v.targeted[i] },
                        ),
                        ..v
                    },
                    None,
                )
            },
            None => {
                let g = remove_key(v.generic, k);
                if g.len() + v.targeted.len() >= v.probe_max {
                    (v, Some(RetisError::ProbeCapacityReached))
                } else {
                    (
                        ManagerView {
                            generic: g,
                            targeted: v.targeted.push(
                                SetView { key: k, hooks: seq![h], generic_ok: k.kind != ProbeKind::Usdt },
                            ),
                            ..v
                        },
                        None,
                    )
                }
            },
        }
    }
}

/// Outcome of registering a generic hook `h`.
pub open spec fn spec_register_kernel_hook(v: ManagerView, h: HookView) -> (ManagerView, Option<RetisError>) {
    if v.generic_hooks.len() + max_hooks(v.targeted) >= v.hook_max {
        (v, Some(RetisError::HookCapacityReached))
    } else {
        (ManagerView { generic_hooks: v.generic_hooks.push(h), ..v }, None)
    }
}

/// A targeted set of probes sharing hooks.
pub struct ProbeSet {
    probe: Probe,
    hooks: Vec<Hook>,
    supports_generic_hooks: bool,
}

/// Registry of probes, hooks, filters, options and shared maps.
pub struct ProbeManager {
    generic_probes: Vec<Probe>,
    generic_hooks: Vec<Hook>,
    filters: Vec<Filter>,
    targeted_probes: Vec<ProbeSet>,
    global_probes_options: Vec<ProbeOption>,
    maps: MapFds,
    probe_max: usize,
    hook_max: usize,
}

pub closed spec fn set_view(s: ProbeSet) -> SetView {
    SetView {
        key: s.probe.key(),
        hooks: s.hooks@.map_values(|h: Hook| hook_view(h)),
        generic_ok: s.supports_generic_hooks,
    }
}

impl ProbeSet {
    pub closed spec fn spec_probe(&self) -> Probe {
        self.probe
    }
}

impl ProbeManager {
    pub closed spec fn view(&self) -> ManagerView {
        ManagerView {
            generic: self.generic_probes@.map_values(|p: Probe| p.key()),
            generic_hooks: self.generic_hooks@.map_values(|h: Hook| hook_view(h)),
            targeted: self.targeted_probes@.map_values(|s: ProbeSet| set_view(s)),
            options: self.global_probes_options@,
            filters: self.filters@.map_values(|f: Filter| f.kind()),
            maps: self.maps.view(),
            probe_max: self.probe_max as nat,
            hook_max: self.hook_max as nat,
        }
    }

    /// The registry is consistent and every stored probe is well formed.
    pub closed spec fn wf(&self) -> bool {
        &&& self.view().wf()
        &&& forall|i: int| 0 <= i < self.generic_probes@.len() ==> (#[trigger] self.generic_probes@[i]).wf()
        &&& forall|i: int|
            0 <= i < self.targeted_probes@.len() ==> (#[trigger] self.targeted_probes@[i]).probe.wf()
    }

    /// The generic probe at `i`.
    pub closed spec fn generic_probe(&self, i: int) -> Probe {
        self.generic_probes@[i]
    }

    /// The probe of targeted set `j`.
    pub closed spec fn targeted_probe(&self, j: int) -> Probe {
        self.targeted_probes@[j].probe
    }

    /// A registry with the default caps.
    pub fn new() -> (r: ProbeManager)
        ensures
            r.wf(),
            r.view().generic.len() == 0,
            r.view().generic_hooks.len() == 0,
            r.view().targeted.len() == 0,
            r.view().options.len() == 0,
            r.view().filters.len() == 0,
            r.view().maps.len() == 0,
            r.view().probe_max == PROBE_MAX,
            r.view().hook_max == HOOK_MAX,
    {
        Self::with_limits(PROBE_MAX, HOOK_MAX)
    }

    /// A registry accepting `probe_max` probes and `hook_max` hooks per probe.
    pub fn with_limits(probe_max: usize, hook_max: usize) -> (r: ProbeManager)
        ensures
            r.wf(),
            r.view().generic.len() == 0,
            r.view().generic_hooks.len() == 0,
            r.view().targeted.len() == 0,
            r.view().options.len() == 0,
            r.view().filters.len() == 0,
            r.view().maps.len() == 0,
            r.view().probe_max == probe_max,
            r.view().hook_max == hook_max,
    {
        let r = ProbeManager {
            generic_probes: Vec::new(),
            generic_hooks: Vec::new(),
            filters: Vec::new(),
            targeted_probes: Vec::new(),
            global_probes_options: Vec::new(),
            maps: MapFds::new(),
            probe_max,
            hook_max,
        };
        assert(r.view().generic =~= Seq::<ProbeKey>::empty());
        assert(r.view().targeted =~= Seq::<SetView>::empty());
        r
    }
}

pub proof fn lemma_key_index(s: Seq<ProbeKey>, k: ProbeKey)
    ensures
        (key_index(s, k) is Some) == s.contains(k),
        key_index(s, k) matches Some(i) ==> 0 <= i < s.len() && s[i] == k,
    decreases s.len(),
{
    if s.len() > 0 {
        lemma_key_index(s.drop_last(), k);
        if s.drop_last().contains(k) {
            let j = choose|j: int| 0 <= j < s.drop_last().len() && s.drop_last()[j] == k;
            assert(s[j] == k);
        }
        if s.contains(k) && !s.drop_last().contains(k) {
            let j = choose|j: int| 0 <= j < s.len() && s[j] == k;
            if j < s.len() - 1 {
                assert(s.drop_last()[j] == k);
            }
        }
    }
}

pub proof fn lemma_set_index(t: Seq<SetView>, k: ProbeKey)
    ensures
        set_index(t, k) matches Some(i) ==> 0 <= i < t.len() && t[i].key == k,
        set_index(t, k) is None ==> forall|j: int| 0 <= j < t.len() ==> t[j].key != k,
    decreases t.len(),
{
    if t.len() > 0 {
        lemma_set_index(t.drop_last(), k);
        assert forall|j: int| 0 <= j < t.len() - 1 implies t[j] == t.drop_last()[j] by {}
    }
}

impl ProbeManager {
    fn find_targeted(&self, probe: &Probe) -> (r: Option<usize>)
        ensures
            match set_index(self.view().targeted, probe.key()) {
                Some(i) => r == Some(i as usize),
                None => r is None,
            },
    {
        let ghost t = self.view().targeted;
        let mut i: usize = 0;
        while i < self.targeted_probes.len()
            invariant
                t == self.view().targeted,
                i <= t.len(),
                set_index(t.subrange(0, i as int), probe.key()) is None,
            decreases self.targeted_probes.len() - i,
        {
            assert(t.subrange(0, i + 1).drop_last() =~= t.subrange(0, i as int));
            if self.targeted_probes[i].probe.same_key(probe) {
                assert(t.subrange(0, i + 1).last().key == probe.key());
                assert(set_index(t.subrange(0, i + 1), probe.key()) == Some(i as int));
                proof {
                    lemma_set_index_prefix(t, probe.key(), i as int + 1);
                }
                return Some(i);
            }
            i += 1;
        }
        assert(t.subrange(0, t.len() as int) =~= t);
        None
    }

    fn find_generic(&self, probe: &Probe) -> (r: Option<usize>)
        ensures
            match key_index(self.view().generic, probe.key()) {
                Some(i) => r == Some(i as usize),
                None => r is None,
            },
    {
        let ghost g = self.view().generic;
        let mut i: usize = 0;
        while i < self.generic_probes.len()
            invariant
                g == self.view().generic,
                i <= g.len(),
                key_index(g.subrange(0, i as int), probe.key()) is None,
            decreases self.generic_probes.len() - i,
        {
            assert(g.subrange(0, i + 1).drop_last() =~= g.subrange(0, i as int));
            if self.generic_probes[i].same_key(probe) {
                assert(key_index(g.subrange(0, i + 1), probe.key()) == Some(i as int));
                proof {
                    lemma_key_index_prefix(g, probe.key(), i as int + 1);
                }
                return Some(i);
            }
            i += 1;
        }
        assert(g.subrange(0, g.len() as int) =~= g);
        None
    }
}

proof fn lemma_set_index_prefix(t: Seq<SetView>, k: ProbeKey, n: int)
    requires
        0 <= n <= t.len(),
        set_index(t.subrange(0, n), k) is Some,
    ensures
        set_index(t, k) == set_index(t.subrange(0, n), k),
    decreases t.len() - n,
{
    if n < t.len() {
        assert(t.subrange(0, n + 1).drop_last() =~= t.subrange(0, n));
        lemma_set_index_prefix(t, k, n + 1);
    } else {
        assert(t.subrange(0, n) =~= t);
    }
}

proof fn lemma_key_index_prefix(s: Seq<ProbeKey>, k: ProbeKey, n: int)
    requires
        0 <= n <= s.len(),
        key_index(s.subrange(0, n), k) is Some,
    ensures
        key_index(s, k) == key_index(s.subrange(0, n), k),
    decreases s.len() - n,
{
    if n < s.len() {
        assert(s.subrange(0, n + 1).drop_last() =~= s.subrange(0, n));
        lemma_key_index_prefix(s, k, n + 1);
    } else {
        assert(s.subrange(0, n) =~= s);
    }
}

/// The result an optional error stands for.
pub open spec fn outcome(e: Option<RetisError>) -> Result<(), RetisError> {
    match e {
        Some(e) => Err(e),
        None => Ok(()),
    }
}

impl ProbeManager {
    /// Set a probe option for later fixup during the attach phase. A given
    /// option can only be set once.
    pub fn set_probe_opt(&mut self, opt: ProbeOption) -> (r: Result<(), RetisError>)
        requires
            old(self).wf(),
        ensures
            final(self).wf(),
            old(self).view().options.contains(opt) ==> r == Err::<(), RetisError>(RetisError::OptionAlreadySet)
                && final(self).view() == old(self).view(),
            !old(self).view().options.contains(opt) ==> r is Ok && final(self).view() == (ManagerView {
                options: old(self).view().options.push(opt),
                ..old(self).view()
            }),
    {
        let mut i: usize = 0;
        while i < self.global_probes_options.len()
            invariant
                i <= self.global_probes_options@.len(),
                self.wf(),
                self.view() == old(self).view(),
                forall|j: int| 0 <= j < i ==> self.global_probes_options@[j] != opt,
            decreases self.global_probes_options.len() - i,
        {
            if self.global_probes_options[i] == opt {
                assert(self.view().options[i as int] == opt);
                return Err(RetisError::OptionAlreadySet);
            }
            i += 1;
        }
        self.global_probes_options.push(opt);
        assert(self.view().options =~= old(self).view().options.push(opt));
        assert(self.view() =~= (ManagerView { options: old(self).view().options.push(opt), ..old(self).view() }));
        Ok(())
    }

    /// Request to reuse a map fd in every program.
    pub fn reuse_map(&mut self, name: &str, fd: i32) -> (r: Result<(), RetisError>)
        requires
            old(self).wf(),
        ensures
            final(self).wf(),
            listed(map_names(old(self).view().maps), name@) ==> r == Err::<(), RetisError>(
                RetisError::MapAlreadyReused,
            ) && final(self).view() == old(self).view(),
            !listed(map_names(old(self).view().maps), name@) ==> r is Ok && final(self).view() == (
            ManagerView { maps: old(self).view().maps.push((name@, fd)), ..old(self).view() }),
    {
        let r = self.maps.insert(name, fd);
        assert(self.view() =~= (ManagerView { maps: self.maps.view(), ..old(self).view() }));
        r
    }

    /// Request a filter to be attached to all probes; one per kind.
    pub fn register_filter(&mut self, filter: Filter) -> (r: Result<(), RetisError>)
        requires
            old(self).wf(),
        ensures
            final(self).wf(),
            old(self).view().filters.contains(filter.kind()) ==> r == Err::<(), RetisError>(
                RetisError::FilterAlreadyRegistered,
            ) && final(self).view() == old(self).view(),
            !old(self).view().filters.contains(filter.kind()) ==> r is Ok && final(self).view() == (
            ManagerView { filters: old(self).view().filters.push(filter.kind()), ..old(self).view() }),
    {
        let k = filter.filter_kind();
        let mut i: usize = 0;
        while i < self.filters.len()
            invariant
                i <= self.filters@.len(),
                k == filter.kind(),
                self.wf(),
                self.view() == old(self).view(),
                forall|j: int| 0 <= j < i ==> self.view().filters[j] != k,
            decreases self.filters.len() - i,
        {
            if self.filters[i].filter_kind() == k {
                assert(self.view().filters[i as int] == k);
                assert(old(self).view().filters.contains(filter.kind()));
                return Err(RetisError::FilterAlreadyRegistered);
            }
            i += 1;
        }
        self.filters.push(filter);
        assert(self.view().filters =~= old(self).view().filters.push(k));
        assert(self.view() =~= (ManagerView { filters: old(self).view().filters.push(k), ..old(self).view() }));
        Ok(())
    }

    /// Request to attach a probe; it joins the generic set unless a targeted
    /// set already holds it.
    pub fn add_probe(&mut self, probe: Probe) -> (r: Result<(), RetisError>)
        requires
            old(self).wf(),
            probe.wf(),
        ensures
            final(self).wf(),
            final(self).view() == spec_add_probe(old(self).view(), probe.key()).0,
            r == outcome(spec_add_probe(old(self).view(), probe.key()).1),
    {
        let ghost v = self.view();
        proof {
            lemma_key_index(v.generic, probe.key());
        }
        if self.find_targeted(&probe).is_some() {
            return Ok(());
        }
        if self.find_generic(&probe).is_some() {
            return Ok(());
        }
        self.check_probe_max()?;
        proof {
            lemma_set_index(v.targeted, probe.key());
        }
        self.generic_probes.push(probe);
        assert(self.view().generic =~= v.generic.push(probe.key()));
        assert(self.view() =~= (ManagerView { generic: v.generic.push(probe.key()), ..v }));
        assert forall|i: int| 0 <= i < self.generic_probes@.len() implies (#[trigger] self.generic_probes@[i]).wf() by {
            if i < v.generic.len() {
                assert(self.generic_probes@[i] == old(self).generic_probes@[i]);
            }
        }
        Ok(())
    }

    fn check_probe_max(&self) -> (r: Result<(), RetisError>)
        requires
            self.wf(),
        ensures
            r == (if self.view().total() >= self.view().probe_max {
                Err::<(), RetisError>(RetisError::ProbeCapacityReached)
            } else {
                Ok(())
            }),
    {
        let size = self.generic_probes.len() + self.targeted_probes.len();
        if size >= self.probe_max {
            return Err(RetisError::ProbeCapacityReached);
        }
        Ok(())
    }
}

impl ProbeManager {
    /// Request a hook to be attached to all probes supporting generic hooks.
    pub fn register_kernel_hook(&mut self, hook: Hook) -> (r: Result<(), RetisError>)
        requires
            old(self).wf(),
        ensures
            final(self).wf(),
            final(self).view() == spec_register_kernel_hook(old(self).view(), hook_view(hook)).0,
            r == outcome(spec_register_kernel_hook(old(self).view(), hook_view(hook)).1),
    {
        let ghost v = self.view();
        let mut max: usize = 0;
        let mut i: usize = 0;
        while i < self.targeted_probes.len()
            invariant
                v == self.view(),
                self.wf(),
                i <= v.targeted.len(),
                max == max_hooks(v.targeted.subrange(0, i as int)),
                max <= self.hook_max,
            decreases self.targeted_probes.len() - i,
        {
            assert(v.targeted.subrange(0, i + 1).drop_last() =~= v.targeted.subrange(0, i as int));
            assert(v.targeted[i as int].hooks.len() == self.targeted_probes[i as int].hooks@.len());
            if max < self.targeted_probes[i].hooks.len() {
                max = self.targeted_probes[i].hooks.len();
            }
            i += 1;
        }
        assert(v.targeted.subrange(0, v.targeted.len() as int) =~= v.targeted);
        if max >= self.hook_max - self.generic_hooks.len() {
            return Err(RetisError::HookCapacityReached);
        }
        self.generic_hooks.push(hook);
        assert(self.view().generic_hooks =~= v.generic_hooks.push(hook_view(hook)));
        assert(self.view() =~= (ManagerView { generic_hooks: v.generic_hooks.push(hook_view(hook)), ..v }));
        Ok(())
    }

    /// Request a hook to be attached to a specific probe. The probe leaves the
    /// generic set and gets (or joins) a targeted set of its own.
    pub fn register_hook_to(&mut self, hook: Hook, probe: Probe) -> (r: Result<(), RetisError>)
        requires
            old(self).wf(),
            probe.wf(),
        ensures
            final(self).wf(),
            final(self).view() == spec_register_hook_to(old(self).view(), hook_view(hook), probe.key()).0,
            r == outcome(spec_register_hook_to(old(self).view(), hook_view(hook), probe.key()).1),
    {
        let ghost v = self.view();
        let ghost k = probe.key();
        if self.generic_hooks.len() >= self.hook_max {
            return Err(RetisError::HookCapacityReached);
        }
        proof {
            lemma_set_index(v.targeted, k);
            lemma_key_index(v.generic, k);
        }
        match self.find_targeted(&probe) {
            Some(i) => {
                let is_usdt = match &probe {
                    Probe::Usdt(_) => true,
                    _ => false,
                };
                if is_usdt {
                    return Err(RetisError::UsdtSingleHook);
                }
                if self.targeted_probes[i].hooks.len() >= self.hook_max - self.generic_hooks.len() {
                    return Err(RetisError::HookCapacityReached);
                }
                let mut set = self.targeted_probes.remove(i);
                assert(set_view(set) == v.targeted[i as int]);
                set.hooks.push(hook);
                assert(set_view(set).hooks =~= v.targeted[i as int].hooks.push(hook_view(hook)));
                self.targeted_probes.insert(i, set);
                assert(self.view().targeted =~= v.targeted.update(
                    i as int,
                    SetView { hooks: v.targeted[i as int].hooks.push(hook_view(hook)), ..v.targeted[i as int] },
                ));
                assert(self.view() =~= spec_register_hook_to(v, hook_view(hook), k).0);
                assert forall|j: int| 0 <= j < self.targeted_probes@.len() implies (#[trigger] self.targeted_probes@[j]).probe.wf() by {
                    assert(self.targeted_probes@[j].probe == old(self).targeted_probes@[j].probe);
                }
                Ok(())
            },
            None => {
                let gi = self.find_generic(&probe);
                let remaining = match gi {
                    Some(_) => self.generic_probes.len() - 1,
                    None => self.generic_probes.len(),
                };
                if remaining + self.targeted_probes.len() >= self.probe_max {
                    return Err(RetisError::ProbeCapacityReached);
                }
                if let Some(idx) = gi {
                    self.generic_probes.remove(idx);
                    assert(self.view().generic =~= v.generic.remove(idx as int));
                    assert forall|a: int| 0 <= a < self.view().generic.len() implies self.view().generic[a] != k by {
                        if a < idx {
                            assert(v.generic[a] != v.generic[idx as int]);
                        } else {
                            assert(v.generic[a + 1] != v.generic[idx as int]);
                        }
                    }
                } else {
                    assert(self.view().generic == v.generic);
                    assert forall|a: int| 0 <= a < self.view().generic.len() implies self.view().generic[a] != k by {
                        if self.view().generic[a] == k {
                            assert(v.generic.contains(k));
                        }
                    }
                }
                let ghost g = self.view().generic;
                assert(g == remove_key(v.generic, k));
                let supports = match &probe {
                    Probe::Usdt(_) => false,
                    _ => true,
                };
                let mut hooks: Vec<Hook> = Vec::new();
                hooks.push(hook);
                let set = ProbeSet { probe, hooks, supports_generic_hooks: supports };
                assert(set_view(set).hooks =~= seq![hook_view(hook)]);
                self.targeted_probes.push(set);
                assert(self.view().targeted =~= v.targeted.push(
                    SetView { key: k, hooks: seq![hook_view(hook)], generic_ok: k.kind != ProbeKind::Usdt },
                ));
                assert(self.view() =~= spec_register_hook_to(v, hook_view(hook), k).0);
                assert forall|j: int| 0 <= j < self.targeted_probes@.len() implies (#[trigger] self.targeted_probes@[j]).probe.wf() by {
                    if j < v.targeted.len() {
                        assert(self.targeted_probes@[j] == old(self).targeted_probes@[j]);
                    }
                }
                assert forall|j: int| 0 <= j < self.generic_probes@.len() implies (#[trigger] self.generic_probes@[j]).wf() by {
                    if let Some(idx) = gi {
                        if j < idx {
                            assert(self.generic_probes@[j] == old(self).generic_probes@[j]);
                        } else {
                            assert(self.generic_probes@[j] == old(self).generic_probes@[j + 1]);
                        }
                    } else {
                        assert(self.generic_probes@[j] == old(self).generic_probes@[j]);
                    }
                }
                Ok(())
            },
        }
    }
}

/// Per-probe configuration published to the kernel before attaching.
#[derive(Debug, Clone, Copy, PartialEq, Eq, Structural)]
pub struct ProbeConfig {
    pub offsets: ProbeOffsets,
    /// 1 when the stack trace is captured.
    pub stack_trace: u8,
}

impl ProbeConfig {
    /// The packed bytes of the configuration: the four offsets, then the
    /// stack-trace flag.
    pub open spec fn bytes(self) -> Seq<u8> {
        seq![
            self.offsets.sk_buff as u8,
            self.offsets.skb_drop_reason as u8,
            self.offsets.net_device as u8,
            self.offsets.net as u8,
            self.stack_trace,
        ]
    }

    pub fn to_bytes(&self) -> (r: Vec<u8>)
        ensures
            r@ == self.bytes(),
    {
        let mut r: Vec<u8> = Vec::new();
        r.push(self.offsets.sk_buff as u8);
        r.push(self.offsets.skb_drop_reason as u8);
        r.push(self.offsets.net_device as u8);
        r.push(self.offsets.net as u8);
        r.push(self.stack_trace);
        assert(r@ =~= self.bytes());
        r
    }
}

/// Which set a host program belongs to.
#[derive(Debug, Clone, Copy, PartialEq, Eq, Structural)]
pub enum SetRef {
    Generic,
    Targeted(usize),
}

/// A registered hook: generic hook `i`, or hook `i` of targeted set `j`.
#[derive(Debug, Clone, Copy, PartialEq, Eq, Structural)]
pub enum HookRef {
    Generic(usize),
    Targeted(usize, usize),
}

/// One host program to build, load and attach.
pub struct AttachStep {
    /// The set of the probe.
    pub set: SetRef,
    /// Index of the probe in the generic set (0 in a targeted set).
    pub probe: usize,
    /// Type of host program.
    pub kind: ProbeKind,
    /// Symbol address constant (0 for USDT).
    pub ksym: u64,
    /// Argument count constant (0 for USDT).
    pub nargs: u32,
    /// Hooks to install, `hook0..hookN-1` in this order.
    pub hooks: Vec<HookRef>,
    /// Configuration to publish under `ksym` before attaching (kernel probes).
    pub config: Option<ProbeConfig>,
}

/// Host programs in attach order: generic set first, then targeted sets.
pub struct AttachPlan {
    pub steps: Vec<AttachStep>,
    /// Filters every host program installs, by index into the registry's
    /// filters, in registration order.
    pub filters: Vec<usize>,
}

/// What one host program is: the probe it attaches and the hooks it carries.
pub struct StepView {
    pub key: ProbeKey,
    pub hooks: Seq<HookView>,
}

/// The host programs a registry calls for, in attach order.
pub open spec fn plan_of(v: ManagerView) -> Seq<StepView> {
    Seq::new(
        v.generic.len() + v.targeted.len(),
        |i: int|
            if i < v.generic.len() {
                StepView { key: v.generic[i], hooks: v.generic_hooks }
            } else {
                let t = v.targeted[i - v.generic.len()];
                StepView {
                    key: t.key,
                    hooks: if t.generic_ok {
                        t.hooks + v.generic_hooks
                    } else {
                        t.hooks
                    },
                }
            },
    )
}

/// The hook a reference names.
pub open spec fn resolve_hook(v: ManagerView, r: HookRef) -> HookView {
    match r {
        HookRef::Generic(i) => v.generic_hooks[i as int],
        HookRef::Targeted(j, i) => v.targeted[j as int].hooks[i as int],
    }
}

/// The host program a step describes.
pub open spec fn step_view(v: ManagerView, st: AttachStep) -> StepView {
    StepView {
        key: match st.set {
            SetRef::Generic => v.generic[st.probe as int],
            SetRef::Targeted(j) => v.targeted[j as int].key,
        },
        hooks: st.hooks@.map_values(|r: HookRef| resolve_hook(v, r)),
    }
}

/// Whether a step's constants and configuration are those of probe `p`.
pub open spec fn step_fits(st: AttachStep, p: Probe, stack: bool) -> bool {
    &&& st.kind == p.kind()
    &&& match p.symbol() {
        Some(sym) => st.ksym == sym.spec_addr() && st.nargs == sym.param_types().len() && (
        st.config matches Some(c) && c.stack_trace == (if stack { 1u8 } else { 0u8 })
            && offset_is(sym.param_types(), "struct sk_buff *"@, c.offsets.sk_buff)
            && offset_is(sym.param_types(), "enum skb_drop_reason"@, c.offsets.skb_drop_reason)
            && offset_is(sym.param_types(), "struct net_device *"@, c.offsets.net_device)
            && offset_is(sym.param_types(), "struct net *"@, c.offsets.net)),
        None => st.ksym == 0 && st.nargs == 0 && st.config is None,
    }
}

fn generic_refs(n: usize) -> (r: Vec<HookRef>)
    ensures
        r@.len() == n,
        forall|i: int| 0 <= i < n ==> r@[i] == HookRef::Generic(i as usize),
{
    let mut r: Vec<HookRef> = Vec::new();
    let mut i: usize = 0;
    while i < n
        invariant
            i <= n,
            r@.len() == i,
            forall|k: int| 0 <= k < i ==> r@[k] == HookRef::Generic(k as usize),
        decreases n - i,
    {
        r.push(HookRef::Generic(i));
        i += 1;
    }
    r
}

impl ProbeManager {
    fn step_for(&self, set: SetRef, index: usize, p: &Probe, hooks: Vec<HookRef>, stack: bool) -> (r: AttachStep)
        requires
            p.wf(),
        ensures
            step_fits(r, *p, stack),
            r.set == set,
            r.probe == index,
            r.hooks == hooks,
    {
        let flag: u8 = if stack { 1 } else { 0 };
        let (kind, sym) = match p {
            Probe::Kprobe(s) => (ProbeKind::Kprobe, Some(s)),
            Probe::Kretprobe(s) => (ProbeKind::Kretprobe, Some(s)),
            Probe::RawTracepoint(s) => (ProbeKind::RawTracepoint, Some(s)),
            Probe::Usdt(_) => (ProbeKind::Usdt, None),
        };
        match sym {
            Some(s) => {
                let desc = match inspect_symbol(s) {
                    Ok(d) => d,
                    Err(_) => {
                        assert(false);
                        return AttachStep { set, probe: index, kind, ksym: 0, nargs: 0, hooks, config: None };
                    },
                };
                AttachStep {
                    set,
                    probe: index,
                    kind,
                    ksym: desc.ksym,
                    nargs: desc.nargs,
                    hooks,
                    config: Some(ProbeConfig { offsets: desc.offsets, stack_trace: flag }),
                }
            },
            None => AttachStep { set, probe: index, kind, ksym: 0, nargs: 0, hooks, config: None },
        }
    }

    /// The host programs to build, load and attach, in order: every generic
    /// probe with the generic hooks, then every targeted probe with its own
    /// hooks followed, when it accepts them, by the generic hooks.
    pub fn attach(&self) -> (r: AttachPlan)
        requires
            self.wf(),
        ensures
            r.steps@.len() == plan_of(self.view()).len(),
            r.filters@.len() == self.view().filters.len(),
            forall|i: int| 0 <= i < r.filters@.len() ==> r.filters@[i] == i,
            forall|i: int| 0 <= i < r.steps@.len() ==> step_view(self.view(), #[trigger] r.steps@[i])
                == plan_of(self.view())[i],
            forall|i: int| 0 <= i < self.view().generic.len() ==> (#[trigger] r.steps@[i]).set
                == SetRef::Generic && step_fits(r.steps@[i], self.generic_probe(i),
                self.view().options.contains(ProbeOption::StackTrace)),
            forall|j: int| 0 <= j < self.view().targeted.len() ==> (#[trigger] r.steps@[self.view().generic.len() + j]).set
                == SetRef::Targeted(j as usize) && step_fits(r.steps@[self.view().generic.len() + j],
                self.targeted_probe(j), self.view().options.contains(ProbeOption::StackTrace)),
    {
        let ghost v = self.view();
        let mut stack = false;
        let mut o: usize = 0;
        while o < self.global_probes_options.len()
            invariant
                o <= self.global_probes_options@.len(),
                stack == exists|k: int| 0 <= k < o && self.global_probes_options@[k] == ProbeOption::StackTrace,
            decreases self.global_probes_options.len() - o,
        {
            if self.global_probes_options[o] == ProbeOption::StackTrace {
                stack = true;
            }
            o += 1;
        }
        assert(stack == v.options.contains(ProbeOption::StackTrace));
        let ng = self.generic_hooks.len();
        let mut steps: Vec<AttachStep> = Vec::new();
        let mut i: usize = 0;
        while i < self.generic_probes.len()
            invariant
                v == self.view(),
                self.wf(),
                ng == v.generic_hooks.len(),
                stack == v.options.contains(ProbeOption::StackTrace),
                i <= v.generic.len(),
                steps@.len() == i,
                forall|k: int| 0 <= k < i ==> step_view(v, #[trigger] steps@[k]) == plan_of(v)[k],
                forall|k: int| 0 <= k < i ==> (#[trigger] steps@[k]).set == SetRef::Generic && step_fits(
                    steps@[k], self.generic_probe(k), stack),
            decreases self.generic_probes.len() - i,
        {
            let hooks = generic_refs(ng);
            let st = self.step_for(SetRef::Generic, i, &self.generic_probes[i], hooks, stack);
            assert(step_view(v, st).hooks =~= v.generic_hooks);
            steps.push(st);
            i += 1;
        }
        let g = self.generic_probes.len();
        let mut j: usize = 0;
        while j < self.targeted_probes.len()
            invariant
                v == self.view(),
                self.wf(),
                ng == v.generic_hooks.len(),
                g == v.generic.len(),
                stack == v.options.contains(ProbeOption::StackTrace),
                j <= v.targeted.len(),
                steps@.len() == g + j,
                forall|k: int| 0 <= k < g + j ==> step_view(v, #[trigger] steps@[k]) == plan_of(v)[k],
                forall|k: int| 0 <= k < g ==> (#[trigger] steps@[k]).set == SetRef::Generic && step_fits(
                    steps@[k], self.generic_probe(k), stack),
                forall|k: int| 0 <= k < j ==> (#[trigger] steps@[g + k]).set == SetRef::Targeted(k as usize)
                    && step_fits(steps@[g + k], self.targeted_probe(k), stack),
            decreases self.targeted_probes.len() - j,
        {
            let set = &self.targeted_probes[j];
            let nh = set.hooks.len();
            let mut hooks: Vec<HookRef> = Vec::new();
            let mut h: usize = 0;
            while h < nh
                invariant
                    h <= nh,
                    hooks@.len() == h,
                    forall|k: int| 0 <= k < h ==> hooks@[k] == HookRef::Targeted(j, k as usize),
                decreases nh - h,
            {
                hooks.push(HookRef::Targeted(j, h));
                h += 1;
            }
            if set.supports_generic_hooks {
                let mut extra = generic_refs(ng);
                hooks.append(&mut extra);
            }
            proof {
                let t = v.targeted[j as int];
                assert(t == set_view(*set));
                let expect = if t.generic_ok { t.hooks + v.generic_hooks } else { t.hooks };
                assert(hooks@.map_values(|r: HookRef| resolve_hook(v, r)) =~= expect);
            }
            let st = self.step_for(SetRef::Targeted(j), 0, &set.probe, hooks, stack);
            steps.push(st);
            j += 1;
        }
        let mut filters: Vec<usize> = Vec::new();
        let mut f: usize = 0;
        while f < self.filters.len()
            invariant
                f <= self.filters@.len(),
                filters@.len() == f,
                forall|i: int| 0 <= i < f ==> filters@[i] == i,
            decreases self.filters.len() - f,
        {
            filters.push(f);
            f += 1;
        }
        AttachPlan { steps, filters }
    }
}

/// The hooks a registered probe is attached with.
pub open spec fn expected_hooks(v: ManagerView, k: ProbeKey) -> Seq<HookView> {
    match set_index(v.targeted, k) {
        Some(j) => if v.targeted[j].generic_ok {
            v.targeted[j].hooks + v.generic_hooks
        } else {
            v.targeted[j].hooks
        },
        None => v.generic_hooks,
    }
}

/// Attaching builds exactly one host program for every registered probe, and
/// that program carries exactly the hooks registered for the probe, in
/// registration order; a targeted probe that accepts generic hooks carries
/// every generic hook after its own.
pub proof fn lemma_one_host_per_probe(v: ManagerView, k: ProbeKey)
    requires
        v.wf(),
        v.registered(k),
    ensures
        exists|i: int| 0 <= i < plan_of(v).len() && (#[trigger] plan_of(v)[i]).key == k,
        forall|i: int, j: int|
            0 <= i < plan_of(v).len() && 0 <= j < plan_of(v).len() && (#[trigger] plan_of(v)[i]).key == k
                && (#[trigger] plan_of(v)[j]).key == k ==> i == j,
        forall|i: int|
            0 <= i < plan_of(v).len() && (#[trigger] plan_of(v)[i]).key == k ==> plan_of(v)[i].hooks
                == expected_hooks(v, k),
{
    let g = v.generic.len() as int;
    lemma_set_index(v.targeted, k);
    lemma_key_index(v.generic, k);
    match set_index(v.targeted, k) {
        Some(j) => {
            assert(plan_of(v)[g + j].key == k);
        },
        None => {
            let i = key_index(v.generic, k)->0;
            assert(plan_of(v)[i].key == k);
        },
    }
    assert forall|i: int| 0 <= i < plan_of(v).len() && (#[trigger] plan_of(v)[i]).key == k implies plan_of(
        v,
    )[i].hooks == expected_hooks(v, k) by {
        if i < g {
            assert(v.generic[i] == k);
            if set_index(v.targeted, k) is Some {
                let j = set_index(v.targeted, k)->0;
                assert(v.generic[i] != v.targeted[j].key);
            }
        } else {
            assert(v.targeted[i - g].key == k);
            let j = set_index(v.targeted, k)->0;
            assert(i - g == j);
        }
    }
}

/// Registering the same probe a second time changes nothing and succeeds.
pub proof fn lemma_add_probe_idempotent(v: ManagerView, k: ProbeKey)
    requires
        v.wf(),
        spec_add_probe(v, k).1 is None,
    ensures
        spec_add_probe(spec_add_probe(v, k).0, k) == (spec_add_probe(v, k).0, None::<RetisError>),
{
    let w = spec_add_probe(v, k).0;
    if !(set_index(v.targeted, k) is Some || v.generic.contains(k)) {
        assert(w.generic[w.generic.len() - 1] == k);
        assert(w.generic.contains(k));
    }
}

/// A probe given a hook and then registered stays in its targeted set only.
pub proof fn lemma_targeted_then_add_probe(v: ManagerView, h: HookView, k: ProbeKey)
    requires
        v.wf(),
        spec_register_hook_to(v, h, k).1 is None,
    ensures
        spec_add_probe(spec_register_hook_to(v, h, k).0, k) == (
            spec_register_hook_to(v, h, k).0,
            None::<RetisError>,
        ),
        !spec_register_hook_to(v, h, k).0.generic.contains(k),
        set_index(spec_register_hook_to(v, h, k).0.targeted, k) is Some,
{
    let w = spec_register_hook_to(v, h, k).0;
    lemma_set_index(v.targeted, k);
    lemma_key_index(v.generic, k);
    lemma_set_index(w.targeted, k);
    match set_index(v.targeted, k) {
        Some(j) => {
            assert(w.targeted[j].key == k);
            if w.generic.contains(k) {
                let a = choose|a: int| 0 <= a < w.generic.len() && w.generic[a] == k;
                assert(v.generic[a] != v.targeted[j].key);
            }
        },
        None => {
            assert(w.targeted[w.targeted.len() - 1].key == k);
            if w.generic.contains(k) {
                let a = choose|a: int| 0 <= a < w.generic.len() && w.generic[a] == k;
                if v.generic.contains(k) {
                    let idx = key_index(v.generic, k)->0;
                    if a < idx {
                        assert(v.generic[a] == w.generic[a]);
                    } else {
                        assert(v.generic[a + 1] == w.generic[a]);
                    }
                }
            }
        },
    }
}

impl ProbeManager {
    /// The generic probe at `i`.
    pub fn generic_probe_at(&self, i: usize) -> (r: &Probe)
        requires
            i < self.view().generic.len(),
        ensures
            *r == self.generic_probe(i as int),
    {
        &self.generic_probes[i]
    }

    /// The probe of targeted set `j`.
    pub fn targeted_probe_at(&self, j: usize) -> (r: &Probe)
        requires
            j < self.view().targeted.len(),
        ensures
            *r == self.targeted_probe(j as int),
    {
        &self.targeted_probes[j].probe
    }

    /// Generic hook `i`.
    pub fn generic_hook(&self, i: usize) -> (r: &Hook)
        requires
            i < self.view().generic_hooks.len(),
        ensures
            hook_view(*r) == self.view().generic_hooks[i as int],
    {
        &self.generic_hooks[i]
    }

    /// Hook `i` of targeted set `j`.
    pub fn targeted_hook(&self, j: usize, i: usize) -> (r: &Hook)
        requires
            j < self.view().targeted.len(),
            i < self.view().targeted[j as int].hooks.len(),
        ensures
            hook_view(*r) == self.view().targeted[j as int].hooks[i as int],
    {
        assert(set_view(self.targeted_probes@[j as int]) == self.view().targeted[j as int]);
        &self.targeted_probes[j].hooks[i]
    }

    /// Filter `i`.
    pub fn filter_at(&self, i: usize) -> (r: &Filter)
        requires
            i < self.view().filters.len(),
        ensures
            r.kind() == self.view().filters[i as int],
    {
        &self.filters[i]
    }

    /// Maps reused by every program.
    pub fn maps(&self) -> (r: &MapFds)
        ensures
            r.view() == self.view().maps,
    {
        &self.maps
    }
}

/// A consistent registry has a consistent view, so the laws stated over views
/// apply to it.
pub proof fn lemma_manager_view_wf(m: &ProbeManager)
    requires
        m.wf(),
    ensures
        m.view().wf(),
{
}

} // verus!
