//! Userspace probes: programs hooked to userspace statically-defined
//! tracepoints, one hook per probe.

use vstd::prelude::*;

use crate::error::RetisError;
use crate::hook::{map_names, Hook, MapFds};
use crate::inspector::listed;
use crate::probe::UsdtProbe;

verus! {

/// Userspace probe types.
#[derive(Debug)]
pub enum UProbe {
    Uprobe,
    Usdt(UsdtProbe),
}

impl UProbe {
    pub open spec fn same(&self, o: &UProbe) -> bool {
        match (self, o) {
            (UProbe::Uprobe, UProbe::Uprobe) => true,
            (UProbe::Usdt(a), UProbe::Usdt(b)) => a.same(b),
            _ => false,
        }
    }

    pub fn equals(&self, o: &UProbe) -> (r: bool)
        ensures
            r == self.same(o),
    {
        match (self, o) {
            (UProbe::Uprobe, UProbe::Uprobe) => true,
            (UProbe::Usdt(a), UProbe::Usdt(b)) => a.equals(b),
            _ => false,
        }
    }
}

/// A program hooked to a userspace probe.
pub struct UserProgram {
    pub probe: UProbe,
    pub hook: Hook,
}

/// Registry of the userspace probes, all targeted.
pub struct User {
    progs: Vec<UserProgram>,
    maps: MapFds,
}

/// One program to build and attach: program `prog`, with every shared map.
#[derive(Debug, Clone, Copy, PartialEq, Eq, Structural)]
pub struct UserAttachStep {
    pub prog: usize,
}

impl User {
    pub closed spec fn probes(&self) -> Seq<UProbe> {
        self.progs@.map_values(|p: UserProgram| p.probe)
    }

    pub closed spec fn map_view(&self) -> Seq<(Seq<char>, i32)> {
        self.maps.view()
    }

    /// A registry sharing the events map.
    pub fn new(events_map_fd: i32) -> (r: Result<User, RetisError>)
        ensures
            r matches Ok(u) && u.probes().len() == 0 && u.map_view() == seq![("events_map"@, events_map_fd)],
    {
        let mut maps = MapFds::new();
        let _ = maps.insert("events_map", events_map_fd);
        let user = User { progs: Vec::new(), maps };
        assert(user.probes() =~= Seq::<UProbe>::empty());
        assert(user.map_view() =~= seq![("events_map"@, events_map_fd)]);
        Ok(user)
    }

    /// Request to reuse a map fd in every program.
    pub fn reuse_map(&mut self, name: &str, fd: i32) -> (r: Result<(), RetisError>)
        ensures
            final(self).probes() == old(self).probes(),
            listed(map_names(old(self).map_view()), name@) ==> r == Err::<(), RetisError>(
                RetisError::MapAlreadyReused,
            ) && final(self).map_view() == old(self).map_view(),
            !listed(map_names(old(self).map_view()), name@) ==> r is Ok && final(self).map_view() == old(
                self,
            ).map_view().push((name@, fd)),
    {
        self.maps.insert(name, fd)
    }

    /// Request a hook on a USDT probe; one hook per probe.
    pub fn register_hook_to(&mut self, probe: UProbe, hook: Hook) -> (r: Result<(), RetisError>)
        ensures
            final(self).map_view() == old(self).map_view(),
            (exists|i: int| 0 <= i < old(self).probes().len() && old(self).probes()[i].same(&probe)) ==> r
                == Err::<(), RetisError>(RetisError::HookAlreadyRegistered) && final(self).probes() == old(
                self,
            ).probes(),
            !(exists|i: int| 0 <= i < old(self).probes().len() && old(self).probes()[i].same(&probe))
                && probe is Uprobe ==> r == Err::<(), RetisError>(RetisError::UnsupportedProbeType)
                && final(self).probes() == old(self).probes(),
            !(exists|i: int| 0 <= i < old(self).probes().len() && old(self).probes()[i].same(&probe))
                && probe is Usdt ==> r is Ok && final(self).probes() == old(self).probes().push(probe),
    {
        let mut i: usize = 0;
        while i < self.progs.len()
            invariant
                i <= self.progs@.len(),
                self.probes() == old(self).probes(),
                self.map_view() == old(self).map_view(),
                forall|j: int| 0 <= j < i ==> !self.probes()[j].same(&probe),
            decreases self.progs.len() - i,
        {
            if self.progs[i].probe.equals(&probe) {
                assert(self.probes()[i as int].same(&probe));
                return Err(RetisError::HookAlreadyRegistered);
            }
            i += 1;
        }
        if let UProbe::Uprobe = probe {
            return Err(RetisError::UnsupportedProbeType);
        }
        let ghost p = probe;
        self.progs.push(UserProgram { probe, hook });
        assert(self.probes() =~= old(self).probes().push(p));
        Ok(())
    }

    /// The program to build for registered program `i`.
    pub fn attach_prog(&self, i: usize) -> (r: UserAttachStep)
        requires
            i < self.probes().len(),
        ensures
            r.prog == i,
    {
        UserAttachStep { prog: i }
    }

    /// The programs to build and attach, in registration order.
    pub fn attach(&self) -> (r: Vec<UserAttachStep>)
        ensures
            r@.len() == self.probes().len(),
            forall|i: int| 0 <= i < r@.len() ==> (#[trigger] r@[i]).prog == i,
    {
        let mut r: Vec<UserAttachStep> = Vec::new();
        let mut i: usize = 0;
        while i < self.progs.len()
            invariant
                i <= self.progs@.len(),
                r@.len() == i,
                forall|k: int| 0 <= k < i ==> (#[trigger] r@[k]).prog == k,
            decreases self.progs.len() - i,
        {
            r.push(self.attach_prog(i));
            i += 1;
        }
        r
    }

    /// Registered program `i`.
    pub fn program(&self, i: usize) -> (r: &UserProgram)
        requires
            i < self.probes().len(),
        ensures
            r.probe == self.probes()[i as int],
    {
        &self.progs[i]
    }

    /// Shared maps.
    pub fn maps(&self) -> (r: &MapFds)
        ensures
            r.view() == self.map_view(),
    {
        &self.maps
    }
}

} // verus!
