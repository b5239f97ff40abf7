//! Hooks (small in-kernel programs attached to host probe programs) and the
//! named map file descriptors that programs share.

use vstd::prelude::*;

use crate::error::RetisError;
use crate::inspector::listed;
use crate::text::same_text;

verus! {

/// Map name -> file descriptor pairs, names unique, in insertion order.
pub struct MapFds {
    entries: Vec<(String, i32)>,
}

/// The names of a list of map pairs.
pub open spec fn map_names(s: Seq<(Seq<char>, i32)>) -> Seq<Seq<char>> {
    s.map_values(|e: (Seq<char>, i32)| e.0)
}

impl MapFds {
    pub closed spec fn view(&self) -> Seq<(Seq<char>, i32)> {
        self.entries@.map_values(|e: (String, i32)| (e.0@, e.1))
    }

    pub fn new() -> (r: MapFds)
        ensures
            r.view() == Seq::<(Seq<char>, i32)>::empty(),
    {
        let r = MapFds { entries: Vec::new() };
        assert(r.view() =~= Seq::<(Seq<char>, i32)>::empty());
        r
    }

    /// Whether a map of that name is recorded.
    pub fn contains(&self, name: &str) -> (r: bool)
        ensures
            r == listed(map_names(self.view()), name@),
    {
        let mut i: usize = 0;
        while i < self.entries.len()
            invariant
                i <= self.entries@.len(),
                forall|j: int| 0 <= j < i ==> map_names(self.view())[j] != name@,
            decreases self.entries.len() - i,
        {
            if same_text(self.entries[i].0.as_str(), name) {
                assert(map_names(self.view())[i as int] == name@);
                return true;
            }
            i += 1;
        }
        false
    }

    /// Records `name -> fd`; a name already recorded is refused.
    pub fn insert(&mut self, name: &str, fd: i32) -> (r: Result<(), RetisError>)
        ensures
            listed(map_names(old(self).view()), name@) ==> r == Err::<(), RetisError>(
                RetisError::MapAlreadyReused,
            ) && final(self).view() == old(self).view(),
            !listed(map_names(old(self).view()), name@) ==> r is Ok && final(self).view() == old(
                self,
            ).view().push((name@, fd)),
    {
        if self.contains(name) {
            return Err(RetisError::MapAlreadyReused);
        }
        self.entries.push((String::from_str(name), fd));
        assert(self.view() =~= old(self).view().push((name@, fd)));
        Ok(())
    }

    /// Number of pairs.
    pub fn len(&self) -> (r: usize)
        ensures
            r == self.view().len(),
    {
        self.entries.len()
    }

    /// The pair at `i`.
    pub fn get(&self, i: usize) -> (r: (String, i32))
        requires
            i < self.view().len(),
        ensures
            r.0@ == self.view()[i as int].0,
            r.1 == self.view()[i as int].1,
    {
        (self.entries[i].0.clone(), self.entries[i].1)
    }
}

/// Hook provided by modules for registering them on kernel probes.
pub struct Hook {
    /// Hook BPF binary data.
    pub bpf_prog: &'static [u8],
    /// Maps names and their fd, for reuse by the hook.
    pub maps: MapFds,
}

impl Hook {
    /// Create a new hook given a BPF binary data.
    pub fn from(bpf_prog: &'static [u8]) -> (r: Hook)
        ensures
            r.bpf_prog@ == bpf_prog@,
            r.maps.view().len() == 0,
    {
        Hook { bpf_prog, maps: MapFds::new() }
    }

    /// Request to reuse a map specifically in the hook.
    pub fn reuse_map(&mut self, name: &str, fd: i32) -> (r: Result<(), RetisError>)
        ensures
            final(self).bpf_prog@ == old(self).bpf_prog@,
            listed(map_names(old(self).maps.view()), name@) ==> r == Err::<(), RetisError>(
                RetisError::MapAlreadyReused,
            ) && final(self).maps.view() == old(self).maps.view(),
            !listed(map_names(old(self).maps.view()), name@) ==> r is Ok
                && final(self).maps.view() == old(self).maps.view().push((name@, fd)),
    {
        self.maps.insert(name, fd)
    }
}

} // verus!
