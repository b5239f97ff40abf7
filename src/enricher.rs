//! Flow enrichment: deciding which datapath flows to ask the switch daemon
//! about, at a bounded rate, with a cache of what was already reported.
//!
//! The worker loop lives with the caller: it hands each request to
//! [`EnricherState::on_request`], asks [`EnricherState::poll`] what to do,
//! queries the daemon when told to, and hands the answers to
//! [`EnricherState::complete`], which builds the enrichment event.

use vstd::prelude::*;

use crate::inspector::texts;

verus! {

/// Requests per second the daemon receives at most.
pub const MAX_REQUESTS_PER_SEC: u64 = 10;
/// Milliseconds between two requests.
pub const MIN_REQUEST_MS: u64 = 100;
/// Age, in milliseconds, after which requests and cache entries are dropped.
pub const MAX_FLOW_AGE_MS: u64 = 5000;
/// Idle wait, in milliseconds.
pub const IDLE_WAIT_MS: u64 = 500;

/// A datapath flow identifier.
#[derive(Debug, Clone, Copy, PartialEq, Eq, Structural)]
pub struct Ufid(pub u32, pub u32, pub u32, pub u32);

/// A request to enrich a flow, stamped with its arrival time (ms).
#[derive(Debug, Clone, Copy, PartialEq, Eq, Structural)]
pub struct EnrichRequest {
    pub ufid: Ufid,
    pub flow: u64,
    pub sf_acts: u64,
    pub ts: u64,
}

impl EnrichRequest {
    pub fn new(ufid: Ufid, flow: u64, sf_acts: u64, ts: u64) -> (r: EnrichRequest)
        ensures
            r == (EnrichRequest { ufid, flow, sf_acts, ts }),
    {
        EnrichRequest { ufid, flow, sf_acts, ts }
    }
}

/// The ovs-flow-info event section.
#[derive(Debug)]
pub struct OvsFlowInfoEvent {
    pub ufid: Ufid,
    pub flow: u64,
    pub sf_acts: u64,
    /// Datapath flow, as the daemon prints it.
    pub dpflow: String,
    /// OpenFlow flows that built the datapath flow, one per line.
    pub ofpflows: Vec<String>,
}

/// A cache entry: what was reported for a flow, and when it was last used.
#[derive(Debug, Clone, Copy, PartialEq, Eq, Structural)]
pub struct FlowInfoRecord {
    pub ufid: Ufid,
    pub flow: u64,
    pub sf_acts: u64,
    pub last_used: u64,
}

/// Which flows were already reported; one entry per ufid.
pub struct FlowInfoRegistry {
    data: Vec<FlowInfoRecord>,
}

/// Index of the entry of `u`.
pub open spec fn record_index(d: Seq<FlowInfoRecord>, u: Ufid) -> Option<int> {
    if exists|i: int| 0 <= i < d.len() && d[i].ufid == u {
        Some(choose|i: int| 0 <= i < d.len() && d[i].ufid == u)
    } else {
        None
    }
}

/// Whether the cache already covers a request: an entry for the same flow.
pub open spec fn covers(d: Seq<FlowInfoRecord>, r: EnrichRequest) -> bool {
    exists|i: int| 0 <= i < d.len() && d[i].ufid == r.ufid && d[i].flow == r.flow && d[i].sf_acts == r.sf_acts
}

pub open spec fn unique_ufids(d: Seq<FlowInfoRecord>) -> bool {
    forall|i: int, j: int| 0 <= i < j < d.len() ==> d[i].ufid != d[j].ufid
}

impl FlowInfoRegistry {
    pub closed spec fn view(&self) -> Seq<FlowInfoRecord> {
        self.data@
    }

    pub open spec fn wf(&self) -> bool {
        unique_ufids(self.view())
    }

    pub fn new() -> (r: FlowInfoRegistry)
        ensures
            r.view().len() == 0,
            r.wf(),
    {
        FlowInfoRegistry { data: Vec::new() }
    }

    fn position(&self, u: Ufid) -> (r: Option<usize>)
        requires
            self.wf(),
        ensures
            match r {
                Some(i) => i < self.view().len() && self.view()[i as int].ufid == u,
                None => forall|j: int| 0 <= j < self.view().len() ==> self.view()[j].ufid != u,
            },
    {
        let mut i: usize = 0;
        while i < self.data.len()
            invariant
                i <= self.data@.len(),
                forall|j: int| 0 <= j < i ==> self.data@[j].ufid != u,
            decreases self.data.len() - i,
        {
            if self.data[i].ufid == u {
                return Some(i);
            }
            i += 1;
        }
        None
    }

    /// Looks a request up at time `now`: an entry for the same flow is
    /// refreshed and reported; an entry for the same ufid but another flow is
    /// stale and dropped.
    pub fn lookup(&mut self, request: &EnrichRequest, now: u64) -> (r: bool)
        requires
            old(self).wf(),
        ensures
            final(self).wf(),
            r == covers(old(self).view(), *request),
            !r ==> !covers(final(self).view(), *request),
            forall|x: FlowInfoRecord| #[trigger] final(self).view().contains(x) ==> x.ufid != request.ufid
                ==> old(self).view().contains(x),
            forall|x: FlowInfoRecord| #[trigger] old(self).view().contains(x) ==> x.ufid != request.ufid
                ==> final(self).view().contains(x),
            forall|p: EnrichRequest| #[trigger] covers(final(self).view(), p) ==> covers(old(self).view(), p),
            !(exists|i: int| 0 <= i < old(self).view().len() && (#[trigger] old(self).view()[i]).ufid == request.ufid)
                ==> final(self).view() == old(self).view(),
            !r ==> forall|k: int| 0 <= k < final(self).view().len() ==> (#[trigger] final(self).view()[k]).ufid
                != request.ufid,
            r ==> final(self).view().len() == old(self).view().len() && exists|i: int|
                0 <= i < final(self).view().len() && final(self).view()[i] == (FlowInfoRecord {
                    last_used: now,
                    ..old(self).view()[i]
                }) && final(self).view() == old(self).view().update(i, final(self).view()[i]),
    {
        match self.position(request.ufid) {
            None => false,
            Some(i) => {
                let rec = self.data[i];
                if rec.flow == request.flow && rec.sf_acts == request.sf_acts {
                    let ghost before = self.data@;
                    self.data.set(i, FlowInfoRecord { last_used: now, ..rec });
                    proof {
                        assert(self.data@ == before.update(i as int, self.data@[i as int]));
                        assert forall|x: FlowInfoRecord| #[trigger] self.view().contains(x) && x.ufid != request.ufid implies before.contains(x) by {
                            let k = choose|k: int| 0 <= k < self.data@.len() && self.data@[k] == x;
                            assert(before[k] == x);
                        }
                        assert forall|x: FlowInfoRecord| #[trigger] before.contains(x) && x.ufid != request.ufid implies self.view().contains(x) by {
                            let k = choose|k: int| 0 <= k < before.len() && before[k] == x;
                            assert(self.data@[k] == x);
                        }
                    }
                    true
                } else {
                    let ghost before = self.data@;
                    self.data.remove(i);
                    proof {
                        assert forall|k: int| 0 <= k < self.data@.len() implies (#[trigger] self.data@[k]).ufid
                            != request.ufid by {
                            if k < i {
                                assert(before[k].ufid != before[i as int].ufid);
                            } else {
                                assert(before[k + 1].ufid != before[i as int].ufid);
                            }
                        }
                        assert forall|x: FlowInfoRecord| #[trigger] self.view().contains(x) && x.ufid != request.ufid implies before.contains(x) by {
                            let k = choose|k: int| 0 <= k < self.data@.len() && self.data@[k] == x;
                            if k < i {
                                assert(before[k] == x);
                            } else {
                                assert(before[k + 1] == x);
                            }
                        }
                        assert forall|x: FlowInfoRecord| #[trigger] before.contains(x) && x.ufid != request.ufid implies self.view().contains(x) by {
                            let k = choose|k: int| 0 <= k < before.len() && before[k] == x;
                            if k < i {
                                assert(self.data@[k] == x);
                            } else {
                                assert(k != i);
                                assert(self.data@[k - 1] == x);
                            }
                        }
                        if covers(self.view(), *request) {
                            let k = choose|k: int| 0 <= k < self.data@.len() && self.data@[k].ufid == request.ufid
                                && self.data@[k].flow == request.flow && self.data@[k].sf_acts == request.sf_acts;
                            if k < i {
                                assert(before[k].ufid == before[i as int].ufid);
                            } else {
                                assert(before[k + 1].ufid == before[i as int].ufid);
                            }
                        }
                        if covers(before, *request) {
                            let k = choose|k: int| 0 <= k < before.len() && before[k].ufid == request.ufid
                                && before[k].flow == request.flow && before[k].sf_acts == request.sf_acts;
                            assert(k == i);
                        }
                    }
                    false
                }
            },
        }
    }

    /// Records that a request was reported: its entry, stamped with the
    /// request's time, replaces any other for the ufid.
    pub fn insert(&mut self, request: &EnrichRequest)
        requires
            old(self).wf(),
        ensures
            final(self).wf(),
            final(self).view().contains(
                FlowInfoRecord {
                    ufid: request.ufid,
                    flow: request.flow,
                    sf_acts: request.sf_acts,
                    last_used: request.ts,
                },
            ),
            forall|x: FlowInfoRecord| #[trigger] final(self).view().contains(x) ==> x.ufid != request.ufid
                ==> old(self).view().contains(x),
            forall|x: FlowInfoRecord| #[trigger] old(self).view().contains(x) ==> x.ufid != request.ufid
                ==> final(self).view().contains(x),
    {
        let rec = FlowInfoRecord {
            ufid: request.ufid,
            flow: request.flow,
            sf_acts: request.sf_acts,
            last_used: request.ts,
        };
        let ghost before = self.data@;
        match self.position(request.ufid) {
            Some(i) => {
                self.data.set(i, rec);
                proof {
                    assert(self.data@[i as int] == rec);
                    assert forall|x: FlowInfoRecord| #[trigger] self.view().contains(x) && x.ufid != request.ufid implies before.contains(x) by {
                        let k = choose|k: int| 0 <= k < self.data@.len() && self.data@[k] == x;
                        assert(before[k] == x);
                    }
                    assert forall|x: FlowInfoRecord| #[trigger] before.contains(x) && x.ufid != request.ufid implies self.view().contains(x) by {
                        let k = choose|k: int| 0 <= k < before.len() && before[k] == x;
                        assert(self.data@[k] == x);
                    }
                }
            },
            None => {
                self.data.push(rec);
                proof {
                    assert(self.data@[before.len() as int] == rec);
                    assert forall|x: FlowInfoRecord| #[trigger] self.view().contains(x) && x.ufid != request.ufid implies before.contains(x) by {
                        let k = choose|k: int| 0 <= k < self.data@.len() && self.data@[k] == x;
                        assert(before[k] == x);
                    }
                    assert forall|x: FlowInfoRecord| #[trigger] before.contains(x) && x.ufid != request.ufid implies self.view().contains(x) by {
                        let k = choose|k: int| 0 <= k < before.len() && before[k] == x;
                        assert(self.data@[k] == x);
                    }
                }
            },
        }
    }

    /// Drops the entries last used at or before `threshold`.
    pub fn run(&mut self, threshold: u64)
        requires
            old(self).wf(),
        ensures
            final(self).wf(),
            forall|x: FlowInfoRecord| #[trigger] final(self).view().contains(x) <==> old(self).view().contains(x)
                && x.last_used > threshold,
            forall|p: EnrichRequest| #[trigger] covers(final(self).view(), p) ==> covers(old(self).view(), p),
    {
        let ghost before = self.data@;
        let mut kept: Vec<FlowInfoRecord> = Vec::new();
        let mut i: usize = 0;
        while i < self.data.len()
            invariant
                i <= self.data@.len(),
                self.data@ == before,
                unique_ufids(before),
                unique_ufids(kept@),
                forall|a: int| 0 <= a < kept@.len() ==> exists|k: int| 0 <= k < i && before[k] == #[trigger] kept@[a],
                forall|x: FlowInfoRecord| #[trigger] kept@.contains(x) <==> (exists|k: int|
                    0 <= k < i && before[k] == x) && x.last_used > threshold,
            decreases self.data.len() - i,
        {
            let rec = self.data[i];
            let ghost old_kept = kept@;
            if rec.last_used > threshold {
                proof {
                    assert forall|a: int| 0 <= a < kept@.len() implies kept@[a].ufid != rec.ufid by {
                        let k = choose|k: int| 0 <= k < i && before[k] == kept@[a];
                    }
                }
                kept.push(rec);
                proof {
                    assert forall|a: int| 0 <= a < kept@.len() implies exists|k: int| 0 <= k < i + 1 && before[k] == #[trigger] kept@[a] by {
                        if a < old_kept.len() {
                            assert(kept@[a] == old_kept[a]);
                        } else {
                            assert(before[i as int] == kept@[a]);
                        }
                    }
                }
            }
            proof {
                assert forall|x: FlowInfoRecord| #[trigger] kept@.contains(x) <==> (exists|k: int|
                    0 <= k < i + 1 && before[k] == x) && x.last_used > threshold by {
                    if kept@.contains(x) {
                        let a = choose|a: int| 0 <= a < kept@.len() && kept@[a] == x;
                        if a < old_kept.len() {
                            assert(old_kept.contains(x));
                        }
                    }
                    if (exists|k: int| 0 <= k < i + 1 && before[k] == x) && x.last_used > threshold {
                        let k = choose|k: int| 0 <= k < i + 1 && before[k] == x;
                        if k < i {
                            assert(old_kept.contains(x));
                            let a = choose|a: int| 0 <= a < old_kept.len() && old_kept[a] == x;
                            assert(kept@[a] == x);
                        } else {
                            assert(kept@[kept@.len() - 1] == x);
                        }
                    }
                }
            }
            i += 1;
        }
        proof {
            assert forall|x: FlowInfoRecord| #[trigger] kept@.contains(x) <==> before.contains(x) && x.last_used > threshold by {
                if before.contains(x) {
                    let k = choose|k: int| 0 <= k < before.len() && before[k] == x;
                }
            }
            assert forall|p: EnrichRequest| #[trigger] covers(kept@, p) implies covers(before, p) by {
                let i = choose|i: int| 0 <= i < kept@.len() && kept@[i].ufid == p.ufid && kept@[i].flow == p.flow
                    && kept@[i].sf_acts == p.sf_acts;
                assert(kept@.contains(kept@[i]));
                let k = choose|k: int| 0 <= k < before.len() && before[k] == kept@[i];
            }
        }
        self.data = kept;
    }
}

/// Milliseconds between two queries: each daemon request takes
/// `MIN_REQUEST_MS`, and a query makes two when detrace is asked too.
pub open spec fn request_gap(detrace: bool) -> u64 {
    if detrace {
        200
    } else {
        MIN_REQUEST_MS
    }
}

/// Whether no two tasks share a ufid.
pub open spec fn unique_tasks(t: Seq<EnrichRequest>) -> bool {
    forall|a: int, b: int| 0 <= a < b < t.len() ==> t[a].ufid != t[b].ufid
}

/// Oldest request time (ms) still worth asking about at `now`.
pub open spec fn fresh_from(now: u64) -> u64 {
    if now >= MAX_FLOW_AGE_MS {
        (now - MAX_FLOW_AGE_MS) as u64
    } else {
        0
    }
}

/// What the worker does next.
#[derive(Debug, Clone, Copy, PartialEq, Eq, Structural)]
pub enum EnricherAction {
    /// Wait for a request this many milliseconds.
    Wait(u64),
    /// Ask the daemon about this request's flow.
    Query(EnrichRequest),
}

/// State of the enrichment worker.
pub struct EnricherState {
    tasks: Vec<EnrichRequest>,
    next_request: u64,
    wait_time: u64,
    registry: FlowInfoRegistry,
    detrace_supported: bool,
}

impl EnricherState {
    pub closed spec fn tasks(&self) -> Seq<EnrichRequest> {
        self.tasks@
    }

    pub closed spec fn next_request(&self) -> u64 {
        self.next_request
    }

    pub closed spec fn cache(&self) -> Seq<FlowInfoRecord> {
        self.registry.view()
    }

    pub closed spec fn detrace(&self) -> bool {
        self.detrace_supported
    }

    pub closed spec fn wf(&self) -> bool {
        &&& self.registry.wf()
        &&& unique_tasks(self.tasks@)
    }

    /// Pending tasks never share a ufid.
    pub proof fn lemma_unique_tasks(&self)
        requires
            self.wf(),
        ensures
            unique_tasks(self.tasks()),
    {
    }

    pub fn new(detrace_supported: bool) -> (r: EnricherState)
        ensures
            r.wf(),
            r.tasks().len() == 0,
            r.cache().len() == 0,
            r.next_request() == 0,
            r.detrace() == detrace_supported,
    {
        EnricherState {
            tasks: Vec::new(),
            next_request: 0,
            wait_time: IDLE_WAIT_MS,
            registry: FlowInfoRegistry::new(),
            detrace_supported,
        }
    }

    /// Whether `ofproto/detrace` is to be asked too.
    pub fn detrace_supported(&self) -> (r: bool)
        ensures
            r == self.detrace(),
    {
        self.detrace_supported
    }

    /// Queues a request; a pending one for the same ufid gives way to it.
    pub fn on_request(&mut self, req: EnrichRequest)
        requires
            old(self).wf(),
        ensures
            final(self).wf(),
            final(self).cache() == old(self).cache(),
            final(self).next_request() == old(self).next_request(),
            final(self).detrace() == old(self).detrace(),
            final(self).tasks().last() == req,
            forall|i: int| 0 <= i < final(self).tasks().len() - 1 ==> old(self).tasks().contains(
                #[trigger] final(self).tasks()[i]),
            !(exists|j: int| 0 <= j < old(self).tasks().len() && (#[trigger] old(self).tasks()[j]).ufid == req.ufid)
                ==> final(self).tasks() == old(self).tasks().push(req),
            (exists|j: int| 0 <= j < old(self).tasks().len() && (#[trigger] old(self).tasks()[j]).ufid == req.ufid)
                ==> exists|j: int| 0 <= j < old(self).tasks().len() && (#[trigger] old(self).tasks()[j]).ufid
                == req.ufid && final(self).tasks() == old(self).tasks().remove(j).push(req),
            unique_tasks(final(self).tasks()),
    {
        let mut i: usize = 0;
        while i < self.tasks.len()
            invariant
                i <= self.tasks@.len(),
                self.tasks@ == old(self).tasks@,
                self.registry == old(self).registry,
                self.registry.wf(),
                forall|a: int, b: int| 0 <= a < b < self.tasks@.len() ==> self.tasks@[a].ufid != self.tasks@[b].ufid,
                self.next_request == old(self).next_request,
                self.detrace_supported == old(self).detrace_supported,
                forall|j: int| 0 <= j < i ==> self.tasks@[j].ufid != req.ufid,
            decreases self.tasks.len() - i,
        {
            if self.tasks[i].ufid == req.ufid {
                let ghost before = self.tasks@;
                self.tasks.remove(i);
                self.tasks.push(req);
                proof {
                    assert(self.tasks@ =~= before.remove(i as int).push(req));
                    assert forall|a: int, b: int| 0 <= a < b < self.tasks@.len() implies self.tasks@[a].ufid
                        != self.tasks@[b].ufid by {
                        let oa = if a < i { a } else { a + 1 };
                        if b == self.tasks@.len() - 1 {
                            assert(before[oa].ufid != before[i as int].ufid);
                        } else {
                            let ob = if b < i { b } else { b + 1 };
                            assert(before[oa].ufid != before[ob].ufid);
                        }
                    }
                    assert forall|k: int| 0 <= k < self.tasks@.len() - 1 implies before.contains(
                        #[trigger] self.tasks@[k]) by {
                        if k < i {
                            assert(before[k] == self.tasks@[k]);
                        } else {
                            assert(before[k + 1] == self.tasks@[k]);
                        }
                    }
                }
                return;
            }
            i += 1;
        }
        let ghost before = self.tasks@;
        self.tasks.push(req);
        proof {
            assert forall|a: int, b: int| 0 <= a < b < self.tasks@.len() implies self.tasks@[a].ufid
                != self.tasks@[b].ufid by {
                if b == self.tasks@.len() - 1 {
                    assert(before[a].ufid != req.ufid);
                } else {
                    assert(before[a].ufid != before[b].ufid);
                }
            }
        }
    }

    /// Decides what to do at time `now` (ms): expire the cache, drop pending
    /// requests the cache covers, respect the request rate, drop requests too
    /// old to be worth it, and pick the next request to send.
    pub fn poll(&mut self, now: u64) -> (r: EnricherAction)
        requires
            old(self).wf(),
        ensures
            final(self).wf(),
            final(self).detrace() == old(self).detrace(),
            r matches EnricherAction::Query(t) ==> old(self).next_request() <= now && final(self).next_request()
                == now + request_gap(old(self).detrace()) && !covers(final(self).cache(), t) && t.ts >= fresh_from(
                now,
            ) && old(self).tasks().contains(t) && (forall|k: int| 0 <= k < final(self).tasks().len()
                ==> old(self).tasks().contains(#[trigger] final(self).tasks()[k]) && final(self).tasks()[k].ufid
                != t.ufid),
            r matches EnricherAction::Query(t) ==> forall|x: FlowInfoRecord| #[trigger] old(self).cache().contains(x)
                && x.last_used > fresh_from(now) ==> !(x.ufid == t.ufid && x.flow == t.flow && x.sf_acts == t.sf_acts),
            final(self).next_request() == old(self).next_request() || (old(self).next_request() <= now
                && final(self).next_request() == now + request_gap(old(self).detrace())),
            now < old(self).next_request() ==> r is Wait,
            old(self).next_request() <= now && now <= u64::MAX - 2 * MIN_REQUEST_MS && (exists|t: EnrichRequest|
                #[trigger] old(self).tasks().contains(t) && t.ts >= fresh_from(now) && !covers(old(self).cache(), t))
                ==> r is Query,
    {
        let ghost wit: Option<EnrichRequest> = if exists|t: EnrichRequest| #[trigger] old(self).tasks().contains(t)
            && t.ts >= fresh_from(now) && !covers(old(self).cache(), t) {
            Some(choose|t: EnrichRequest| #[trigger] old(self).tasks().contains(t) && t.ts >= fresh_from(now)
                && !covers(old(self).cache(), t))
        } else {
            None
        };
        let threshold: u64 = if now >= MAX_FLOW_AGE_MS { now - MAX_FLOW_AGE_MS } else { 0 };
        self.registry.run(threshold);
        let ghost after_run = self.registry.view();
        let ghost tasks0 = self.tasks@;
        let mut kept: Vec<EnrichRequest> = Vec::new();
        let mut i: usize = 0;
        while i < self.tasks.len()
            invariant
                self.registry.wf(),
                i <= self.tasks@.len(),
                self.tasks@ == tasks0,
                tasks0 == old(self).tasks@,
                self.detrace_supported == old(self).detrace_supported,
                self.next_request == old(self).next_request,
                forall|p: EnrichRequest| #[trigger] covers(self.registry.view(), p) ==> covers(after_run, p),
                forall|k: int| 0 <= k < kept@.len() ==> !covers(self.registry.view(), #[trigger] kept@[k]),
                forall|k: int| 0 <= k < kept@.len() ==> !covers(after_run, #[trigger] kept@[k]),
                forall|a: int, b: int| 0 <= a < b < tasks0.len() ==> tasks0[a].ufid != tasks0[b].ufid,
                forall|a: int, b: int| 0 <= a < b < kept@.len() ==> kept@[a].ufid != kept@[b].ufid,
                forall|a: int| 0 <= a < kept@.len() ==> exists|m: int| 0 <= m < i && tasks0[m] == #[trigger] kept@[a],
                forall|x: FlowInfoRecord| #[trigger] after_run.contains(x) && (forall|m: int| 0 <= m < i ==> tasks0[m].ufid
                    != x.ufid) ==> self.registry.view().contains(x),
                wit matches Some(t) ==> !covers(after_run, t) && t.ts >= fresh_from(now) && ((exists|k: int|
                    0 <= k < i && tasks0[k] == t) ==> kept@.contains(t)),
            decreases self.tasks.len() - i,
        {
            let t = self.tasks[i];
            let ghost before_kept = kept@;
            let ghost before_reg = self.registry.view();
            if !self.registry.lookup(&t, now) {
                proof {
                    if covers(after_run, t) {
                        let k = choose|k: int| 0 <= k < after_run.len() && after_run[k].ufid == t.ufid
                            && after_run[k].flow == t.flow && after_run[k].sf_acts == t.sf_acts;
                        let x = after_run[k];
                        assert(after_run.contains(x));
                        assert forall|m: int| 0 <= m < i implies tasks0[m].ufid != x.ufid by {
                            assert(tasks0[m].ufid != tasks0[i as int].ufid);
                        }
                        assert(before_reg.contains(x));
                        let j = choose|j: int| 0 <= j < before_reg.len() && before_reg[j] == x;
                        assert(covers(before_reg, t));
                    }
                    assert forall|a: int| 0 <= a < before_kept.len() implies before_kept[a].ufid != t.ufid by {
                        let m = choose|m: int| 0 <= m < i && tasks0[m] == before_kept[a];
                        assert(tasks0[m].ufid != tasks0[i as int].ufid);
                    }
                }
                kept.push(t);
                proof {
                    assert(kept@[kept@.len() - 1] == t);
                    assert forall|a: int| 0 <= a < kept@.len() implies exists|m: int| 0 <= m < i + 1 && tasks0[m]
                        == #[trigger] kept@[a] by {
                        if a < before_kept.len() {
                            assert(kept@[a] == before_kept[a]);
                            let m = choose|m: int| 0 <= m < i && tasks0[m] == before_kept[a];
                        } else {
                            assert(tasks0[i as int] == kept@[a]);
                        }
                    }
                }
            } else {
                proof {
                    assert forall|a: int| 0 <= a < kept@.len() implies exists|m: int| 0 <= m < i + 1 && tasks0[m]
                        == #[trigger] kept@[a] by {
                        let m = choose|m: int| 0 <= m < i && tasks0[m] == kept@[a];
                    }
                }
            }
            proof {
                assert forall|x: FlowInfoRecord| #[trigger] after_run.contains(x) && (forall|m: int| 0 <= m < i + 1
                    ==> tasks0[m].ufid != x.ufid) implies self.registry.view().contains(x) by {
                    assert(tasks0[i as int].ufid != x.ufid);
                    assert(before_reg.contains(x));
                }
            }
            proof {
                if let Some(w) = wit {
                    if exists|k: int| 0 <= k < i + 1 && tasks0[k] == w {
                        let k = choose|k: int| 0 <= k < i + 1 && tasks0[k] == w;
                        if k < i {
                            let m = choose|m: int| 0 <= m < before_kept.len() && before_kept[m] == w;
                            assert(kept@[m] == w);
                        } else {
                            assert(!covers(self.registry.view(), w));
                            assert(kept@[kept@.len() - 1] == w);
                        }
                    }
                }
                assert forall|k: int| 0 <= k < kept@.len() implies !covers(self.registry.view(), #[trigger] kept@[k]) by {
                    if k < before_kept.len() {
                        assert(kept@[k] == before_kept[k]);
                    }
                }
            }
            i += 1;
        }
        proof {
            if let Some(w) = wit {
                let k = choose|k: int| 0 <= k < old(self).tasks@.len() && old(self).tasks@[k] == w;
                assert(tasks0[k] == w);
                assert(kept@.contains(w));
            }
        }
        self.tasks = kept;
        let ghost kept_view = self.tasks@;
        assert forall|a: int| 0 <= a < kept_view.len() implies exists|m: int| 0 <= m < tasks0.len() && tasks0[m]
            == #[trigger] kept_view[a] by {
            let m = choose|m: int| 0 <= m < i && tasks0[m] == kept_view[a];
            assert(tasks0[m] == kept_view[a]);
        }
        if self.tasks.len() == 0 {
            self.wait_time = IDLE_WAIT_MS;
            return EnricherAction::Wait(IDLE_WAIT_MS);
        }
        if now < self.next_request {
            self.wait_time = self.next_request - now;
            return EnricherAction::Wait(self.wait_time);
        }
        if now > u64::MAX - 2 * MIN_REQUEST_MS {
            return EnricherAction::Wait(self.wait_time);
        }
        self.next_request = if self.detrace_supported { now + 2 * MIN_REQUEST_MS } else { now + MIN_REQUEST_MS };
        let front_time: u64 = threshold;
        let mut front_pos: usize = self.tasks.len() - 1;
        let mut found = false;
        let mut k: usize = 0;
        while k < self.tasks.len() && !found
            invariant
                k <= self.tasks@.len(),
                self.tasks@ == kept_view,
                self.tasks@.len() > 0,
                front_pos < self.tasks@.len(),
                found ==> self.tasks@[front_pos as int].ts >= front_time,
                !found ==> forall|m: int| 0 <= m < k ==> self.tasks@[m].ts < front_time,
            decreases self.tasks.len() - k,
        {
            if self.tasks[k].ts >= front_time {
                front_pos = k;
                found = true;
            }
            k += 1;
        }
        proof {
            if let Some(w) = wit {
                let m = choose|m: int| 0 <= m < self.tasks@.len() && self.tasks@[m] == w;
                assert(found);
            }
        }
        let task = self.tasks[front_pos];
        assert(!covers(self.registry.view(), task));
        assert(!covers(after_run, task));
        let mut rest: Vec<EnrichRequest> = Vec::new();
        let mut j: usize = front_pos + 1;
        while j < self.tasks.len()
            invariant
                front_pos < j <= self.tasks@.len(),
                self.tasks@ == kept_view,
                rest@ == kept_view.subrange(front_pos + 1, j as int),
            decreases self.tasks.len() - j,
        {
            rest.push(self.tasks[j]);
            j += 1;
        }
        self.tasks = rest;
        proof {
            assert forall|a: int, b: int| 0 <= a < b < self.tasks@.len() implies self.tasks@[a].ufid
                != self.tasks@[b].ufid by {
                assert(self.tasks@[a] == kept_view[front_pos + 1 + a]);
                assert(self.tasks@[b] == kept_view[front_pos + 1 + b]);
            }
            assert(kept_view.contains(task));
            let m0 = choose|m: int| 0 <= m < tasks0.len() && tasks0[m] == kept_view[front_pos as int];
            assert(old(self).tasks().contains(task));
            assert forall|k: int| 0 <= k < self.tasks@.len() implies old(self).tasks().contains(
                #[trigger] self.tasks@[k]) && self.tasks@[k].ufid != task.ufid by {
                assert(self.tasks@[k] == kept_view[front_pos + 1 + k]);
                let m = choose|m: int| 0 <= m < tasks0.len() && tasks0[m] == kept_view[front_pos + 1 + k];
                assert(old(self).tasks()[m] == self.tasks@[k]);
            }
            assert forall|x: FlowInfoRecord| #[trigger] old(self).cache().contains(x) && x.last_used > fresh_from(now)
                implies !(x.ufid == task.ufid && x.flow == task.flow && x.sf_acts == task.sf_acts) by {
                assert(after_run.contains(x));
                if x.ufid == task.ufid && x.flow == task.flow && x.sf_acts == task.sf_acts {
                    let k = choose|k: int| 0 <= k < after_run.len() && after_run[k] == x;
                    assert(covers(after_run, task));
                }
            }
        }
        if self.registry.lookup(&task, now) {
            return EnricherAction::Wait(self.wait_time);
        }
        if task.ts < front_time {
            return EnricherAction::Wait(self.wait_time);
        }
        EnricherAction::Query(task)
    }

    /// Takes the daemon's answers for a request: the `dpctl/get-flow` text
    /// (`None` when the request failed or came back empty) and, when detrace
    /// is supported, the `ofproto/detrace` text. Returns the event to publish,
    /// with the datapath flow trimmed and the OpenFlow flows one per line, and
    /// records the flow as reported.
    pub fn complete(
        &mut self,
        task: &EnrichRequest,
        dpflow: Option<String>,
        detrace: Option<String>,
    ) -> (r: Option<OvsFlowInfoEvent>)
        requires
            old(self).wf(),
        ensures
            final(self).wf(),
            final(self).tasks() == old(self).tasks(),
            final(self).next_request() == old(self).next_request(),
            (dpflow is None || (old(self).detrace() && detrace is None)) ==> r is None && final(self).cache()
                == old(self).cache(),
            dpflow is Some && (!old(self).detrace() || detrace is Some) ==> (r matches Some(e) && e.ufid
                == task.ufid && e.flow == task.flow && e.sf_acts == task.sf_acts && e.dpflow@ == trim_of(
                dpflow->0@,
            ) && (old(self).detrace() ==> texts(e.ofpflows@) == lines_of(detrace->0@)) && (!old(self).detrace()
                ==> e.ofpflows@.len() == 0)) && final(self).cache().contains(
                FlowInfoRecord { ufid: task.ufid, flow: task.flow, sf_acts: task.sf_acts, last_used: task.ts },
            ),
    {
        let ofp = if self.detrace_supported {
            match detrace {
                Some(v) => split_lines(v.as_str()),
                None => return None,
            }
        } else {
            Vec::new()
        };
        let dp = match dpflow {
            Some(d) => trimmed(d.as_str()),
            None => return None,
        };
        self.registry.insert(task);
        Some(OvsFlowInfoEvent { ufid: task.ufid, flow: task.flow, sf_acts: task.sf_acts, dpflow: dp, ofpflows: ofp })
    }
}

/// What `str::trim` leaves of a text.
pub uninterp spec fn trim_of(s: Seq<char>) -> Seq<char>;

/// The lines `str::lines` splits a text into.
pub uninterp spec fn lines_of(s: Seq<char>) -> Seq<Seq<char>>;

/// Relies on str::trim: the text without leading and trailing whitespace.
#[verifier::external_body]
fn trimmed(s: &str) -> (r: String)
    ensures
        r@ == trim_of(s@),
{
    s.trim().to_string()
}

/// Relies on str::lines: the text split at line ends.
#[verifier::external_body]
fn split_lines(s: &str) -> (r: Vec<String>)
    ensures
        texts(r@) == lines_of(s@),
{
    s.lines().map(String::from).collect()
}

/// Requests sent at least `MIN_REQUEST_MS` apart: within any window of `t`
/// milliseconds, at most `⌈t / MIN_REQUEST_MS⌉` of them fall.
pub proof fn lemma_rate_bound(times: Seq<int>, start: int, t: int)
    requires
        t > 0,
        forall|i: int| 0 <= i < times.len() - 1 ==> times[i + 1] >= #[trigger] times[i] + MIN_REQUEST_MS,
        forall|i: int| 0 <= i < times.len() ==> start <= #[trigger] times[i] < start + t,
    ensures
        times.len() <= (t + MIN_REQUEST_MS - 1) / (MIN_REQUEST_MS as int),
{
    if times.len() > 0 {
        lemma_spread(times, times.len() - 1);
        let n = times.len() as int;
        assert(times[n - 1] >= times[0] + 100 * (n - 1));
        assert(100 * (n - 1) < t);
        assert(n <= (t + 99) / 100) by (nonlinear_arith)
            requires
                100 * (n - 1) < t,
                n >= 1,
        ;
    }
}

proof fn lemma_spread(times: Seq<int>, k: int)
    requires
        0 <= k < times.len(),
        forall|i: int| 0 <= i < times.len() - 1 ==> times[i + 1] >= #[trigger] times[i] + MIN_REQUEST_MS,
    ensures
        times[k] >= times[0] + 100 * k,
    decreases k,
{
    if k > 0 {
        lemma_spread(times, k - 1);
        assert(times[k] >= times[k - 1] + 100);
    }
}

/// Once a flow is reported, a later request for the same flow is covered by
/// the cache and gives no second daemon request, until the entry ages out.
pub proof fn lemma_reported_flow_is_covered(cache: Seq<FlowInfoRecord>, req: EnrichRequest, later: EnrichRequest)
    requires
        cache.contains(
            FlowInfoRecord { ufid: req.ufid, flow: req.flow, sf_acts: req.sf_acts, last_used: req.ts },
        ),
        later.ufid == req.ufid,
        later.flow == req.flow,
        later.sf_acts == req.sf_acts,
    ensures
        covers(cache, later),
{
    let k = choose|k: int| 0 <= k < cache.len() && cache[k] == FlowInfoRecord {
        ufid: req.ufid,
        flow: req.flow,
        sf_acts: req.sf_acts,
        last_used: req.ts,
    };
    assert(cache[k].ufid == later.ufid);
}

} // verus!
