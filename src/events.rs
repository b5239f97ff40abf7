//! Events: one typed section per owner, kept in section-id order, and their
//! assembly from the raw sections of a record.

use vstd::prelude::*;

use crate::enricher::OvsFlowInfoEvent;
use crate::error::RetisError;
use crate::ovs::{ovs_decode, ovs_from_raw, OvsEvent};
use crate::raw::{copy_bytes, raw_view, raw_views, RawSection, RawSectionView};
use crate::skb::{decode_chain, skb_error, skb_from_raw, SkbEvent};
use crate::text::same_text;
use crate::tracking::{skb_tracking_from_raw, tracking_decode, SkbTrackingEvent};

verus! {

/// Owners of event sections: a closed enumeration matching the owner ids
/// of raw sections.
#[derive(Debug, Clone, Copy, PartialEq, Eq, Structural)]
pub enum SectionId {
    Common,
    Kernel,
    Userspace,
    Tracking,
    SkbTracking,
    SkbDrop,
    Skb,
    Ovs,
    Nft,
    Ct,
    OvsFlowInfo,
}

/// Number of section ids.
pub const SECTION_COUNT: u8 = 11;

impl SectionId {
    /// The owner id of the section.
    pub open spec fn code(self) -> u8 {
        match self {
            SectionId::Common => 1,
            SectionId::Kernel => 2,
            SectionId::Userspace => 3,
            SectionId::Tracking => 4,
            SectionId::SkbTracking => 5,
            SectionId::SkbDrop => 6,
            SectionId::Skb => 7,
            SectionId::Ovs => 8,
            SectionId::Nft => 9,
            SectionId::Ct => 10,
            SectionId::OvsFlowInfo => 11,
        }
    }

    /// The key of the section in the persisted form.
    pub open spec fn name(self) -> Seq<char> {
        match self {
            SectionId::Common => "common"@,
            SectionId::Kernel => "kernel"@,
            SectionId::Userspace => "userspace"@,
            SectionId::Tracking => "tracking"@,
            SectionId::SkbTracking => "skb-tracking"@,
            SectionId::SkbDrop => "skb-drop"@,
            SectionId::Skb => "skb"@,
            SectionId::Ovs => "ovs"@,
            SectionId::Nft => "nft"@,
            SectionId::Ct => "ct"@,
            SectionId::OvsFlowInfo => "ovs-flow-info"@,
        }
    }

    pub fn to_u8(&self) -> (r: u8)
        ensures
            r == self.code(),
    {
        match self {
            SectionId::Common => 1,
            SectionId::Kernel => 2,
            SectionId::Userspace => 3,
            SectionId::Tracking => 4,
            SectionId::SkbTracking => 5,
            SectionId::SkbDrop => 6,
            SectionId::Skb => 7,
            SectionId::Ovs => 8,
            SectionId::Nft => 9,
            SectionId::Ct => 10,
            SectionId::OvsFlowInfo => 11,
        }
    }

    pub fn from_u8(val: u8) -> (r: Result<SectionId, RetisError>)
        ensures
            1 <= val <= SECTION_COUNT ==> (r matches Ok(id) && id.code() == val),
            !(1 <= val <= SECTION_COUNT) ==> r == Err::<SectionId, RetisError>(RetisError::UnknownOwner),
    {
        match val {
            1 => Ok(SectionId::Common),
            2 => Ok(SectionId::Kernel),
            3 => Ok(SectionId::Userspace),
            4 => Ok(SectionId::Tracking),
            5 => Ok(SectionId::SkbTracking),
            6 => Ok(SectionId::SkbDrop),
            7 => Ok(SectionId::Skb),
            8 => Ok(SectionId::Ovs),
            9 => Ok(SectionId::Nft),
            10 => Ok(SectionId::Ct),
            11 => Ok(SectionId::OvsFlowInfo),
            _ => Err(RetisError::UnknownOwner),
        }
    }

    pub fn to_str(&self) -> (r: &'static str)
        ensures
            r@ == self.name(),
    {
        match self {
            SectionId::Common => "common",
            SectionId::Kernel => "kernel",
            SectionId::Userspace => "userspace",
            SectionId::Tracking => "tracking",
            SectionId::SkbTracking => "skb-tracking",
            SectionId::SkbDrop => "skb-drop",
            SectionId::Skb => "skb",
            SectionId::Ovs => "ovs",
            SectionId::Nft => "nft",
            SectionId::Ct => "ct",
            SectionId::OvsFlowInfo => "ovs-flow-info",
        }
    }

    /// The section id a persisted key names.
    pub fn from_str(s: &str) -> (r: Result<SectionId, RetisError>)
        ensures
            r matches Ok(id) ==> id.name() == s@,
            r is Err ==> r == Err::<SectionId, RetisError>(RetisError::UnknownOwner) && forall|id: SectionId|
                #[trigger] id.name() != s@,
    {
        let mut code: u8 = 1;
        while code <= SECTION_COUNT
            invariant
                1 <= code <= SECTION_COUNT + 1,
                forall|id: SectionId| id.code() < code ==> #[trigger] id.name() != s@,
            decreases SECTION_COUNT + 1 - code,
        {
            let id = match SectionId::from_u8(code) {
                Ok(id) => id,
                Err(e) => return Err(e),
            };
            if same_text(id.to_str(), s) {
                return Ok(id);
            }
            proof {
                assert forall|x: SectionId| x.code() < code + 1 implies #[trigger] x.name() != s@ by {
                    if x.code() == code {
                        lemma_code_injective(x, id);
                    }
                }
            }
            code += 1;
        }
        proof {
            assert forall|x: SectionId| #[trigger] x.name() != s@ by {
                assert(x.code() <= SECTION_COUNT);
            }
        }
        Err(RetisError::UnknownOwner)
    }
}

/// Skb drop event section.
#[derive(Debug)]
pub struct SkbDropEvent {
    /// Sub-system who generated the below drop reason. None for core reasons.
    pub subsys: Option<String>,
    /// Reason why a packet was freed/dropped.
    pub drop_reason: String,
}

impl SkbDropEvent {
    /// One-line text: `drop (reason R)`, or `drop (reason S/R)` with a
    /// sub-system.
    pub fn event_fmt(&self) -> (r: String)
        ensures
            r@ == "drop (reason "@ + match self.subsys {
                Some(s) => s@ + "/"@,
                None => Seq::empty(),
            } + self.drop_reason@ + ")"@,
    {
        let mut r = String::from_str("drop (reason ");
        if let Some(s) = &self.subsys {
            r.append(s.as_str());
            r.append("/");
        }
        r.append(self.drop_reason.as_str());
        r.append(")");
        assert(r@ =~= "drop (reason "@ + match self.subsys {
            Some(s) => s@ + "/"@,
            None => Seq::empty(),
        } + self.drop_reason@ + ")"@);
        r
    }
}

/// A typed event section.
#[derive(Debug)]
pub enum Section {
    Skb(SkbEvent),
    SkbTracking(SkbTrackingEvent),
    SkbDrop(SkbDropEvent),
    Ovs(OvsEvent),
    OvsFlowInfo(OvsFlowInfoEvent),
}

/// An event: sections keyed by id, in increasing id order.
#[derive(Debug)]
pub struct Event {
    sections: Vec<(SectionId, Section)>,
}

/// Ids in strictly increasing code order.
pub open spec fn ordered_ids(ids: Seq<SectionId>) -> bool {
    forall|i: int, j: int| 0 <= i < j < ids.len() ==> ids[i].code() < ids[j].code()
}

impl Event {
    /// The sections with their ids, in id order.
    pub closed spec fn entries(&self) -> Seq<(SectionId, Section)> {
        self.sections@
    }

    pub closed spec fn ids(&self) -> Seq<SectionId> {
        self.sections@.map_values(|s: (SectionId, Section)| s.0)
    }

    pub closed spec fn wf(&self) -> bool {
        ordered_ids(self.ids())
    }

    pub fn new() -> (r: Event)
        ensures
            r.wf(),
            r.ids().len() == 0,
    {
        let r = Event { sections: Vec::new() };
        assert(r.ids() =~= Seq::<SectionId>::empty());
        r
    }

    /// The section ids, in order.
    pub fn section_ids(&self) -> (r: Vec<SectionId>)
        ensures
            r@ == self.ids(),
    {
        let mut r: Vec<SectionId> = Vec::new();
        let mut i: usize = 0;
        while i < self.sections.len()
            invariant
                i <= self.sections@.len(),
                r@ == self.ids().subrange(0, i as int),
            decreases self.sections.len() - i,
        {
            r.push(self.sections[i].0);
            assert(r@ =~= self.ids().subrange(0, i + 1));
            i += 1;
        }
        assert(self.ids().subrange(0, self.ids().len() as int) =~= self.ids());
        r
    }

    /// The section of `id`, if any.
    pub fn get(&self, id: SectionId) -> (r: Option<&Section>)
        ensures
            r is Some == self.ids().contains(id),
            r matches Some(s) ==> exists|k: int| 0 <= k < self.entries().len() && #[trigger] self.entries()[k] == (
            id, *s),
    {
        let mut i: usize = 0;
        while i < self.sections.len()
            invariant
                i <= self.sections@.len(),
                forall|j: int| 0 <= j < i ==> self.ids()[j] != id,
            decreases self.sections.len() - i,
        {
            if self.sections[i].0 == id {
                assert(self.ids()[i as int] == id);
                assert(self.entries()[i as int] == (id, self.sections[i as int].1));
                return Some(&self.sections[i].1);
            }
            i += 1;
        }
        None
    }

    /// Adds a section; each id appears once.
    pub fn insert_section(&mut self, id: SectionId, section: Section) -> (r: Result<(), RetisError>)
        requires
            old(self).wf(),
        ensures
            final(self).wf(),
            old(self).ids().contains(id) ==> r == Err::<(), RetisError>(RetisError::DuplicateSection)
                && final(self).ids() == old(self).ids(),
            !old(self).ids().contains(id) ==> r is Ok && final(self).ids().len() == old(self).ids().len() + 1
                && final(self).ids().contains(id) && forall|x: SectionId| #[trigger]
                old(self).ids().contains(x) ==> final(self).ids().contains(x),
            forall|x: SectionId| #[trigger] final(self).ids().contains(x) ==> old(self).ids().contains(x) || x == id,
            r is Err ==> final(self).entries() == old(self).entries(),
            r is Ok ==> exists|i: int| 0 <= i <= old(self).entries().len() && final(self).entries() == old(
                self,
            ).entries().insert(i, (id, section)),
    {
        let code = id.to_u8();
        let n = self.sections.len();
        let mut pos: usize = n;
        let mut found = false;
        let mut i: usize = 0;
        while i < n
            invariant
                n == self.sections@.len(),
                i <= n,
                self.ids() == old(self).ids(),
                ordered_ids(self.ids()),
                code == id.code(),
                forall|j: int| 0 <= j < i ==> self.ids()[j] != id,
                found ==> pos < i && self.ids()[pos as int].code() > code,
                !found ==> pos == n,
                forall|j: int| 0 <= j < i && j < pos ==> self.ids()[j].code() < code,
            decreases n - i,
        {
            let c = self.sections[i].0.to_u8();
            if c == code {
                proof {
                    lemma_code_injective(self.ids()[i as int], id);
                }
                return Err(RetisError::DuplicateSection);
            }
            if !found && c > code {
                pos = i;
                found = true;
            }
            proof {
                if self.ids()[i as int] == id {
                    assert(c == code);
                }
            }
            i += 1;
        }
        let i = pos;
        assert(!old(self).ids().contains(id));
        let ghost before = self.ids();
        let ghost before_entries = self.entries();
        let ghost entry = (id, section);
        self.sections.insert(i, (id, section));
        assert(self.entries() == before_entries.insert(i as int, entry));
        assert(self.ids() =~= before.insert(i as int, id));
        proof {
            assert(self.ids()[i as int] == id);
            assert forall|x: SectionId| #[trigger] self.ids().contains(x) implies before.contains(x) || x == id by {
                let k = choose|k: int| 0 <= k < self.ids().len() && self.ids()[k] == x;
                if k < i {
                    assert(before[k] == x);
                } else if k > i {
                    assert(before[k - 1] == x);
                }
            }
            assert forall|a: int, b: int| 0 <= a < b < self.ids().len() implies self.ids()[a].code()
                < self.ids()[b].code() by {
                if b < i {
                } else if a < i && b == i {
                } else if a < i && b > i {
                    if (i as int) < before.len() {
                        assert(before[i as int].code() > code);
                        assert(before[a].code() < code);
                        assert(before[i as int].code() <= before[b - 1].code());
                    }
                } else if a == i {
                    assert(before[i as int].code() > code);
                    assert(before[i as int].code() <= before[b - 1].code());
                } else {
                    assert(before[a - 1].code() < before[b - 1].code());
                }
            }
            assert forall|x: SectionId| #[trigger] before.contains(x) implies self.ids().contains(x) by {
                let k = choose|k: int| 0 <= k < before.len() && before[k] == x;
                if k < i {
                    assert(self.ids()[k] == x);
                } else {
                    assert(self.ids()[k + 1] == x);
                }
            }
        }
        Ok(())
    }
}

proof fn lemma_code_injective(a: SectionId, b: SectionId)
    requires
        a.code() == b.code(),
    ensures
        a == b,
{
}

/// Adds the flow information to an event.
pub fn fill_event(event: &mut Event, info: OvsFlowInfoEvent) -> (r: Result<(), RetisError>)
    requires
        old(event).wf(),
    ensures
        final(event).wf(),
        old(event).ids().contains(SectionId::OvsFlowInfo) ==> r is Err && final(event).entries() == old(
            event,
        ).entries(),
        !old(event).ids().contains(SectionId::OvsFlowInfo) ==> r is Ok && final(event).ids().contains(
            SectionId::OvsFlowInfo,
        ) && exists|i: int| 0 <= i <= old(event).entries().len() && final(event).entries() == old(
            event,
        ).entries().insert(i, (SectionId::OvsFlowInfo, Section::OvsFlowInfo(info))),
{
    event.insert_section(SectionId::OvsFlowInfo, Section::OvsFlowInfo(info))
}

/// Whether some raw section is owned by `owner`.
pub open spec fn has_owner(secs: Seq<RawSection>, owner: u8) -> bool {
    exists|i: int| 0 <= i < secs.len() && (#[trigger] secs[i]).header.owner == owner
}

/// Copies of the raw sections owned by `owner`, in record order.
pub fn collect_owned(secs: &Vec<RawSection>, owner: u8) -> (r: Vec<RawSection>)
    ensures
        (r@.len() > 0) == has_owner(secs@, owner),
        forall|i: int| 0 <= i < r@.len() ==> (#[trigger] r@[i]).header.owner == owner,
        raw_views(r@) == owned_views(raw_views(secs@), owner),
{
    let mut r: Vec<RawSection> = Vec::new();
    let mut i: usize = 0;
    while i < secs.len()
        invariant
            i <= secs@.len(),
            (r@.len() > 0) == exists|k: int| 0 <= k < i && (#[trigger] secs@[k]).header.owner == owner,
            forall|k: int| 0 <= k < r@.len() ==> (#[trigger] r@[k]).header.owner == owner,
            raw_views(r@) == owned_views(raw_views(secs@).subrange(0, i as int), owner),
        decreases secs.len() - i,
    {
        assert(raw_views(secs@).subrange(0, i + 1).drop_last() =~= raw_views(secs@).subrange(0, i as int));
        if secs[i].header.owner == owner {
            let data = copy_bytes(&secs[i].data, 0, secs[i].data.len());
            assert(data@ =~= secs[i as int].data@);
            let sec = RawSection { header: secs[i].header, data };
            let ghost prev = raw_views(r@);
            r.push(sec);
            assert(raw_views(r@) =~= prev.push(raw_view(sec)));
        }
        i += 1;
    }
    assert(raw_views(secs@).subrange(0, secs@.len() as int) =~= raw_views(secs@));
    r
}

/// The views of the raw sections owned by `owner`, in order.
pub open spec fn owned_views(secs: Seq<RawSectionView>, owner: u8) -> Seq<RawSectionView>
    decreases secs.len(),
{
    if secs.len() == 0 {
        Seq::empty()
    } else if secs.last().owner == owner {
        owned_views(secs.drop_last(), owner).push(secs.last())
    } else {
        owned_views(secs.drop_last(), owner)
    }
}

/// Whether the owner of `id` decodes `secs`.
pub open spec fn decodable(id: SectionId, secs: Seq<RawSectionView>) -> bool {
    match id {
        SectionId::Skb => skb_error(secs) is None,
        SectionId::SkbTracking => tracking_decode(secs) is Ok,
        SectionId::Ovs => ovs_decode(secs) is Ok,
        _ => false,
    }
}

/// Whether `s` is what the owner of `id` decodes from `secs`.
pub open spec fn section_decodes(id: SectionId, secs: Seq<RawSectionView>, s: Section) -> bool {
    match s {
        Section::Skb(x) => id == SectionId::Skb && skb_error(secs) is None && exists|chain: Seq<SkbEvent>|
            #[trigger] decode_chain(secs, chain) && chain.last() == x,
        Section::SkbTracking(x) => id == SectionId::SkbTracking && tracking_decode(secs) == Ok::<
            SkbTrackingEvent,
            RetisError,
        >(x),
        Section::Ovs(x) => id == SectionId::Ovs && ovs_decode(secs) == Ok::<OvsEvent, RetisError>(x),
        _ => false,
    }
}

/// Decodes the sections of one owner into its typed section.
pub fn section_from_raw(id: SectionId, raw: &Vec<RawSection>) -> (r: Result<Section, RetisError>)
    ensures
        !(id == SectionId::Skb || id == SectionId::SkbTracking || id == SectionId::Ovs) ==> r
            == Err::<Section, RetisError>(RetisError::NotDecodable),
        r matches Ok(s) ==> section_decodes(id, raw_views(raw@), s),
        decodable(id, raw_views(raw@)) ==> r is Ok,
{
    match id {
        SectionId::Skb => Ok(Section::Skb(skb_from_raw(raw)?)),
        SectionId::SkbTracking => Ok(Section::SkbTracking(skb_tracking_from_raw(raw)?)),
        SectionId::Ovs => Ok(Section::Ovs(ovs_from_raw(raw)?)),
        _ => Err(RetisError::NotDecodable),
    }
}

/// Builds an event from the raw sections of one record: the sections of each
/// owner, in record order, make one typed section.
pub fn event_from_raw(raw_sections: Vec<RawSection>) -> (r: Result<Event, RetisError>)
    ensures
        (exists|i: int| 0 <= i < raw_sections@.len() && !(1 <= (#[trigger] raw_sections@[i]).header.owner
            <= SECTION_COUNT)) ==> r == Err::<Event, RetisError>(RetisError::UnknownOwner),
        (forall|i: int| 0 <= i < raw_sections@.len() ==> 1 <= (#[trigger] raw_sections@[i]).header.owner
            <= SECTION_COUNT) && (forall|id: SectionId| #[trigger] has_owner(raw_sections@, id.code())
            ==> decodable(id, owned_views(raw_views(raw_sections@), id.code()))) ==> r is Ok,
        r matches Ok(e) ==> e.wf() && (forall|id: SectionId| #[trigger] e.ids().contains(id) <==> has_owner(
            raw_sections@,
            id.code(),
        )) && forall|k: int| 0 <= k < e.entries().len() ==> section_decodes(
            (#[trigger] e.entries()[k]).0,
            owned_views(raw_views(raw_sections@), e.entries()[k].0.code()),
            e.entries()[k].1,
        ),
{
    let mut secs = raw_sections;
    let ghost all = secs@;
    let mut k: usize = 0;
    while k < secs.len()
        invariant
            secs@ == all,
            all == raw_sections@,
            k <= secs@.len(),
            forall|j: int| 0 <= j < k ==> 1 <= (#[trigger] all[j]).header.owner <= SECTION_COUNT,
        decreases secs.len() - k,
    {
        let o = secs[k].header.owner;
        if o < 1 || o > SECTION_COUNT {
            return Err(RetisError::UnknownOwner);
        }
        k += 1;
    }
    let mut event = Event::new();
    let mut code: u8 = 1;
    while code <= SECTION_COUNT
        invariant
            1 <= code <= SECTION_COUNT + 1,
            secs@ == all,
            all == raw_sections@,
            forall|j: int| 0 <= j < all.len() ==> 1 <= (#[trigger] all[j]).header.owner <= SECTION_COUNT,
            event.wf(),
            forall|id: SectionId| #[trigger] event.ids().contains(id) ==> id.code() < code,
            forall|id: SectionId| id.code() < code ==> (#[trigger] event.ids().contains(id) <==> has_owner(
                all,
                id.code(),
            )),
            forall|k: int| 0 <= k < event.entries().len() ==> section_decodes(
                (#[trigger] event.entries()[k]).0,
                owned_views(raw_views(all), event.entries()[k].0.code()),
                event.entries()[k].1,
            ),
        decreases SECTION_COUNT + 1 - code,
    {
        proof {
            assert(!exists|i: int| 0 <= i < raw_sections@.len() && !(1 <= (#[trigger] raw_sections@[i]).header.owner
                <= SECTION_COUNT));
        }
        let id = SectionId::from_u8(code)?;
        let group = collect_owned(&secs, code);
        let ghost before = event.ids();
        let ghost before_entries = event.entries();
        if group.len() > 0 {
            let section = section_from_raw(id, &group)?;
            let ghost sec = section;
            proof {
                if before.contains(id) {
                    assert(id.code() < code);
                }
            }
            event.insert_section(id, section)?;
            proof {
                let i = choose|i: int| 0 <= i <= before_entries.len() && event.entries() == before_entries.insert(
                    i,
                    (id, sec),
                );
                assert forall|k: int| 0 <= k < event.entries().len() implies section_decodes(
                    (#[trigger] event.entries()[k]).0,
                    owned_views(raw_views(all), event.entries()[k].0.code()),
                    event.entries()[k].1,
                ) by {
                    if k < i {
                        assert(event.entries()[k] == before_entries[k]);
                    } else if k == i {
                        assert(event.entries()[k] == (id, sec));
                    } else {
                        assert(event.entries()[k] == before_entries[k - 1]);
                    }
                }
            }
        }
        proof {
            assert forall|x: SectionId| x.code() < code + 1 implies (#[trigger] event.ids().contains(x) <==> has_owner(
                all,
                x.code(),
            )) by {
                if x.code() == code {
                    lemma_code_injective(x, id);
                    if !has_owner(all, code) {
                        assert(event.ids() == before);
                        if before.contains(x) {
                            assert(x.code() < code);
                        }
                    }
                } else {
                    assert(x.code() < code);
                    if event.ids().contains(x) {
                        assert(before.contains(x) || x == id);
                    }
                    if before.contains(x) {
                        assert(event.ids().contains(x));
                    }
                }
            }
        }
        code += 1;
    }
    Ok(event)
}

} // verus!
