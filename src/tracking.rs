//! Packet tracking: the skb-tracking event section, and the decisions of the
//! garbage collector that reaps stale entries from the tracking maps.

use vstd::prelude::*;

use crate::error::RetisError;
use crate::raw::{le32, le64, raw_views, read_le32, read_le64, RawSection, RawSectionView};

verus! {

/// Tracking event section.
#[derive(Debug, Clone, Copy, PartialEq, Eq, Structural)]
pub struct SkbTrackingEvent {
    pub orig_head: u64,
    pub timestamp: u64,
    pub skb: u64,
    pub drop_reason: Option<u32>,
}

/// Packed size of the raw tracking structure.
pub const TRACKING_SIZE: usize = 28;

/// The tracking section that raw sections hold.
pub open spec fn tracking_decode(secs: Seq<RawSectionView>) -> Result<SkbTrackingEvent, RetisError> {
    if secs.len() != 1 {
        Err(RetisError::MalformedRecord)
    } else if secs[0].data.len() != TRACKING_SIZE {
        Err(RetisError::SectionSizeMismatch)
    } else {
        let d = secs[0].data;
        Ok(
            SkbTrackingEvent {
                orig_head: le64(d, 0) as u64,
                timestamp: le64(d, 8) as u64,
                skb: le64(d, 16) as u64,
                drop_reason: if (le32(d, 24) as u32) as i32 >= 0 {
                    Some(le32(d, 24) as u32)
                } else {
                    None
                },
            },
        )
    }
}

/// Builds the tracking section from its single raw section: three `u64`
/// (original head, timestamp, skb) and an `i32` drop reason, negative when
/// there is none.
pub fn skb_tracking_from_raw(raw_sections: &Vec<RawSection>) -> (r: Result<SkbTrackingEvent, RetisError>)
    ensures
        r == tracking_decode(raw_views(raw_sections@)),
{
    if raw_sections.len() != 1 {
        return Err(RetisError::MalformedRecord);
    }
    let d = &raw_sections[0].data;
    if d.len() != TRACKING_SIZE {
        return Err(RetisError::SectionSizeMismatch);
    }
    let reason = read_le32(d, 24);
    Ok(
        SkbTrackingEvent {
            orig_head: read_le64(d, 0),
            timestamp: read_le64(d, 8),
            skb: read_le64(d, 16),
            drop_reason: if reason as i32 >= 0 {
                Some(reason)
            } else {
                None
            },
        },
    )
}

/// Nanoseconds in a second.
pub const NSEC_PER_SEC: u128 = 1_000_000_000;

/// Whether an entry of age `age` (ns, monotonic clock) is older than `limit`
/// seconds at `now` (ns).
pub open spec fn stale(now: u64, age: u64, limit: u64) -> bool {
    (if now >= age { now - age } else { 0int }) > limit as int * NSEC_PER_SEC as int
}

/// The keys of the entries that are stale at `now`, in order.
pub open spec fn stale_keys_of(entries: Seq<(Seq<u8>, u64)>, now: u64, limit: u64) -> Seq<Seq<u8>>
    decreases entries.len(),
{
    if entries.len() == 0 {
        Seq::empty()
    } else {
        let rest = stale_keys_of(entries.drop_last(), now, limit);
        if stale(now, entries.last().1, limit) {
            rest.push(entries.last().0)
        } else {
            rest
        }
    }
}

/// Reads the age of a tracking-map value: its leading 8 bytes, a monotonic
/// timestamp in nanoseconds.
pub fn leading_timestamp(value: &Vec<u8>) -> (r: Result<u64, RetisError>)
    ensures
        value@.len() >= 8 ==> r == Ok::<u64, RetisError>(le64(value@, 0) as u64),
        value@.len() < 8 ==> r == Err::<u64, RetisError>(RetisError::SectionSizeMismatch),
{
    if value.len() < 8 {
        return Err(RetisError::SectionSizeMismatch);
    }
    Ok(read_le64(value, 0))
}

/// Periodic scanner of tracking maps.
pub struct TrackingGC {
    /// Names of the maps to scan.
    pub maps: Vec<String>,
    /// Seconds between two passes.
    pub interval: u64,
    /// Age, in seconds, beyond which entries are removed.
    pub limit: u64,
    /// Name of the worker.
    pub name: String,
}

/// Default seconds between two passes.
pub const DEFAULT_INTERVAL: u64 = 5;
/// Default age limit, in seconds.
pub const DEFAULT_OLD_LIMIT: u64 = 60;

impl TrackingGC {
    pub fn new(maps: Vec<String>) -> (r: TrackingGC)
        ensures
            r.maps@ == maps@,
            r.interval == DEFAULT_INTERVAL,
            r.limit == DEFAULT_OLD_LIMIT,
            r.name@ == "tracking_gc"@,
    {
        TrackingGC { maps, interval: DEFAULT_INTERVAL, limit: DEFAULT_OLD_LIMIT, name: String::from_str("tracking_gc") }
    }

    pub fn interval(self, interval: u64) -> (r: TrackingGC)
        ensures
            r == (TrackingGC { interval, ..self }),
    {
        TrackingGC { interval, ..self }
    }

    pub fn limit(self, limit: u64) -> (r: TrackingGC)
        ensures
            r == (TrackingGC { limit, ..self }),
    {
        TrackingGC { limit, ..self }
    }

    pub fn name(self, name: &str) -> (r: TrackingGC)
        ensures
            r.maps == self.maps && r.interval == self.interval && r.limit == self.limit && r.name@ == name@,
    {
        TrackingGC { name: String::from_str(name), ..self }
    }

    /// One pass over a map snapshot taken at `now`: the keys to delete, those
    /// whose entry is older than the limit.
    pub fn stale_keys(&self, now: u64, entries: &Vec<(Vec<u8>, u64)>) -> (r: Vec<Vec<u8>>)
        ensures
            r@.map_values(|k: Vec<u8>| k@) == stale_keys_of(
                entries@.map_values(|e: (Vec<u8>, u64)| (e.0@, e.1)),
                now,
                self.limit,
            ),
    {
        let ghost all = entries@.map_values(|e: (Vec<u8>, u64)| (e.0@, e.1));
        let limit_ns = self.limit as u128 * NSEC_PER_SEC;
        let mut r: Vec<Vec<u8>> = Vec::new();
        let mut i: usize = 0;
        while i < entries.len()
            invariant
                i <= entries@.len(),
                all == entries@.map_values(|e: (Vec<u8>, u64)| (e.0@, e.1)),
                limit_ns == self.limit as int * NSEC_PER_SEC as int,
                r@.map_values(|k: Vec<u8>| k@) == stale_keys_of(all.subrange(0, i as int), now, self.limit),
            decreases entries.len() - i,
        {
            assert(all.subrange(0, i + 1).drop_last() =~= all.subrange(0, i as int));
            let age = entries[i].1;
            let elapsed: u64 = if now >= age { now - age } else { 0 };
            if elapsed as u128 > limit_ns {
                let ghost prev = r@.map_values(|k: Vec<u8>| k@);
                let key = entries[i].0.clone();
                r.push(key);
                assert(r@.map_values(|k: Vec<u8>| k@) =~= prev.push(all[i as int].0));
            }
            i += 1;
        }
        assert(all.subrange(0, entries@.len() as int) =~= all);
        r
    }
}

/// The collector removes an entry exactly when its age exceeds the limit at
/// pass time: an entry younger than the limit is never among the keys a pass
/// removes, and an older one always is.
pub proof fn lemma_gc_removes_iff_stale(entries: Seq<(Seq<u8>, u64)>, now: u64, limit: u64, i: int)
    requires
        0 <= i < entries.len(),
        forall|a: int, b: int| 0 <= a < b < entries.len() ==> entries[a].0 != entries[b].0,
    ensures
        stale_keys_of(entries, now, limit).contains(entries[i].0) == stale(now, entries[i].1, limit),
    decreases entries.len(),
{
    let rest = stale_keys_of(entries.drop_last(), now, limit);
    lemma_stale_keys_from(entries.drop_last(), now, limit);
    if i < entries.len() - 1 {
        lemma_gc_removes_iff_stale(entries.drop_last(), now, limit, i);
        if stale(now, entries.last().1, limit) {
            assert(entries.last().0 != entries[i].0);
            if stale_keys_of(entries, now, limit).contains(entries[i].0) {
                let j = choose|j: int| 0 <= j < stale_keys_of(entries, now, limit).len()
                    && stale_keys_of(entries, now, limit)[j] == entries[i].0;
                if j < rest.len() {
                    assert(rest[j] == entries[i].0);
                }
            }
            if rest.contains(entries[i].0) {
                let j = choose|j: int| 0 <= j < rest.len() && rest[j] == entries[i].0;
                assert(stale_keys_of(entries, now, limit)[j] == entries[i].0);
            }
        }
    } else {
        if stale(now, entries.last().1, limit) {
            assert(stale_keys_of(entries, now, limit)[rest.len() as int] == entries[i].0);
        } else if rest.contains(entries[i].0) {
            let j = choose|j: int| 0 <= j < rest.len() && rest[j] == entries[i].0;
            assert(false);
        }
    }
}

/// Every key a pass removes comes from an earlier entry.
proof fn lemma_stale_keys_from(entries: Seq<(Seq<u8>, u64)>, now: u64, limit: u64)
    ensures
        forall|j: int| 0 <= j < stale_keys_of(entries, now, limit).len() ==> exists|a: int|
            0 <= a < entries.len() && entries[a].0 == #[trigger] stale_keys_of(entries, now, limit)[j],
    decreases entries.len(),
{
    if entries.len() > 0 {
        lemma_stale_keys_from(entries.drop_last(), now, limit);
        let rest = stale_keys_of(entries.drop_last(), now, limit);
        assert forall|j: int| 0 <= j < stale_keys_of(entries, now, limit).len() implies exists|a: int|
            0 <= a < entries.len() && entries[a].0 == #[trigger] stale_keys_of(entries, now, limit)[j] by {
            if j < rest.len() {
                let a = choose|a: int| 0 <= a < entries.drop_last().len() && entries.drop_last()[a].0 == rest[j];
                assert(entries[a].0 == rest[j]);
            } else {
                assert(entries[entries.len() - 1].0 == stale_keys_of(entries, now, limit)[j]);
            }
        }
    }
}

} // verus!
