//! A demo as the catalog lists it, and the age limit of a run.

use crate::digest::Digest;
use crate::name::{last_segment, name_of};
use vstd::prelude::*;

verus! {

/// A point in time: nanoseconds since the Unix epoch.
pub type Timestamp = i128;

/// Nanoseconds in a second.
pub const NANOS_PER_SECOND: i128 = 1_000_000_000;

/// A demo as the catalog lists it. It is never changed here.
#[derive(Debug, PartialEq, Eq)]
pub struct Demo {
    /// The catalog's identifier, the same on every backend.
    pub id: u32,
    /// Where the demo is served now; the last segment is its name.
    pub url: String,
    /// The hash of the authoritative bytes.
    pub hash: Digest,
    /// When the demo was made.
    pub time: Timestamp,
    /// Its length in seconds.
    pub duration: u16,
}

/// A [`Demo`] as mathematics sees it.
pub struct DemoView {
    pub id: u32,
    pub url: Seq<char>,
    pub hash: Seq<u8>,
    pub time: int,
    pub duration: u16,
}

impl View for Demo {
    type V = DemoView;

    open spec fn view(&self) -> DemoView {
        DemoView {
            id: self.id,
            url: self.url@,
            hash: self.hash@,
            time: self.time as int,
            duration: self.duration,
        }
    }
}

impl DemoView {
    /// The name under which the demo is stored.
    pub open spec fn name(self) -> Seq<char> {
        last_segment(self.url)
    }
}

impl Clone for Demo {
    fn clone(&self) -> (copy: Self)
        ensures
            copy@ == self@,
    {
        Demo {
            id: self.id,
            url: self.url.clone(),
            hash: self.hash,
            time: self.time,
            duration: self.duration,
        }
    }
}

impl Demo {
    /// The name under which the demo is stored: the last segment of its URL.
    pub fn name(&self) -> (name: String)
        ensures
            name@ == self@.name(),
    {
        name_of(self.url.as_str())
    }
}

/// The views of a list of demos, in order.
pub open spec fn demo_views(demos: Seq<Demo>) -> Seq<DemoView> {
    Seq::new(demos.len(), |i: int| demos[i]@)
}

/// The size, in bytes, that a download buffer is first given for a demo of
/// `duration` seconds: a kibibyte for each full minute.
pub open spec fn buffer_hint_of(duration: u16) -> int {
    duration as int / 60 * 1024
}

/// The first size of the buffer that a demo is downloaded into. A hint from
/// what demos use to weigh: the download may well hold more.
pub fn buffer_hint(duration: u16) -> (capacity: usize)
    ensures
        capacity == buffer_hint_of(duration),
{
    let minutes: usize = (duration / 60) as usize;
    minutes * 1024
}

/// The time that lies `age` seconds before `now`, where an `i128` can hold it.
pub open spec fn cutoff_of(now: int, age: u64) -> int {
    now - age as int * NANOS_PER_SECOND as int
}

/// The age limit of a run: demos made before it are migrated. `None` where
/// the time `age` seconds before `now` is not a `Timestamp`.
pub fn cutoff(now: Timestamp, age: u64) -> (limit: Option<Timestamp>)
    ensures
        limit.is_some() == (cutoff_of(now as int, age) >= i128::MIN),
        limit matches Some(t) ==> t == cutoff_of(now as int, age),
{
    let span: i128 = age as i128 * NANOS_PER_SECOND;
    if now >= i128::MIN + span {
        Some(now - span)
    } else {
        None
    }
}

/// Whether every demo of the sequence was made before `limit`.
pub open spec fn all_before(demos: Seq<DemoView>, limit: int) -> bool {
    forall|i: int| 0 <= i < demos.len() ==> (#[trigger] demos[i]).time < limit
}

/// Whether the demos come in the order in which they were made, oldest first.
pub open spec fn oldest_first(demos: Seq<DemoView>) -> bool {
    forall|i: int, j: int| 0 <= i <= j < demos.len() ==> (#[trigger] demos[i]).time <= (#[trigger] demos[j]).time
}

/// Whether a listing is one that a run may work on: every demo older than
/// the limit.
pub fn listed_before(demos: &Vec<Demo>, limit: Timestamp) -> (ok: bool)
    ensures
        ok == all_before(demo_views(demos@), limit as int),
{
    let mut i: usize = 0;
    while i < demos.len()
        invariant
            i <= demos.len(),
            forall|k: int| 0 <= k < i ==> (#[trigger] demo_views(demos@)[k]).time < limit,
        decreases demos.len() - i,
    {
        if demos[i].time >= limit {
            assert(demo_views(demos@)[i as int].time >= limit);
            return false;
        }
        i += 1;
    }
    true
}

/// Whether a listing comes oldest first.
pub fn listed_oldest_first(demos: &Vec<Demo>) -> (ok: bool)
    ensures
        ok == oldest_first(demo_views(demos@)),
{
    if demos.len() < 2 {
        return true;
    }
    let ghost views = demo_views(demos@);
    let mut i: usize = 1;
    while i < demos.len()
        invariant
            1 <= i <= demos.len(),
            views == demo_views(demos@),
            forall|a: int, b: int| 0 <= a <= b < i ==> (#[trigger] views[a]).time <= (#[trigger] views[b]).time,
        decreases demos.len() - i,
    {
        if demos[i - 1].time > demos[i].time {
            assert(views[i - 1].time > views[i as int].time);
            return false;
        }
        proof {
            assert forall|a: int, b: int| 0 <= a <= b < i + 1 implies (#[trigger] views[a]).time <= (#[trigger] views[b]).time by {
                if b == i && a < i {
                    assert(views[a].time <= views[i - 1].time);
                }
            }
        }
        i += 1;
    }
    true
}

} // verus!
