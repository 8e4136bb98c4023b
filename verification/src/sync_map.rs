//! The timing map: which text position was being spoken at a given
//! playback time.

use crate::time::Duration;
use vstd::prelude::*;

verus! {

/// One recorded correspondence between a text position and a playback
/// time.
#[derive(Clone, Copy, Debug, PartialEq, Eq, Structural)]
pub struct SyncPoint {
    pub text_index: usize,
    pub timestamp: Duration,
}

/// An append-only list of sync points, in insertion order.
#[derive(Debug)]
pub struct SyncMap {
    points: Vec<SyncPoint>,
}

/// Whether the timestamps of `points` never decrease.
pub open spec fn is_ordered(points: Seq<SyncPoint>) -> bool {
    forall|i: int, j: int|
        0 <= i <= j < points.len() ==> points[i].timestamp.nanos <= points[j].timestamp.nanos
}

/// The text position of the last point of `points` that lies at or before
/// `at`, if there is one.
pub open spec fn resolve(points: Seq<SyncPoint>, at: Duration) -> Option<usize>
    decreases points.len(),
{
    if points.len() == 0 {
        None
    } else if points.last().timestamp.nanos <= at.nanos {
        Some(points.last().text_index)
    } else {
        resolve(points.drop_last(), at)
    }
}

impl SyncMap {
    /// The recorded points, oldest first.
    pub closed spec fn view(&self) -> Seq<SyncPoint> {
        self.points@
    }

    /// A map without points.
    pub fn new() -> (map: SyncMap)
        ensures
            map@ == Seq::<SyncPoint>::empty(),
    {
        SyncMap { points: Vec::new() }
    }

    /// The number of recorded points.
    pub fn len(&self) -> (n: usize)
        ensures
            n == self@.len(),
    {
        self.points.len()
    }

    /// Appends a point. The map stays ordered exactly when it was
    /// ordered and `timestamp` is not before its last point.
    pub fn push_point(&mut self, text_index: usize, timestamp: Duration)
        ensures
            final(self)@ == old(self)@.push(SyncPoint { text_index, timestamp }),
            is_ordered(final(self)@) <==> is_ordered(old(self)@) && (old(self)@.len() == 0
                || old(self)@.last().timestamp.nanos <= timestamp.nanos),
    {
        let ghost before = self.points@;
        self.points.push(SyncPoint { text_index, timestamp });
        proof {
            let after = self.points@;
            assert(forall|i: int| 0 <= i < before.len() ==> after[i] == before[i]);
            if is_ordered(after) {
                assert forall|i: int, j: int| 0 <= i <= j < before.len() implies before[i].timestamp.nanos
                    <= before[j].timestamp.nanos by {
                    assert(after[i].timestamp.nanos <= after[j].timestamp.nanos);
                }
                if before.len() > 0 {
                    assert(after[before.len() - 1].timestamp.nanos <= after[before.len() as int].timestamp.nanos);
                }
            }
            if is_ordered(before) && (before.len() == 0 || before.last().timestamp.nanos
                <= timestamp.nanos) {
                assert forall|i: int, j: int| 0 <= i <= j < after.len() implies after[i].timestamp.nanos
                    <= after[j].timestamp.nanos by {
                    if j < before.len() {
                        assert(before[i].timestamp.nanos <= before[j].timestamp.nanos);
                    } else if i < before.len() {
                        assert(before[i].timestamp.nanos <= before[before.len() - 1].timestamp.nanos);
                    }
                }
            }
        }
    }

    /// The text position of the most recent point at or before
    /// `timestamp`; `None` where the map is empty or `timestamp` precedes
    /// every point. Scans from the newest point backward.
    pub fn resolve_index(&self, timestamp: Duration) -> (found: Option<usize>)
        ensures
            found == resolve(self@, timestamp),
    {
        let mut i: usize = self.points.len();
        assert(self.points@.take(i as int) =~= self.points@);
        while i > 0
            invariant
                i <= self.points.len(),
                resolve(self.points@, timestamp) == resolve(self.points@.take(i as int), timestamp),
            decreases i,
        {
            let point = &self.points[i - 1];
            proof {
                let prefix = self.points@.take(i as int);
                assert(prefix.last() == self.points@[i - 1]);
                assert(prefix.drop_last() =~= self.points@.take(i - 1));
            }
            if point.timestamp.nanos <= timestamp.nanos {
                return Some(point.text_index);
            }
            i = i - 1;
        }
        proof {
            assert(self.points@.take(0).len() == 0);
        }
        None
    }
}

impl Default for SyncMap {
    fn default() -> (map: SyncMap)
        ensures
            map@ == Seq::<SyncPoint>::empty(),
    {
        SyncMap::new()
    }
}

/// Where the map is ordered, the resolved point is the last one at or
/// before the query: it exists exactly when the first point is not after
/// the query, every later point is after the query, and no point at or
/// before the query is newer.
pub proof fn lemma_resolve_is_latest_before(points: Seq<SyncPoint>, at: Duration)
    requires
        is_ordered(points),
    ensures
        resolve(points, at) is None <==> (points.len() == 0 || points[0].timestamp.nanos
            > at.nanos),
        resolve(points, at) is Some ==> exists|k: int|
            0 <= k < points.len() && #[trigger] points[k].text_index == resolve(points, at).unwrap()
                && points[k].timestamp.nanos <= at.nanos && (forall|j: int|
                k < j < points.len() ==> points[j].timestamp.nanos > at.nanos),
    decreases points.len(),
{
    if points.len() == 0 {
    } else if points.last().timestamp.nanos <= at.nanos {
        let k = points.len() - 1;
        assert(points[0].timestamp.nanos <= points[k].timestamp.nanos);
        assert(points[k].text_index == resolve(points, at).unwrap());
    } else {
        let rest = points.drop_last();
        assert forall|i: int, j: int| 0 <= i <= j < rest.len() implies rest[i].timestamp.nanos
            <= rest[j].timestamp.nanos by {
            assert(points[i].timestamp.nanos <= points[j].timestamp.nanos);
        }
        lemma_resolve_is_latest_before(rest, at);
        if rest.len() > 0 {
            assert(rest[0] == points[0]);
        }
        if resolve(points, at) is Some {
            let k = choose|k: int|
                0 <= k < rest.len() && #[trigger] rest[k].text_index == resolve(rest, at).unwrap()
                    && rest[k].timestamp.nanos <= at.nanos && (forall|j: int|
                    k < j < rest.len() ==> rest[j].timestamp.nanos > at.nanos);
            assert(points[k] == rest[k]);
            assert forall|j: int| k < j < points.len() implies points[j].timestamp.nanos
                > at.nanos by {
                if j < rest.len() {
                    assert(points[j] == rest[j]);
                }
            }
            assert(points[k].text_index == resolve(points, at).unwrap());
        }
    }
}

} // verus!
