use vstd::prelude::*;
use vstd::multiset::Multiset;
use crate::gps::GpsInfo;

verus! {

/// Waypoints closer than this many meters to the last kept one are dropped.
pub const DISTANCE_DIFF: u32 = 5;

/// `s` with `w` inserted after every waypoint whose time is not later than
/// `w`'s, where `s` is ordered by time.
pub open spec fn insert_by_time(s: Seq<GpsInfo>, w: GpsInfo) -> Seq<GpsInfo>
    decreases s.len(),
{
    if s.len() == 0 {
        seq![w]
    } else if s.last().time <= w.time {
        s.push(w)
    } else {
        insert_by_time(s.drop_last(), w).push(s.last())
    }
}

/// `s` ordered by time; waypoints with equal times keep their order.
pub open spec fn sorted_by_time(s: Seq<GpsInfo>) -> Seq<GpsInfo>
    decreases s.len(),
{
    if s.len() == 0 {
        s
    } else {
        insert_by_time(sorted_by_time(s.drop_last()), s.last())
    }
}

/// Times never decrease along `s`.
pub open spec fn time_ordered(s: Seq<GpsInfo>) -> bool {
    forall|i: int, j: int| 0 <= i < j < s.len() ==> s[i].time <= s[j].time
}

proof fn lemma_insert_at(s: Seq<GpsInfo>, w: GpsInfo, k: int)
    requires
        0 <= k <= s.len(),
        forall|j: int| k <= j < s.len() ==> s[j].time > w.time,
        k == 0 || s[k - 1].time <= w.time,
    ensures
        insert_by_time(s, w) == s.insert(k, w),
    decreases s.len(),
{
    if s.len() == 0 {
        assert(s.insert(k, w) =~= seq![w]);
    } else if k == s.len() {
        assert(s.insert(k, w) =~= s.push(w));
    } else {
        let p = s.drop_last();
        lemma_insert_at(p, w, k);
        assert(s.insert(k, w) =~= p.insert(k, w).push(s.last()));
    }
}

proof fn lemma_insert_keeps_order(s: Seq<GpsInfo>, w: GpsInfo)
    requires
        time_ordered(s),
    ensures
        time_ordered(insert_by_time(s, w)),
        insert_by_time(s, w).to_multiset() == s.to_multiset().insert(w),
        insert_by_time(s, w).len() == s.len() + 1,
        s.len() > 0 ==> insert_by_time(s, w).last().time == if s.last().time <= w.time {
            w.time
        } else {
            s.last().time
        },
    decreases s.len(),
{
    broadcast use vstd::seq_lib::group_to_multiset_ensures;

    if s.len() == 0 {
        assert(seq![w] =~= Seq::<GpsInfo>::empty().push(w));
    } else if s.last().time <= w.time {
    } else {
        let p = s.drop_last();
        assert(s =~= p.push(s.last()));
        lemma_insert_keeps_order(p, w);
        let q = insert_by_time(p, w);
        if p.len() > 0 {
            assert(p.last().time <= s.last().time);
        }
        assert(q.last().time <= s.last().time);
        let r = q.push(s.last());
        assert forall|i: int, j: int| 0 <= i < j < r.len() implies #[trigger] r[i].time
            <= #[trigger] r[j].time by {
            if j == q.len() {
                assert(q[i].time <= q.last().time);
            }
        }
        assert(q.to_multiset().insert(s.last()) =~= s.to_multiset().insert(w));
    }
}

proof fn lemma_sorted(s: Seq<GpsInfo>)
    ensures
        time_ordered(sorted_by_time(s)),
        sorted_by_time(s).to_multiset() == s.to_multiset(),
        sorted_by_time(s).len() == s.len(),
    decreases s.len(),
{
    broadcast use vstd::seq_lib::group_to_multiset_ensures;

    if s.len() > 0 {
        let p = s.drop_last();
        lemma_sorted(p);
        lemma_insert_keeps_order(sorted_by_time(p), s.last());
        assert(s =~= p.push(s.last()));
    }
}

/// No two waypoints of `m` share a time, and none occurs twice.
pub open spec fn distinct_times(m: Multiset<GpsInfo>) -> bool {
    forall|a: GpsInfo, b: GpsInfo|
        #![trigger m.count(a), m.count(b)]
        m.count(a) > 0 && m.count(b) > 0 && a.time == b.time ==> a == b && m.count(a) == 1
}

proof fn lemma_time_ordered_unique(x: Seq<GpsInfo>, y: Seq<GpsInfo>)
    requires
        time_ordered(x),
        time_ordered(y),
        x.to_multiset() == y.to_multiset(),
        distinct_times(x.to_multiset()),
    ensures
        x == y,
    decreases x.len(),
{
    broadcast use vstd::seq_lib::group_to_multiset_ensures;

    let m = x.to_multiset();
    assert(x.len() == x.to_multiset().len() && y.len() == y.to_multiset().len());
    if x.len() == 0 {
        assert(y.len() == 0);
        assert(x =~= y);
    } else {
        assert(y.len() == x.len());
        let e = x.last();
        assert(x.contains(e)) by {
            assert(x[x.len() - 1] == e);
        }
        assert(x.to_multiset().count(e) > 0);
        assert(y.to_multiset().count(e) > 0);
        assert(y.contains(e));
        let k = choose|k: int| 0 <= k < y.len() && y[k] == e;
        let f = y.last();
        assert(y.contains(f)) by {
            assert(y[y.len() - 1] == f);
        }
        assert(y.to_multiset().count(f) > 0);
        assert(x.to_multiset().count(f) > 0);
        assert(x.contains(f));
        let j = choose|j: int| 0 <= j < x.len() && x[j] == f;
        assert(f.time <= e.time) by {
            if j < x.len() - 1 {
                assert(x[j].time <= x[x.len() - 1].time);
            }
        }
        assert(e.time <= f.time) by {
            if k < y.len() - 1 {
                assert(y[k].time <= y[y.len() - 1].time);
            }
        }
        assert(m.count(e) > 0 && m.count(f) > 0);
        assert(e == f);
        let xp = x.drop_last();
        let yp = y.drop_last();
        assert(x.remove(x.len() - 1) =~= xp);
        assert(y.remove(y.len() - 1) =~= yp);
        assert(xp.to_multiset() =~= m.remove(e));
        assert(yp.to_multiset() =~= m.remove(e));
        let mp = m.remove(e);
        assert forall|a: GpsInfo, b: GpsInfo|
            #![trigger mp.count(a), mp.count(b)]
            mp.count(a) > 0 && mp.count(b) > 0 && a.time == b.time implies a == b && mp.count(a)
            == 1 by {
            assert(m.count(a) >= mp.count(a) && m.count(b) >= mp.count(b));
        }
        lemma_time_ordered_unique(xp, yp);
        assert(x =~= xp.push(e));
        assert(y =~= yp.push(e));
    }
}

/// Waypoints whose times are pairwise distinct end up in one and the same
/// order, whatever order they are given in.
pub proof fn lemma_sort_order_independent(a: Seq<GpsInfo>, b: Seq<GpsInfo>)
    requires
        a.to_multiset() == b.to_multiset(),
        distinct_times(a.to_multiset()),
    ensures
        sorted_by_time(a) == sorted_by_time(b),
{
    lemma_sorted(a);
    lemma_sorted(b);
    lemma_time_ordered_unique(sorted_by_time(a), sorted_by_time(b));
}

/// Inserts `w` into `out`, which is ordered by time, after every waypoint
/// whose time is not later.
fn insert_sorted(out: &mut Vec<GpsInfo>, w: GpsInfo)
    requires
        time_ordered(old(out)@),
    ensures
        final(out)@ == insert_by_time(old(out)@, w),
{
    let mut k: usize = out.len();
    while k > 0 && out[k - 1].time > w.time
        invariant
            k <= out@.len(),
            forall|j: int| k <= j < out@.len() ==> out@[j].time > w.time,
        decreases k,
    {
        k = k - 1;
    }
    proof {
        lemma_insert_at(out@, w, k as int);
    }
    out.insert(k, w);
}

/// Orders the waypoints by time, keeping the order of waypoints with equal
/// times.
pub fn sort_by_time(waypoints: &mut Vec<GpsInfo>)
    ensures
        final(waypoints)@ == sorted_by_time(old(waypoints)@),
        time_ordered(final(waypoints)@),
        final(waypoints)@.to_multiset() == old(waypoints)@.to_multiset(),
{
    let mut sorted: Vec<GpsInfo> = Vec::new();
    let mut i: usize = 0;
    while i < waypoints.len()
        invariant
            i <= waypoints@.len(),
            sorted@ == sorted_by_time(waypoints@.subrange(0, i as int)),
        decreases waypoints@.len() - i,
    {
        proof {
            lemma_sorted(waypoints@.subrange(0, i as int));
            assert(waypoints@.subrange(0, i + 1).drop_last() =~= waypoints@.subrange(0, i as int));
        }
        insert_sorted(&mut sorted, waypoints[i]);
        i += 1;
    }
    proof {
        assert(waypoints@.subrange(0, i as int) =~= waypoints@);
        lemma_sorted(waypoints@);
    }
    *waypoints = sorted;
}

/// Whether a waypoint at `distance` meters from the last kept one is far
/// enough to be kept.
pub open spec fn far_enough(distance: u32) -> bool {
    distance > DISTANCE_DIFF
}

/// Builds a track from waypoints offered in time order, dropping each one
/// that lies within [`DISTANCE_DIFF`] meters of the last kept waypoint. The
/// caller measures that distance.
pub struct TrackFilter {
    kept: Vec<GpsInfo>,
    dropped: u64,
}

impl TrackFilter {
    /// The waypoints kept so far, in the order offered.
    pub closed spec fn kept_view(&self) -> Seq<GpsInfo> {
        self.kept@
    }

    /// How many waypoints were dropped.
    pub closed spec fn dropped_count(&self) -> nat {
        self.dropped as nat
    }

    /// An empty track.
    pub fn new() -> (r: Self)
        ensures
            r.kept_view() == Seq::<GpsInfo>::empty(),
            r.dropped_count() == 0,
    {
        TrackFilter { kept: Vec::new(), dropped: 0 }
    }

    /// The last kept waypoint, which the next one offered is measured from.
    pub fn last(&self) -> (r: Option<GpsInfo>)
        ensures
            self.kept_view().len() == 0 ==> r == None::<GpsInfo>,
            self.kept_view().len() > 0 ==> r == Some(self.kept_view().last()),
    {
        if self.kept.len() == 0 {
            None
        } else {
            Some(self.kept[self.kept.len() - 1])
        }
    }

    /// Offers the next waypoint, `distance` meters from the last kept one.
    /// The first waypoint is always kept, whatever `distance` says.
    pub fn offer(&mut self, w: GpsInfo, distance: u32) -> (r: bool)
        requires
            old(self).dropped_count() < u64::MAX,
        ensures
            r == (old(self).kept_view().len() == 0 || far_enough(distance)),
            r ==> final(self).kept_view() == old(self).kept_view().push(w) && final(self).dropped_count()
                == old(self).dropped_count(),
            !r ==> final(self).kept_view() == old(self).kept_view() && final(self).dropped_count()
                == old(self).dropped_count() + 1,
    {
        if self.kept.len() == 0 || distance > DISTANCE_DIFF {
            self.kept.push(w);
            true
        } else {
            self.dropped = self.dropped + 1;
            false
        }
    }

    /// How many waypoints were dropped.
    pub fn dropped(&self) -> (r: u64)
        ensures
            r == self.dropped_count(),
    {
        self.dropped
    }

    /// The kept waypoints, in the order offered.
    pub fn into_track(self) -> (r: Vec<GpsInfo>)
        ensures
            r@ == self.kept_view(),
    {
        self.kept
    }
}

} // verus!
