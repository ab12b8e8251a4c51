//! Time series: days in ascending order, each with its downloads.

use vstd::prelude::*;
use crate::date::Date;
use crate::fault::InternalFault;

verus! {

/// One total of a time series as a mathematical value.
pub struct PointView {
    /// The day.
    pub date: Date,
    /// The downloads on that day.
    pub downloads: int,
}

/// Each point is of a later day than the one before it.
pub open spec fn ascending(points: Seq<PointView>) -> bool {
    forall|i: int, j: int|
        0 <= i < j < points.len() ==> (#[trigger] points[i]).date.rank() < (
        #[trigger] points[j]).date.rank()
}

/// Points in ascending order hold no day twice.
pub proof fn lemma_no_day_twice(points: Seq<PointView>)
    requires
        ascending(points),
    ensures
        forall|i: int, j: int|
            0 <= i < points.len() && 0 <= j < points.len() && i != j ==> (#[trigger] points[i]).date
                != (#[trigger] points[j]).date,
{
    assert forall|i: int, j: int|
        0 <= i < points.len() && 0 <= j < points.len() && i != j implies (#[trigger] points[i]).date
        != (#[trigger] points[j]).date by {
        if i < j {
            assert(points[i].date.rank() < points[j].date.rank());
        } else {
            assert(points[j].date.rank() < points[i].date.rank());
        }
    }
}

/// The shape of a time series: days of the calendar in ascending order, each
/// with a count that is not negative.
pub open spec fn is_timeseries(points: Seq<PointView>) -> bool {
    &&& ascending(points)
    &&& forall|i: int|
        0 <= i < points.len() ==> (#[trigger] points[i]).date.wf() && points[i].downloads >= 0
}

/// One total of a time series: a day and the downloads on it, never negative.
#[derive(Clone, Copy, Debug, PartialEq, Eq, Structural)]
pub struct DownloadPoint {
    date: Date,
    downloads: i64,
}

impl View for DownloadPoint {
    type V = PointView;

    closed spec fn view(&self) -> PointView {
        PointView { date: self.date, downloads: self.downloads as int }
    }
}

impl DownloadPoint {
    /// The day is one of the calendar and the count is not negative. Every
    /// `DownloadPoint` that the program holds is well formed.
    #[verifier::type_invariant]
    pub open spec fn wf(&self) -> bool {
        self@.date.wf() && self@.downloads >= 0
    }

    /// The point of `downloads` downloads on `date`, unless the count is negative.
    pub fn new(date: Date, downloads: i64) -> (point: Option<DownloadPoint>)
        ensures
            point is Some <==> downloads >= 0,
            point matches Some(p) ==> p@ == (PointView { date, downloads: downloads as int }),
    {
        proof {
            use_type_invariant(&date);
        }
        if downloads >= 0 {
            Some(DownloadPoint { date, downloads })
        } else {
            None
        }
    }

    /// The point of `downloads` downloads on `date`.
    pub fn of_count(date: Date, downloads: u32) -> (point: DownloadPoint)
        ensures
            point@ == (PointView { date, downloads: downloads as int }),
    {
        proof {
            use_type_invariant(&date);
        }
        DownloadPoint { date, downloads: downloads as i64 }
    }

    /// The point of the same day with `more` downloads added, unless the
    /// sum is more than a point can hold.
    pub fn plus(&self, more: u32) -> (sum: Option<DownloadPoint>)
        ensures
            sum is Some <==> self@.downloads + more <= i64::MAX,
            sum matches Some(p) ==> p@ == (PointView {
                date: self@.date,
                downloads: self@.downloads + more,
            }),
    {
        proof {
            use_type_invariant(self);
        }
        match self.downloads.checked_add(more as i64) {
            Some(downloads) => Some(DownloadPoint { date: self.date, downloads }),
            None => None,
        }
    }

    /// The day.
    pub fn date(&self) -> (date: Date)
        ensures
            date == self@.date,
    {
        self.date
    }

    /// The downloads on that day.
    pub fn downloads(&self) -> (downloads: i64)
        ensures
            downloads as int == self@.downloads,
            downloads >= 0,
    {
        proof {
            use_type_invariant(self);
        }
        self.downloads
    }
}

/// The count of a point is one that 64 bits hold.
pub proof fn lemma_count_fits(point: DownloadPoint)
    ensures
        i64::MIN <= point@.downloads <= i64::MAX,
{
}

/// The points of `points` as mathematical values, in order.
pub open spec fn points_of(points: Seq<DownloadPoint>) -> Seq<PointView> {
    Seq::new(points.len(), |i: int| points[i]@)
}

/// A time series: the points of a response, the earliest day first and no
/// day twice.
#[derive(Debug)]
pub struct Timeseries {
    points: Vec<DownloadPoint>,
}

impl View for Timeseries {
    type V = Seq<PointView>;

    closed spec fn view(&self) -> Seq<PointView> {
        points_of(self.points@)
    }
}

impl Timeseries {
    /// The points have the shape of a time series. Every `Timeseries` that
    /// the program holds is well formed.
    #[verifier::type_invariant]
    pub open spec fn wf(&self) -> bool {
        is_timeseries(self@)
    }

    /// The series without a point.
    pub fn empty() -> (series: Timeseries)
        ensures
            series@ == Seq::<PointView>::empty(),
    {
        let series = Timeseries { points: Vec::new() };
        assert(series@ =~= Seq::<PointView>::empty());
        series
    }

    /// The series of the given points, where each is of a later day than the
    /// one before it; otherwise the points are no time series, which is a
    /// fault of whoever supplied them.
    pub fn from_points(points: Vec<DownloadPoint>) -> (series: Result<Timeseries, InternalFault>)
        ensures
            series is Ok <==> ascending(points_of(points@)),
            series matches Ok(s) ==> s@ == points_of(points@) && s.wf(),
            series matches Err(fault) ==> fault == InternalFault::RowMapping,
    {
        let ghost views = points_of(points@);
        let mut i: usize = 0;
        while i < points.len()
            invariant
                views == points_of(points@),
                i <= points.len(),
                forall|a: int, b: int|
                    0 <= a < b < i ==> (#[trigger] views[a]).date.rank() < (
                    #[trigger] views[b]).date.rank(),
                forall|k: int|
                    0 <= k < i ==> (#[trigger] views[k]).date.wf() && views[k].downloads >= 0,
            decreases points.len() - i,
        {
            let point = &points[i];
            proof {
                use_type_invariant(point);
            }
            if i > 0 && !points[i - 1].date.is_before(&point.date) {
                assert(views[i - 1].date.rank() >= views[i as int].date.rank());
                return Err(InternalFault::RowMapping);
            }
            assert forall|a: int, b: int| 0 <= a < b < i + 1 implies (
            #[trigger] views[a]).date.rank() < (#[trigger] views[b]).date.rank() by {
                if b == i && a < i - 1 {
                    assert(views[a].date.rank() < views[i - 1].date.rank());
                }
            }
            i = i + 1;
        }
        Ok(Timeseries { points })
    }

    /// The series of points that are known to be in ascending order.
    pub(crate) fn from_ascending(points: Vec<DownloadPoint>) -> (series: Timeseries)
        requires
            is_timeseries(points_of(points@)),
        ensures
            series@ == points_of(points@),
    {
        Timeseries { points }
    }

    /// The points, the earliest day first.
    pub fn points(&self) -> (points: &Vec<DownloadPoint>)
        ensures
            points_of(points@) == self@,
            is_timeseries(self@),
    {
        proof {
            use_type_invariant(self);
        }
        &self.points
    }

    /// The number of points.
    pub fn len(&self) -> (len: usize)
        ensures
            len == self@.len(),
    {
        self.points.len()
    }
}

} // verus!
