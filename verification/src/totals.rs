//! Daily totals: what the store's counters add up to for a request.

use vstd::prelude::*;
use vstd::seq_lib::{
    to_multiset_build, to_multiset_contains, to_multiset_len, to_multiset_remove,
};
use crate::date::{Date, lemma_rank_orders_by_calendar};
use crate::fault::InternalFault;
use crate::request::{DownloadRequest, RequestView};
use crate::series::{
    DownloadPoint, PointView, Timeseries, ascending, is_timeseries, lemma_count_fits, points_of,
};

verus! {

/// One counter of the store as a mathematical value: how often one version
/// of one package was downloaded on one day.
pub struct CounterView {
    /// The package's name.
    pub package: Seq<char>,
    /// The version's number.
    pub version: Seq<char>,
    /// The day.
    pub date: Date,
    /// The downloads of that version on that day.
    pub downloads: nat,
}

/// Whether a counter is one of those that the request asks about: it is of
/// the named package and, where the request names a version, of that version.
/// Names and versions are compared letter for letter.
pub open spec fn counts_for(row: CounterView, request: RequestView) -> bool {
    row.package == request.name && (request.version matches Some(version) ==> row.version
        == version)
}

/// What a counter adds to the total of `date`: its downloads, where it is
/// of that day and the request asks about it.
pub open spec fn part_of(row: CounterView, request: RequestView, date: Date) -> int {
    if counts_for(row, request) && row.date == date {
        row.downloads as int
    } else {
        0
    }
}

/// The sum of the counters of `date` that the request asks about.
pub open spec fn total_on(rows: Seq<CounterView>, request: RequestView, date: Date) -> int
    decreases rows.len(),
{
    if rows.len() == 0 {
        0
    } else {
        total_on(rows.drop_last(), request, date) + part_of(rows.last(), request, date)
    }
}

/// Whether the request asks about some counter of `date`.
pub open spec fn has_counter_on(rows: Seq<CounterView>, request: RequestView, date: Date) -> bool {
    exists|k: int|
        0 <= k < rows.len() && counts_for(#[trigger] rows[k], request) && rows[k].date == date
}

/// Whether `points` is the answer to `request` over the counters `rows`:
/// one point for each day that has a counter the request asks about, with
/// the sum of those counters, the earliest day first.
pub open spec fn is_series_of(
    points: Seq<PointView>,
    rows: Seq<CounterView>,
    request: RequestView,
) -> bool {
    &&& ascending(points)
    &&& forall|i: int|
        0 <= i < points.len() ==> has_counter_on(rows, request, (#[trigger] points[i]).date)
            && points[i].downloads == total_on(rows, request, points[i].date)
    &&& forall|k: int|
        0 <= k < rows.len() && counts_for(#[trigger] rows[k], request) ==> has_point_on(
            points,
            rows[k].date,
        )
}

/// Whether `points` has a point of `date`.
pub open spec fn has_point_on(points: Seq<PointView>, date: Date) -> bool {
    exists|i: int| 0 <= i < points.len() && (#[trigger] points[i]).date == date
}

/// One counter of the store: how often one version of one package was
/// downloaded on one day.
#[derive(Debug)]
pub struct CounterRow {
    package: String,
    version: String,
    date: Date,
    downloads: u32,
}

impl View for CounterRow {
    type V = CounterView;

    closed spec fn view(&self) -> CounterView {
        CounterView {
            package: self.package@,
            version: self.version@,
            date: self.date,
            downloads: self.downloads as nat,
        }
    }
}

impl CounterRow {
    /// The counter of `downloads` downloads of `version` of `package` on `date`.
    pub fn new(package: String, version: String, date: Date, downloads: u32) -> (row: CounterRow)
        ensures
            row@ == (CounterView {
                package: package@,
                version: version@,
                date,
                downloads: downloads as nat,
            }),
    {
        CounterRow { package, version, date, downloads }
    }

    /// Whether this counter is one of those that the request asks about.
    pub fn counts_for(&self, request: &DownloadRequest) -> (counted: bool)
        ensures
            counted == counts_for(self@, request@),
    {
        if self.package != *request.name() {
            return false;
        }
        match request.version() {
            Some(version) => self.version == *version,
            None => true,
        }
    }
}

/// The counters of `rows` as mathematical values, in order.
pub open spec fn counters_of(rows: Seq<CounterRow>) -> Seq<CounterView> {
    Seq::new(rows.len(), |k: int| rows[k]@)
}

/// No total is negative.
pub proof fn lemma_total_not_negative(rows: Seq<CounterView>, request: RequestView, date: Date)
    ensures
        total_on(rows, request, date) >= 0,
    decreases rows.len(),
{
    if rows.len() > 0 {
        lemma_total_not_negative(rows.drop_last(), request, date);
    }
}

/// No count of an answer is negative: each is a sum of counters.
pub proof fn lemma_series_counts_not_negative(
    points: Seq<PointView>,
    rows: Seq<CounterView>,
    request: RequestView,
)
    requires
        is_series_of(points, rows, request),
    ensures
        forall|i: int| 0 <= i < points.len() ==> (#[trigger] points[i]).downloads >= 0,
{
    assert forall|i: int| 0 <= i < points.len() implies (#[trigger] points[i]).downloads >= 0 by {
        lemma_total_not_negative(rows, request, points[i].date);
    }
}

/// A day has total 0 where the request asks about none of its counters.
pub proof fn lemma_total_without_counter(rows: Seq<CounterView>, request: RequestView, date: Date)
    requires
        !has_counter_on(rows, request, date),
    ensures
        total_on(rows, request, date) == 0,
    decreases rows.len(),
{
    if rows.len() > 0 {
        let rest = rows.drop_last();
        if has_counter_on(rest, request, date) {
            let k = choose|k: int|
                0 <= k < rest.len() && counts_for(#[trigger] rest[k], request) && rest[k].date
                    == date;
            assert(rows[k] == rest[k]);
        }
        lemma_total_without_counter(rest, request, date);
        assert(rows[rows.len() - 1] == rows.last());
    }
}

/// The total over the first `k` counters is at most the total over all.
pub proof fn lemma_total_of_prefix(
    rows: Seq<CounterView>,
    k: int,
    request: RequestView,
    date: Date,
)
    requires
        0 <= k <= rows.len(),
    ensures
        total_on(rows.take(k), request, date) <= total_on(rows, request, date),
    decreases rows.len(),
{
    if k == rows.len() {
        assert(rows.take(k) =~= rows);
    } else {
        assert(rows.drop_last().take(k) =~= rows.take(k));
        lemma_total_of_prefix(rows.drop_last(), k, request, date);
    }
}

/// Where the request asks about none of the counters, the answer has no
/// point, and every day's total is 0.
pub proof fn lemma_nothing_counted_gives_empty(
    points: Seq<PointView>,
    rows: Seq<CounterView>,
    request: RequestView,
)
    requires
        is_series_of(points, rows, request),
        forall|k: int| 0 <= k < rows.len() ==> !counts_for(#[trigger] rows[k], request),
    ensures
        points == Seq::<PointView>::empty(),
        forall|date: Date| #[trigger] total_on(rows, request, date) == 0,
{
    if points.len() > 0 {
        assert(has_counter_on(rows, request, points[0].date));
    }
    assert(points =~= Seq::<PointView>::empty());
    assert forall|date: Date| #[trigger] total_on(rows, request, date) == 0 by {
        lemma_total_without_counter(rows, request, date);
    }
}

/// Whether each day of `a` is a day of `b`.
pub open spec fn days_within(a: Seq<PointView>, b: Seq<PointView>) -> bool {
    forall|i: int| 0 <= i < a.len() ==> has_point_on(b, (#[trigger] a[i]).date)
}

/// Two ascending sequences of the same days have the same day at each place.
proof fn lemma_same_day_at(a: Seq<PointView>, b: Seq<PointView>, i: int)
    requires
        ascending(a),
        ascending(b),
        days_within(a, b),
        days_within(b, a),
        0 <= i < a.len(),
    ensures
        i < b.len(),
        a[i].date == b[i].date,
    decreases i,
{
    assert forall|j: int| 0 <= j < i implies j < b.len() && (#[trigger] a[j]).date == b[j].date by {
        lemma_same_day_at(a, b, j);
    }
    assert(has_point_on(b, a[i].date));
    let m = choose|m: int| 0 <= m < b.len() && (#[trigger] b[m]).date == a[i].date;
    if m < i {
        assert(a[m].date == b[m].date);
        assert(a[m].date.rank() < a[i].date.rank());
    }
    assert(has_point_on(a, b[i].date));
    let n = choose|n: int| 0 <= n < a.len() && (#[trigger] a[n]).date == b[i].date;
    if n < i {
        assert(a[n].date == b[n].date);
        assert(b[n].date.rank() < b[i].date.rank());
    }
    if m > i {
        assert(b[i].date.rank() < b[m].date.rank());
        if n > i {
            assert(a[i].date.rank() < a[n].date.rank());
        }
    }
}

/// Each of two answers to one request over the same counters holds the days
/// of the other.
proof fn lemma_answers_share_days(
    a: Seq<PointView>,
    b: Seq<PointView>,
    rows: Seq<CounterView>,
    request: RequestView,
)
    requires
        is_series_of(a, rows, request),
        is_series_of(b, rows, request),
    ensures
        days_within(a, b),
{
    assert forall|i: int| 0 <= i < a.len() implies has_point_on(b, (#[trigger] a[i]).date) by {
        assert(has_counter_on(rows, request, a[i].date));
        let k = choose|k: int|
            0 <= k < rows.len() && counts_for(#[trigger] rows[k], request) && rows[k].date
                == a[i].date;
        assert(has_point_on(b, rows[k].date));
    }
}

/// A request has one answer over given counters.
pub proof fn lemma_series_is_unique(
    a: Seq<PointView>,
    b: Seq<PointView>,
    rows: Seq<CounterView>,
    request: RequestView,
)
    requires
        is_series_of(a, rows, request),
        is_series_of(b, rows, request),
    ensures
        a == b,
{
    lemma_answers_share_days(a, b, rows, request);
    lemma_answers_share_days(b, a, rows, request);
    if a.len() > 0 {
        lemma_same_day_at(a, b, a.len() - 1);
    }
    if b.len() > 0 {
        lemma_same_day_at(b, a, b.len() - 1);
    }
    assert forall|i: int| 0 <= i < a.len() implies a[i] == b[i] by {
        lemma_same_day_at(a, b, i);
    }
    assert(a =~= b);
}

/// The total is what it is without one counter, plus what that counter adds.
proof fn lemma_total_without_one(
    rows: Seq<CounterView>,
    k: int,
    request: RequestView,
    date: Date,
)
    requires
        0 <= k < rows.len(),
    ensures
        total_on(rows, request, date) == total_on(rows.remove(k), request, date) + part_of(
            rows[k],
            request,
            date,
        ),
    decreases rows.len(),
{
    if k == rows.len() - 1 {
        assert(rows.remove(k) =~= rows.drop_last());
    } else {
        assert(rows.remove(k).drop_last() =~= rows.drop_last().remove(k));
        assert(rows.remove(k).last() == rows.last());
        lemma_total_without_one(rows.drop_last(), k, request, date);
    }
}

/// The totals do not depend on the order in which the store holds its
/// counters.
pub proof fn lemma_total_ignores_order(
    rows: Seq<CounterView>,
    other: Seq<CounterView>,
    request: RequestView,
    date: Date,
)
    requires
        rows.to_multiset() == other.to_multiset(),
    ensures
        total_on(rows, request, date) == total_on(other, request, date),
    decreases rows.len(),
{
    to_multiset_len(rows);
    to_multiset_len(other);
    if rows.len() > 0 {
        let rest = rows.drop_last();
        let last = rows.last();
        assert(rest.push(last) =~= rows);
        to_multiset_build(rest, last);
        to_multiset_contains(other, last);
        assert(rows.to_multiset().count(last) > 0);
        let k = choose|k: int| 0 <= k < other.len() && other[k] == last;
        to_multiset_remove(other, k);
        assert(rest.to_multiset() =~= other.remove(k).to_multiset());
        lemma_total_ignores_order(rest, other.remove(k), request, date);
        lemma_total_without_one(other, k, request, date);
    }
}

/// The answer does not depend on the order in which the store holds its
/// counters.
pub proof fn lemma_series_ignores_order(
    points: Seq<PointView>,
    rows: Seq<CounterView>,
    other: Seq<CounterView>,
    request: RequestView,
)
    requires
        is_series_of(points, rows, request),
        rows.to_multiset() == other.to_multiset(),
    ensures
        is_series_of(points, other, request),
{
    assert forall|i: int| 0 <= i < points.len() implies has_counter_on(
        other,
        request,
        (#[trigger] points[i]).date,
    ) && points[i].downloads == total_on(other, request, points[i].date) by {
        lemma_total_ignores_order(rows, other, request, points[i].date);
        let k = choose|k: int|
            0 <= k < rows.len() && counts_for(#[trigger] rows[k], request) && rows[k].date
                == points[i].date;
        to_multiset_contains(rows, rows[k]);
        to_multiset_contains(other, rows[k]);
        assert(rows.contains(rows[k]));
        let m = choose|m: int| 0 <= m < other.len() && other[m] == rows[k];
        assert(counts_for(other[m], request) && other[m].date == points[i].date);
    }
    assert forall|m: int| 0 <= m < other.len() && counts_for(#[trigger] other[m], request) implies
        has_point_on(points, other[m].date) by {
        to_multiset_contains(other, other[m]);
        to_multiset_contains(rows, other[m]);
        assert(other.contains(other[m]));
        let k = choose|k: int| 0 <= k < rows.len() && rows[k] == other[m];
        assert(counts_for(rows[k], request));
    }
}

/// A counter that the request does not ask about leaves the answer as it is.
proof fn lemma_counter_passed_over(
    points: Seq<PointView>,
    rows: Seq<CounterView>,
    request: RequestView,
)
    requires
        rows.len() > 0,
        is_series_of(points, rows.drop_last(), request),
        !counts_for(rows.last(), request),
    ensures
        is_series_of(points, rows, request),
{
    let rest = rows.drop_last();
    assert forall|i: int| 0 <= i < points.len() implies has_counter_on(
        rows,
        request,
        (#[trigger] points[i]).date,
    ) && points[i].downloads == total_on(rows, request, points[i].date) by {
        lemma_counter_stays(rows, request, points[i].date);
    }
    assert forall|k: int| 0 <= k < rows.len() && counts_for(#[trigger] rows[k], request) implies
        has_point_on(points, rows[k].date) by {
        assert(rows[k] == rest[k]);
    }
}

/// A day that has a counter among all but the last has one among all.
proof fn lemma_counter_stays(rows: Seq<CounterView>, request: RequestView, date: Date)
    requires
        rows.len() > 0,
        has_counter_on(rows.drop_last(), request, date),
    ensures
        has_counter_on(rows, request, date),
{
    let rest = rows.drop_last();
    let k = choose|k: int|
        0 <= k < rest.len() && counts_for(#[trigger] rest[k], request) && rest[k].date == date;
    assert(rows[k] == rest[k]);
}

/// A counter of a day that has a point adds its downloads to that point.
proof fn lemma_counter_added(
    points: Seq<PointView>,
    rows: Seq<CounterView>,
    request: RequestView,
    at: int,
)
    requires
        rows.len() > 0,
        is_series_of(points, rows.drop_last(), request),
        counts_for(rows.last(), request),
        0 <= at < points.len(),
        points[at].date == rows.last().date,
    ensures
        is_series_of(
            points.update(
                at,
                PointView {
                    date: points[at].date,
                    downloads: points[at].downloads + rows.last().downloads,
                },
            ),
            rows,
            request,
        ),
{
    let rest = rows.drop_last();
    let last = rows.last();
    let sum = PointView { date: points[at].date, downloads: points[at].downloads + last.downloads };
    let after = points.update(at, sum);
    assert forall|i: int, j: int| 0 <= i < j < after.len() implies (#[trigger] after[i]).date.rank()
        < (#[trigger] after[j]).date.rank() by {
        assert(after[i].date == points[i].date);
        assert(after[j].date == points[j].date);
    }
    assert forall|i: int| 0 <= i < after.len() implies has_counter_on(
        rows,
        request,
        (#[trigger] after[i]).date,
    ) && after[i].downloads == total_on(rows, request, after[i].date) by {
        assert(after[i].date == points[i].date);
        lemma_counter_stays(rows, request, points[i].date);
        if i != at {
            if i < at {
                assert(points[i].date.rank() < points[at].date.rank());
            } else {
                assert(points[at].date.rank() < points[i].date.rank());
            }
        }
    }
    assert forall|k: int| 0 <= k < rows.len() && counts_for(#[trigger] rows[k], request) implies
        has_point_on(after, rows[k].date) by {
        if k < rest.len() {
            assert(rows[k] == rest[k]);
            assert(has_point_on(points, rest[k].date));
            let i = choose|i: int|
                0 <= i < points.len() && (#[trigger] points[i]).date == rest[k].date;
            assert(after[i].date == rows[k].date);
        } else {
            assert(after[at].date == rows[k].date);
        }
    }
}

/// A counter of a day that has no point yet gives a new point, at the place
/// that keeps the days in order.
proof fn lemma_counter_inserted(
    points: Seq<PointView>,
    rows: Seq<CounterView>,
    request: RequestView,
    at: int,
)
    requires
        rows.len() > 0,
        is_series_of(points, rows.drop_last(), request),
        counts_for(rows.last(), request),
        0 <= at <= points.len(),
        forall|j: int| 0 <= j < at ==> (#[trigger] points[j]).date.rank() < rows.last().date.rank(),
        forall|j: int|
            at <= j < points.len() ==> rows.last().date.rank() < (#[trigger] points[j]).date.rank(),
    ensures
        is_series_of(
            points.insert(
                at,
                PointView { date: rows.last().date, downloads: rows.last().downloads as int },
            ),
            rows,
            request,
        ),
{
    let rest = rows.drop_last();
    let last = rows.last();
    let fresh = PointView { date: last.date, downloads: last.downloads as int };
    let after = points.insert(at, fresh);
    assert forall|i: int, j: int| 0 <= i < j < after.len() implies (#[trigger] after[i]).date.rank()
        < (#[trigger] after[j]).date.rank() by {
        if i < at {
            assert(after[i] == points[i]);
        } else if i > at {
            assert(after[i] == points[i - 1]);
        }
        if j < at {
            assert(after[j] == points[j]);
        } else if j > at {
            assert(after[j] == points[j - 1]);
        }
    }
    assert(!has_counter_on(rest, request, last.date)) by {
        if has_counter_on(rest, request, last.date) {
            let k = choose|k: int|
                0 <= k < rest.len() && counts_for(#[trigger] rest[k], request) && rest[k].date
                    == last.date;
            assert(has_point_on(points, rest[k].date));
            let i = choose|i: int|
                0 <= i < points.len() && (#[trigger] points[i]).date == rest[k].date;
            assert(points[i].date.rank() == last.date.rank());
        }
    }
    lemma_total_without_counter(rest, request, last.date);
    assert forall|i: int| 0 <= i < after.len() implies has_counter_on(
        rows,
        request,
        (#[trigger] after[i]).date,
    ) && after[i].downloads == total_on(rows, request, after[i].date) by {
        if i == at {
            assert(rows[rows.len() - 1] == last);
        } else {
            let before = if i < at { i } else { i - 1 };
            assert(after[i] == points[before]);
            lemma_counter_stays(rows, request, points[before].date);
            assert(points[before].date.rank() != last.date.rank());
        }
    }
    assert forall|k: int| 0 <= k < rows.len() && counts_for(#[trigger] rows[k], request) implies
        has_point_on(after, rows[k].date) by {
        if k < rest.len() {
            assert(rows[k] == rest[k]);
            assert(has_point_on(points, rest[k].date));
            let i = choose|i: int|
                0 <= i < points.len() && (#[trigger] points[i]).date == rest[k].date;
            let moved = if i < at { i } else { i + 1 };
            assert(after[moved] == points[i]);
        } else {
            assert(after[at].date == rows[k].date);
        }
    }
}

/// Where every point's count fits, every day's total fits.
proof fn lemma_totals_fit(points: Seq<PointView>, rows: Seq<CounterView>, request: RequestView)
    requires
        is_series_of(points, rows, request),
        forall|i: int| 0 <= i < points.len() ==> (#[trigger] points[i]).downloads <= i64::MAX,
    ensures
        forall|date: Date| #[trigger] total_on(rows, request, date) <= i64::MAX,
{
    assert forall|date: Date| #[trigger] total_on(rows, request, date) <= i64::MAX by {
        if has_counter_on(rows, request, date) {
            let k = choose|k: int|
                0 <= k < rows.len() && counts_for(#[trigger] rows[k], request) && rows[k].date
                    == date;
            assert(has_point_on(points, rows[k].date));
            let i = choose|i: int|
                0 <= i < points.len() && (#[trigger] points[i]).date == rows[k].date;
            assert(points[i].downloads == total_on(rows, request, date));
        } else {
            lemma_total_without_counter(rows, request, date);
        }
    }
}

/// The place of `date` among ascending points: every point before it is of
/// an earlier day, and no point from it on is.
fn place_of(points: &Vec<DownloadPoint>, date: &Date) -> (at: usize)
    requires
        is_timeseries(points_of(points@)),
    ensures
        at <= points.len(),
        forall|j: int| 0 <= j < at ==> (#[trigger] points_of(points@)[j]).date.rank() < date.rank(),
        forall|j: int|
            at <= j < points.len() ==> date.rank() <= (#[trigger] points_of(
                points@,
            )[j]).date.rank(),
{
    let ghost views = points_of(points@);
    let mut at: usize = 0;
    while at < points.len() && points[at].date().is_before(date)
        invariant
            views == points_of(points@),
            at <= points.len(),
            forall|j: int| 0 <= j < at ==> (#[trigger] views[j]).date.rank() < date.rank(),
        decreases points.len() - at,
    {
        at = at + 1;
    }
    assert forall|j: int| at <= j < points.len() implies date.rank() <= (
    #[trigger] views[j]).date.rank() by {
        assert(views[at as int].date.rank() >= date.rank());
        if j > at {
            assert(views[at as int].date.rank() < views[j].date.rank());
        }
    }
    at
}

/// Answers `request` from the counters themselves: adds up, day by day, the
/// counters that the request asks about. A day's total that is more than a
/// point can hold fails the whole query.
pub fn aggregate(rows: &Vec<CounterRow>, request: &DownloadRequest) -> (series: Result<
    Timeseries,
    InternalFault,
>)
    ensures
        series is Ok <==> forall|date: Date| #[trigger]
            total_on(counters_of(rows@), request@, date) <= i64::MAX,
        series matches Ok(s) ==> is_series_of(s@, counters_of(rows@), request@),
        series matches Err(fault) ==> fault == InternalFault::QueryFailed,
{
    let ghost counters = counters_of(rows@);
    let mut points: Vec<DownloadPoint> = Vec::new();
    let mut k: usize = 0;
    while k < rows.len()
        invariant
            counters == counters_of(rows@),
            k <= rows.len(),
            is_series_of(points_of(points@), counters.take(k as int), request@),
            is_timeseries(points_of(points@)),
        decreases rows.len() - k,
    {
        let row = &rows[k];
        let ghost before = points_of(points@);
        let ghost seen = counters.take(k + 1);
        proof {
            use_type_invariant(&row.date);
            assert(seen.drop_last() =~= counters.take(k as int));
            assert(seen.last() == row@);
        }
        if row.counts_for(request) {
            let at = place_of(&points, &row.date);
            if at < points.len() && points[at].date() == row.date {
                match points[at].plus(row.downloads) {
                    Some(sum) => {
                        points[at] = sum;
                        proof {
                            lemma_counter_added(before, seen, request@, at as int);
                            assert(points_of(points@) =~= before.update(at as int, sum@));
                        }
                    },
                    None => {
                        proof {
                            assert(before[at as int].date == row@.date);
                            assert(before[at as int].downloads == total_on(
                                seen.drop_last(),
                                request@,
                                row@.date,
                            ));
                            assert(total_on(seen, request@, row@.date)
                                == before[at as int].downloads + row@.downloads);
                            lemma_total_of_prefix(counters, k + 1, request@, row@.date);
                        }
                        return Err(InternalFault::QueryFailed);
                    },
                }
            } else {
                let fresh = DownloadPoint::of_count(row.date, row.downloads);
                points.insert(at, fresh);
                proof {
                    assert forall|j: int| at <= j < before.len() implies row.date.rank() < (
                    #[trigger] before[j]).date.rank() by {
                        if j == at {
                            lemma_rank_orders_by_calendar(before[j].date, row.date);
                        } else {
                            assert(before[at as int].date.rank() < before[j].date.rank());
                        }
                    }
                    lemma_counter_inserted(before, seen, request@, at as int);
                    assert(points_of(points@) =~= before.insert(at as int, fresh@));
                }
            }
        } else {
            proof {
                lemma_counter_passed_over(before, seen, request@);
            }
        }
        k = k + 1;
    }
    proof {
        assert(counters.take(k as int) =~= counters);
        assert forall|i: int| 0 <= i < points.len() implies (#[trigger] points_of(
            points@,
        )[i]).downloads <= i64::MAX by {
            lemma_count_fits(points@[i]);
        }
        lemma_totals_fit(points_of(points@), counters, request@);
    }
    Ok(Timeseries::from_ascending(points))
}

} // verus!
