//! Rows as the store hands them over, and what they mean to a handler.

use vstd::prelude::*;
use crate::date::{Date, calendar_date, date_of};
use crate::fault::InternalFault;
use crate::handler::{Event, EventView};
use crate::series::{DownloadPoint, PointView, points_of};

verus! {

/// One row of the store's answer, column by column as it was read: the
/// parts of the day and the sum of the counters. Nothing is known of the
/// values yet.
#[derive(Clone, Copy, Debug, PartialEq, Eq, Structural)]
pub struct StoreRow {
    /// The year of the day.
    pub year: i32,
    /// The month of the day, from 1.
    pub month: u32,
    /// The day of the month, from 1.
    pub day: u32,
    /// The downloads on that day.
    pub downloads: i64,
}

/// Whether a row is a daily total: its columns could be read (it is not
/// `None`), the calendar has its day, and its count is not negative.
pub open spec fn is_point_row(row: Option<StoreRow>) -> bool {
    row matches Some(r) && calendar_date(r.year as int, r.month as int, r.day as int)
        && r.downloads >= 0
}

/// The daily total that a row holds.
pub open spec fn point_of_row(row: StoreRow) -> PointView {
    PointView {
        date: date_of(row.year as int, row.month as int, row.day as int),
        downloads: row.downloads as int,
    }
}

/// What the rows of the store's answer mean to a handler: the daily totals
/// in the order of the rows, where every row is one; otherwise the whole
/// answer is of no use, whichever row is at fault and however many are.
pub open spec fn event_of(rows: Seq<Option<StoreRow>>) -> EventView {
    if forall|k: int| 0 <= k < rows.len() ==> is_point_row(#[trigger] rows[k]) {
        EventView::Rows(Seq::new(rows.len(), |k: int| point_of_row(rows[k].unwrap())))
    } else {
        EventView::Failed(InternalFault::RowMapping)
    }
}

/// Turns the rows of the store's answer into the event for the handler.
/// A row is `None` where one of its columns could not be read.
pub fn event_of_rows(rows: &Vec<Option<StoreRow>>) -> (event: Event)
    ensures
        event@ == event_of(rows@),
{
    let mut points: Vec<DownloadPoint> = Vec::new();
    let mut i: usize = 0;
    while i < rows.len()
        invariant
            i <= rows.len(),
            points.len() == i,
            forall|k: int| 0 <= k < i ==> is_point_row(#[trigger] rows@[k]),
            forall|k: int|
                0 <= k < i ==> (#[trigger] points_of(points@)[k]) == point_of_row(
                    rows@[k].unwrap(),
                ),
        decreases rows.len() - i,
    {
        let ghost before = points_of(points@);
        let point = match rows[i] {
            Some(row) => match Date::new(row.year, row.month, row.day) {
                Some(date) => DownloadPoint::new(date, row.downloads),
                None => None,
            },
            None => None,
        };
        match point {
            Some(point) => {
                points.push(point);
                assert forall|k: int| 0 <= k < i + 1 implies (#[trigger] points_of(points@)[k])
                    == point_of_row(rows@[k].unwrap()) by {
                    if k < i {
                        assert(points_of(points@)[k] == before[k]);
                    }
                }
            },
            None => {
                assert(!is_point_row(rows@[i as int]));
                return Event::Failed(InternalFault::RowMapping);
            },
        }
        i = i + 1;
    }
    assert(points_of(points@) =~= Seq::new(
        rows@.len(),
        |k: int| point_of_row(rows@[k].unwrap()),
    ));
    Event::Rows(points)
}

} // verus!
