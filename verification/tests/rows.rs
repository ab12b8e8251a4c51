use download_stats::date::Date;
use download_stats::fault::InternalFault;
use download_stats::handler::{Action, Body, Event, Handler};
use download_stats::rows::{event_of_rows, StoreRow};
use download_stats::series::DownloadPoint;

fn row(year: i32, month: u32, day: u32, downloads: i64) -> Option<StoreRow> {
    Some(StoreRow { year, month, day, downloads })
}

fn point(year: i32, month: u32, day: u32, downloads: i64) -> DownloadPoint {
    DownloadPoint::new(Date::new(year, month, day).unwrap(), downloads).unwrap()
}

fn points_of(event: Event) -> Vec<DownloadPoint> {
    match event {
        Event::Rows(points) => points,
        other => panic!("no rows but {:?}", other),
    }
}

fn is_row_mapping(event: Event) -> bool {
    matches!(event, Event::Failed(InternalFault::RowMapping))
}

fn executing() -> Handler {
    let fields = Body::Fields { name: Some("serde".to_string()), version: None };
    let (handler, _) = Handler::new().step(Event::Body { length: 17, body: fields });
    let (handler, _) = handler.step(Event::Connected);
    handler
}

#[test]
fn rows_become_points_in_their_order() {
    let rows = vec![row(2019, 12, 31, 4), row(2020, 1, 1, 12), row(2020, 2, 29, 0)];
    let expected = vec![point(2019, 12, 31, 4), point(2020, 1, 1, 12), point(2020, 2, 29, 0)];
    assert_eq!(points_of(event_of_rows(&rows)), expected);
}

#[test]
fn rows_keep_the_order_of_the_store() {
    let rows = vec![row(2020, 1, 2, 1), row(2020, 1, 1, 2), row(2020, 1, 1, 3)];
    let expected = vec![point(2020, 1, 2, 1), point(2020, 1, 1, 2), point(2020, 1, 1, 3)];
    assert_eq!(points_of(event_of_rows(&rows)), expected);
}

#[test]
fn no_rows_are_no_points() {
    assert!(points_of(event_of_rows(&Vec::new())).is_empty());
}

#[test]
fn an_unreadable_row_fails_the_answer() {
    assert!(is_row_mapping(event_of_rows(&vec![None])));
    assert!(is_row_mapping(event_of_rows(&vec![row(2020, 1, 1, 5), None])));
    assert!(is_row_mapping(event_of_rows(&vec![None, row(2020, 1, 1, 5)])));
}

#[test]
fn a_day_off_the_calendar_fails_the_answer() {
    assert!(is_row_mapping(event_of_rows(&vec![row(2021, 2, 29, 5)])));
    assert!(is_row_mapping(event_of_rows(&vec![row(2020, 13, 1, 5)])));
    assert!(is_row_mapping(event_of_rows(&vec![row(2020, 1, 0, 5)])));
    assert!(is_row_mapping(event_of_rows(&vec![row(2020, 1, 1, 5), row(2020, 4, 31, 5)])));
}

#[test]
fn a_negative_count_fails_the_answer() {
    assert!(is_row_mapping(event_of_rows(&vec![row(2020, 1, 1, -1)])));
    assert!(is_row_mapping(event_of_rows(&vec![row(2020, 1, 1, 5), row(2020, 1, 2, i64::MIN)])));
}

#[test]
fn the_largest_count_is_a_point() {
    let rows = vec![row(2020, 1, 1, i64::MAX)];
    assert_eq!(points_of(event_of_rows(&rows)), vec![point(2020, 1, 1, i64::MAX)]);
}

#[test]
fn rows_of_the_store_are_answered() {
    let rows = vec![row(2020, 1, 1, 12), row(2020, 1, 2, 3)];
    let (handler, action) = executing().step(event_of_rows(&rows));
    assert!(handler.is_done());
    match action {
        Action::Finish(reply) => {
            assert_eq!(reply.status(), 200);
            let response = reply.body().as_ref().unwrap();
            assert_eq!(
                response.downloads().points(),
                &vec![point(2020, 1, 1, 12), point(2020, 1, 2, 3)]
            );
        }
        other => panic!("no reply but {:?}", other),
    }
}

#[test]
fn a_bad_row_ends_the_request_with_500() {
    let rows = vec![row(2020, 1, 1, 12), None];
    let (handler, action) = executing().step(event_of_rows(&rows));
    assert!(handler.is_done());
    match action {
        Action::Finish(reply) => {
            assert_eq!(reply.status(), 500);
            assert!(reply.body().is_none());
        }
        other => panic!("no reply but {:?}", other),
    }
}
