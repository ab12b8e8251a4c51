use download_stats::date::Date;
use download_stats::fault::InternalFault;
use download_stats::series::{DownloadPoint, Timeseries};

fn point(year: i32, month: u32, day: u32, downloads: i64) -> DownloadPoint {
    DownloadPoint::new(Date::new(year, month, day).unwrap(), downloads).unwrap()
}

#[test]
fn a_point_keeps_day_and_count() {
    let p = point(2020, 1, 1, 12);
    assert_eq!(p.date(), Date::new(2020, 1, 1).unwrap());
    assert_eq!(p.downloads(), 12);
    assert_eq!(point(2020, 1, 1, 0).downloads(), 0);
    assert_eq!(point(2020, 1, 1, i64::MAX).downloads(), i64::MAX);
}

#[test]
fn a_negative_count_is_no_point() {
    let date = Date::new(2020, 1, 1).unwrap();
    assert!(DownloadPoint::new(date, -1).is_none());
    assert!(DownloadPoint::new(date, i64::MIN).is_none());
}

#[test]
fn a_point_of_a_counter_holds_the_counter() {
    let date = Date::new(2020, 1, 1).unwrap();
    let p = DownloadPoint::of_count(date, 7);
    assert_eq!(p, point(2020, 1, 1, 7));
    assert_eq!(DownloadPoint::of_count(date, u32::MAX).downloads(), 4_294_967_295);
}

#[test]
fn adding_to_a_point_keeps_the_day() {
    let p = point(2020, 1, 1, 5);
    assert_eq!(p.plus(7), Some(point(2020, 1, 1, 12)));
    assert_eq!(p.plus(0), Some(p));
}

#[test]
fn a_sum_over_the_limit_is_no_point() {
    assert_eq!(point(2020, 1, 1, i64::MAX).plus(1), None);
    assert_eq!(point(2020, 1, 1, i64::MAX - 1).plus(1), Some(point(2020, 1, 1, i64::MAX)));
    assert_eq!(point(2020, 1, 1, i64::MAX - 1).plus(2), None);
}

#[test]
fn ascending_points_are_a_series() {
    let points = vec![point(2019, 12, 31, 3), point(2020, 1, 1, 0), point(2020, 1, 2, 9)];
    let series = Timeseries::from_points(points.clone()).unwrap();
    assert_eq!(series.points(), &points);
    assert_eq!(series.len(), 3);
}

#[test]
fn no_point_and_one_point_are_series() {
    assert_eq!(Timeseries::from_points(Vec::new()).unwrap().len(), 0);
    assert_eq!(Timeseries::empty().len(), 0);
    assert!(Timeseries::empty().points().is_empty());
    let one = Timeseries::from_points(vec![point(2020, 1, 1, 5)]).unwrap();
    assert_eq!(one.points(), &vec![point(2020, 1, 1, 5)]);
}

#[test]
fn a_day_twice_is_no_series() {
    let points = vec![point(2020, 1, 1, 5), point(2020, 1, 1, 7)];
    assert_eq!(Timeseries::from_points(points).unwrap_err(), InternalFault::RowMapping);
}

#[test]
fn days_out_of_order_are_no_series() {
    let points = vec![point(2020, 1, 2, 5), point(2020, 1, 1, 7)];
    assert_eq!(Timeseries::from_points(points).unwrap_err(), InternalFault::RowMapping);
    let points = vec![point(2020, 1, 1, 5), point(2020, 1, 3, 7), point(2020, 1, 2, 1)];
    assert_eq!(Timeseries::from_points(points).unwrap_err(), InternalFault::RowMapping);
}
