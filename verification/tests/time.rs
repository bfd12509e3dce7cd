use chrono::Datelike;
use chrono::NaiveDate;
use hotplot::chart::line::data::time::Date;
use hotplot::chart::line::data::time::DateTime;
use hotplot::chart::line::data::time::Time;
use hotplot::chart::line::data::AxisData;
use hotplot::chart::line::data::AxisValue;
use hotplot::chart::line::data::Order;

fn date(days: i32) -> Date {
    Date::from_num_days_from_ce(days).unwrap()
}

fn moment(millis: i64) -> DateTime {
    DateTime::from_timestamp_millis(millis).unwrap()
}

fn time(millis: u32) -> Time {
    Time::from_millis_from_midnight(millis).unwrap()
}

#[test]
fn dates_exist_where_chrono_has_them() {
    assert!(Date::from_num_days_from_ce(730_000).is_some());
    assert!(Date::from_num_days_from_ce(0).is_some());
    assert!(Date::from_num_days_from_ce(-1).is_some());
    assert!(Date::from_num_days_from_ce(100_000_000).is_none());
    assert!(Date::from_num_days_from_ce(-100_000_000).is_none());
    assert!(Date::from_num_days_from_ce(i32::MAX).is_none());
    assert!(Date::from_num_days_from_ce(i32::MIN).is_none());
    let last = NaiveDate::MAX.num_days_from_ce();
    assert!(Date::from_num_days_from_ce(last).is_some());
    assert!(Date::from_num_days_from_ce(last + 1).is_none());
    let first = NaiveDate::MIN.num_days_from_ce();
    assert!(Date::from_num_days_from_ce(first).is_some());
    assert!(Date::from_num_days_from_ce(first - 1).is_none());
    assert_eq!(date(730_000).num_days_from_ce(), 730_000);
}

#[test]
fn dates_are_written_by_chrono() {
    assert_eq!(<Date as AxisData<Date>>::display_value(&date(730_000)), "1999-09-03");
    assert_eq!(<Date as AxisData<Date>>::display_value(&date(1)), "0001-01-01");
    assert_eq!(<Date as AxisData<Date>>::display_value(&date(0)), "0000-12-31");
    assert_eq!(date(-366).description(), "-0001-12-31");
    let day = NaiveDate::from_ymd(2020, 12, 7).num_days_from_ce();
    assert_eq!(date(day).description(), "2020-12-07");
}

#[test]
fn dates_count_in_days() {
    assert_eq!(date(10).distance_to(&date(10)), 0);
    assert_eq!(date(10).distance_to(&date(17)), 7);
    assert_eq!(date(-5).distance_to(&date(5)), 10);
    assert_eq!(date(10).compare_value(&date(17)), Order::Less);
    assert_eq!(date(17).compare_value(&date(17)), Order::Equal);
    assert_eq!(date(18).compare_value(&date(17)), Order::Greater);
    assert_eq!(date(10).add(7).map(|d| d.num_days_from_ce()), Some(17));
    assert_eq!(date(10).add(0).map(|d| d.num_days_from_ce()), Some(10));
    let last = NaiveDate::MAX.num_days_from_ce();
    assert!(date(last).add(1).is_none());
    assert_eq!(date(last - 1).add(1).map(|d| d.num_days_from_ce()), Some(last));
    assert!(date(0).add(u128::MAX).is_none());
}

#[test]
fn dates_in_between_are_evenly_spaced() {
    let days: Vec<i32> = date(100)
        .get_values_in_between(&date(130), 3, 7)
        .iter()
        .map(|d| d.num_days_from_ce())
        .collect();
    assert_eq!(days, vec![107, 114, 121]);
    assert!(date(100).get_values_in_between(&date(100), 1, 1).is_empty());
}

#[test]
fn moments_exist_where_chrono_has_them() {
    assert!(DateTime::from_timestamp_millis(0).is_some());
    assert!(DateTime::from_timestamp_millis(-1).is_some());
    assert!(DateTime::from_timestamp_millis(i64::MAX).is_none());
    assert!(DateTime::from_timestamp_millis(i64::MIN).is_none());
    assert_eq!(moment(1_607_299_200_000).timestamp_millis(), 1_607_299_200_000);
}

#[test]
fn moments_are_written_by_chrono() {
    assert_eq!(
        <DateTime as AxisData<DateTime>>::display_value(&moment(0)),
        "1970-01-01T00:00:00"
    );
    assert_eq!(moment(1_500).description(), "1970-01-01T00:00:01.500");
    assert_eq!(moment(-1).description(), "1969-12-31T23:59:59.999");
    assert_eq!(moment(-1_000).description(), "1969-12-31T23:59:59");
    assert_eq!(moment(1_607_299_200_000).description(), "2020-12-07T00:00:00");
}

#[test]
fn moments_count_in_milliseconds() {
    assert_eq!(moment(-500).distance_to(&moment(1_500)), 2_000);
    assert_eq!(moment(7).distance_to(&moment(7)), 0);
    assert_eq!(moment(-500).compare_value(&moment(1_500)), Order::Less);
    assert_eq!(moment(-500).add(2_000).map(|m| m.timestamp_millis()), Some(1_500));
    assert!(moment(0).add(u128::MAX).is_none());
    assert!(moment(0).add(i64::MAX as u128).is_none());
    let values: Vec<i64> = moment(0)
        .get_values_in_between(&moment(86_400_000), 3_600_000, 21_600_000)
        .iter()
        .map(|m| m.timestamp_millis())
        .collect();
    assert_eq!(values, vec![21_600_000, 43_200_000, 64_800_000]);
}

#[test]
fn times_stay_within_the_day() {
    assert!(Time::from_millis_from_midnight(0).is_some());
    assert!(Time::from_millis_from_midnight(86_399_999).is_some());
    assert!(Time::from_millis_from_midnight(86_400_000).is_none());
    assert_eq!(time(1_000).add(500).map(|t| t.millis_from_midnight()), Some(1_500));
    assert!(time(86_399_999).add(1).is_none());
    assert_eq!(time(86_399_998).add(1).map(|t| t.millis_from_midnight()), Some(86_399_999));
    assert!(time(0).add(u128::MAX).is_none());
    assert_eq!(time(10).distance_to(&time(25)), 15);
    assert_eq!(time(10).compare_value(&time(25)), Order::Less);
    assert_eq!(time(25).compare_value(&time(10)), Order::Greater);
    assert_eq!(time(25).compare_value(&time(25)), Order::Equal);
}

#[test]
fn times_are_written_by_chrono() {
    assert_eq!(<Time as AxisData<Time>>::display_value(&time(0)), "00:00:00");
    assert_eq!(time(3_723_004).description(), "01:02:03.004");
    assert_eq!(time(86_399_999).description(), "23:59:59.999");
}

#[test]
fn times_in_between_are_evenly_spaced() {
    let values: Vec<u32> = time(0)
        .get_values_in_between(&time(86_399_999), 3_600_000, 21_600_000)
        .iter()
        .map(|t| t.millis_from_midnight())
        .collect();
    assert_eq!(values, vec![21_600_000, 43_200_000, 64_800_000]);
}
