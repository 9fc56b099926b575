use typst_world::dates::CivilDate;
use typst_world::dates::civil_from_day;
use typst_world::world::SystemWorld;

fn date(year: i64, month: u32, day: u32) -> CivilDate {
    CivilDate { year, month, day }
}

/// The day index a civil date falls on, for checking rollover expectations.
fn day_of(c: CivilDate) -> i64 {
    let y = if c.month <= 2 { c.year - 1 } else { c.year };
    let era = if y >= 0 { y } else { y - 399 } / 400;
    let yoe = y - era * 400;
    let m = c.month as i64;
    let d = c.day as i64;
    let doy = (153 * (if m > 2 { m - 3 } else { m + 9 }) + 2) / 5 + d - 1;
    let doe = yoe * 365 + yoe / 4 - yoe / 100 + doy;
    era * 146097 + doe - 719468
}

#[test]
fn epoch_is_the_first_of_nineteen_seventy() {
    assert_eq!(civil_from_day(0), Some(date(1970, 1, 1)));
}

#[test]
fn day_before_epoch() {
    assert_eq!(civil_from_day(-1), Some(date(1969, 12, 31)));
}

#[test]
fn leap_day_of_two_thousand() {
    assert_eq!(civil_from_day(11016), Some(date(2000, 2, 29)));
    assert_eq!(civil_from_day(11017), Some(date(2000, 3, 1)));
}

#[test]
fn civil_round_trip_over_a_range() {
    for day in -1000..1000i64 {
        let c = civil_from_day(day * 137).expect("in range");
        assert_eq!(day_of(c), day * 137);
        assert!(c.month >= 1 && c.month <= 12);
        assert!(c.day >= 1 && c.day <= 31);
    }
}

#[test]
fn today_is_stable_within_one_compilation() {
    let mut w = SystemWorld::new(b"/proj".to_vec(), Vec::new());
    let a = w.today(Some(0));
    let b = w.today(Some(0));
    assert_eq!(a, b);
    let c = w.today(None);
    let d = w.today(None);
    assert_eq!(c, d);
}

#[test]
fn offset_of_a_day_yields_the_next_date() {
    let mut w = SystemWorld::new(b"/proj".to_vec(), Vec::new());
    let d0 = w.today(Some(0)).expect("a clock reading is representable");
    let d24 = w.today(Some(24)).expect("a clock reading is representable");
    assert_eq!(day_of(d24), day_of(d0) + 1);
}

#[test]
fn far_offsets_are_not_representable() {
    let mut w = SystemWorld::new(b"/proj".to_vec(), Vec::new());
    assert_eq!(w.today(Some(i64::MAX)), None);
    assert_eq!(w.today(Some(i64::MIN)), None);
}
