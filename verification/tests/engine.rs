use covid_stats::date::Date;
use covid_stats::parse::{parse_i32, parse_u32};
use covid_stats::numfmt::{i64_to_string, u64_to_string, u64_to_string_pad2};
use covid_stats::records::{Bucket, RawRecord};
use covid_stats::stats::{compute, BucketStats, Snapshot, StatError};

fn record(pairs: &[(&str, &str)]) -> RawRecord {
    let mut r = RawRecord::new();
    for (k, v) in pairs {
        r.push_field(String::from(*k), String::from(*v));
    }
    r
}

fn d(y: u32, m: u8, day: u8) -> Date {
    Date::new(y, m, day).expect("valid date")
}

#[test]
fn formats_unsigned_decimal() {
    assert_eq!(u64_to_string(0), "0");
    assert_eq!(u64_to_string(7), "7");
    assert_eq!(u64_to_string(12345), "12345");
    assert_eq!(u64_to_string(1000), "1000");
}

#[test]
fn formats_signed_decimal() {
    assert_eq!(i64_to_string(0), "0");
    assert_eq!(i64_to_string(-50), "-50");
    assert_eq!(i64_to_string(20), "20");
}

#[test]
fn formats_two_digit_padding() {
    assert_eq!(u64_to_string_pad2(7), "07");
    assert_eq!(u64_to_string_pad2(0), "00");
    assert_eq!(u64_to_string_pad2(21), "21");
}

#[test]
fn parses_unsigned() {
    assert_eq!(parse_u32("0"), Some(0));
    assert_eq!(parse_u32("1000"), Some(1000));
    assert_eq!(parse_u32("+5"), Some(5));
    assert_eq!(parse_u32("4294967295"), Some(u32::MAX));
    assert_eq!(parse_u32("4294967296"), None);
    assert_eq!(parse_u32(""), None);
    assert_eq!(parse_u32("12a"), None);
    assert_eq!(parse_u32("-1"), None);
    assert_eq!(parse_u32("+"), None);
}

#[test]
fn parses_signed() {
    assert_eq!(parse_i32("120"), Some(120));
    assert_eq!(parse_i32("-3"), Some(-3));
    assert_eq!(parse_i32("+8"), Some(8));
    assert_eq!(parse_i32("2147483647"), Some(i32::MAX));
    assert_eq!(parse_i32("2147483648"), None);
    assert_eq!(parse_i32("-2147483648"), Some(i32::MIN));
    assert_eq!(parse_i32("-2147483649"), None);
    assert_eq!(parse_i32("x"), None);
    assert_eq!(parse_i32(""), None);
}

#[test]
fn validates_dates() {
    assert!(Date::new(2021, 2, 29).is_none());
    assert!(Date::new(2020, 2, 29).is_some());
    assert!(Date::new(2021, 13, 1).is_none());
    assert!(Date::new(2021, 0, 1).is_none());
    assert!(Date::new(2021, 4, 31).is_none());
    assert!(Date::new(2000, 2, 29).is_some());
    assert!(Date::new(1900, 2, 29).is_none());
}

#[test]
fn steps_back_one_day() {
    assert_eq!(d(2021, 3, 15).prev_day(), d(2021, 3, 14));
    assert_eq!(d(2021, 3, 1).prev_day(), d(2021, 2, 28));
    assert_eq!(d(2020, 3, 1).prev_day(), d(2020, 2, 29));
    assert_eq!(d(2021, 1, 1).prev_day(), d(2020, 12, 31));
}

#[test]
fn renders_date_keys() {
    assert_eq!(d(2021, 3, 5).key(), "3/5/21");
    assert_eq!(d(2021, 12, 31).key(), "12/31/21");
    assert_eq!(d(2007, 1, 2).key(), "1/2/07");
    assert_eq!(d(2100, 11, 9).key(), "11/9/00");
}

#[test]
fn classifies_records() {
    let r = record(&[("GEOGRAPHY", "BAY AREA"), ("CATEGORY", "cases")]);
    assert_eq!(r.classify(), Some(Bucket::BayCases));
    let r = record(&[("GEOGRAPHY", "CALIFORNIA"), ("CATEGORY", "deaths")]);
    assert_eq!(r.classify(), Some(Bucket::CalDeaths));
    let r = record(&[("GEOGRAPHY", "NEVADA"), ("CATEGORY", "cases")]);
    assert_eq!(r.classify(), None);
    let r = record(&[("GEOGRAPHY", "BAY AREA"), ("CATEGORY", "hospitals")]);
    assert_eq!(r.classify(), None);
    let r = record(&[("CATEGORY", "cases")]);
    assert_eq!(r.classify(), None);
    let r = record(&[("GEOGRAPHY", "bay area"), ("CATEGORY", "cases")]);
    assert_eq!(r.classify(), None);
}

/// The worked example: anchor at 120, previous day 100, current window
/// summing 700, previous window summing 500.
#[test]
fn computes_example_trends() {
    let today = d(2021, 3, 20);
    let rec = record(&[
        ("GEOGRAPHY", "BAY AREA"),
        ("CATEGORY", "cases"),
        ("TOTALS", "1000"),
        ("3/19/21", "120"),
        ("3/18/21", "100"),
        ("3/17/21", "120"),
        ("3/16/21", "120"),
        ("3/15/21", "120"),
        ("3/14/21", "120"),
        ("3/13/21", "100"),
        ("3/12/21", "74"),
        ("3/11/21", "71"),
        ("3/10/21", "71"),
        ("3/9/21", "71"),
        ("3/8/21", "71"),
        ("3/7/21", "71"),
        ("3/6/21", "71"),
    ]);
    // current window: 120+100+120+120+120+120+100 = 800? keep sums exact below
    let (snap, diags) = compute(&Snapshot::zeroed(), &vec![rec], today);
    // one-day: 120*100/100 - 100 = 20
    assert_eq!(snap.cases_ba.total, 1000);
    assert_eq!(snap.cases_ba.one_day_pct, Some(20));
    // seven-day: cur = 120+100+120+120+120+120+100 = 800, prev = 500
    // 800*100/500 - 100 = 60
    assert_eq!(snap.cases_ba.seven_day_pct, Some(60));
    assert_eq!(snap.deaths_ba, BucketStats { total: 0, one_day_pct: None, seven_day_pct: None });
    assert!(diags.is_empty());
}

/// The example with the window sums 700 and 500 exactly as stated.
#[test]
fn computes_example_trends_exact_sums() {
    let today = d(2021, 3, 20);
    let rec = record(&[
        ("GEOGRAPHY", "BAY AREA"),
        ("CATEGORY", "cases"),
        ("TOTALS", "1000"),
        ("3/19/21", "120"),
        ("3/18/21", "100"),
        ("3/17/21", "96"),
        ("3/16/21", "96"),
        ("3/15/21", "96"),
        ("3/14/21", "96"),
        ("3/13/21", "96"),
        ("3/12/21", "74"),
        ("3/11/21", "71"),
        ("3/10/21", "71"),
        ("3/9/21", "71"),
        ("3/8/21", "71"),
        ("3/7/21", "71"),
        ("3/6/21", "71"),
    ]);
    // cur = 120+100+96*5 = 700, prev = 74+71*6 = 500
    let (snap, diags) = compute(&Snapshot::zeroed(), &vec![rec], today);
    assert_eq!(snap.cases_ba.total, 1000);
    assert_eq!(snap.cases_ba.one_day_pct, Some(20));
    assert_eq!(snap.cases_ba.seven_day_pct, Some(40));
    assert!(diags.is_empty());
}

/// A missing `TOTALS` keeps the previous total, reports a field error, and
/// leaves other buckets untouched.
#[test]
fn missing_totals_keeps_previous_value() {
    let today = d(2021, 3, 20);
    let rec = record(&[
        ("GEOGRAPHY", "BAY AREA"),
        ("CATEGORY", "cases"),
        ("3/19/21", "120"),
        ("3/18/21", "100"),
        ("3/17/21", "96"),
        ("3/16/21", "96"),
        ("3/15/21", "96"),
        ("3/14/21", "96"),
        ("3/13/21", "96"),
        ("3/12/21", "74"),
        ("3/11/21", "71"),
        ("3/10/21", "71"),
        ("3/9/21", "71"),
        ("3/8/21", "71"),
        ("3/7/21", "71"),
        ("3/6/21", "71"),
    ]);
    let mut prev = Snapshot::zeroed();
    prev.cases_ba.total = 777;
    prev.deaths_ca.total = 42;
    let (snap, diags) = compute(&prev, &vec![rec], today);
    assert_eq!(snap.cases_ba.total, 777);
    assert_eq!(snap.cases_ba.one_day_pct, Some(20));
    assert_eq!(snap.cases_ba.seven_day_pct, Some(40));
    assert_eq!(snap.deaths_ca.total, 42);
    assert_eq!(diags, vec![(Bucket::BayCases, StatError::Field)]);
}

/// A zero previous-day denominator yields a divide-by-zero error for the
/// one-day trend only; the total and the seven-day trend are still computed.
#[test]
fn zero_denominator_hits_one_day_only() {
    let today = d(2021, 3, 20);
    let rec = record(&[
        ("GEOGRAPHY", "BAY AREA"),
        ("CATEGORY", "cases"),
        ("TOTALS", "1000"),
        ("3/19/21", "120"),
        ("3/18/21", "0"),
        ("3/17/21", "80"),
        ("3/16/21", "80"),
        ("3/15/21", "80"),
        ("3/14/21", "80"),
        ("3/13/21", "80"),
        ("3/12/21", "65"),
        ("3/11/21", "65"),
        ("3/10/21", "65"),
        ("3/9/21", "65"),
        ("3/8/21", "65"),
        ("3/7/21", "65"),
        ("3/6/21", "65"),
    ]);
    let (snap, diags) = compute(&Snapshot::zeroed(), &vec![rec], today);
    assert_eq!(snap.cases_ba.total, 1000);
    assert_eq!(snap.cases_ba.one_day_pct, None);
    // cur = 120+0+80*5 = 520, prev = 65*7 = 455; 52000/455 = 114 -> 14
    assert_eq!(snap.cases_ba.seven_day_pct, Some(14));
    assert_eq!(diags, vec![(Bucket::BayCases, StatError::DivideByZero)]);
}

/// An unrecognized geography or category affects no bucket at all.
#[test]
fn unrecognized_record_is_ignored() {
    let today = d(2021, 3, 20);
    let rec = record(&[
        ("GEOGRAPHY", "NEVADA"),
        ("CATEGORY", "cases"),
        ("TOTALS", "1000"),
        ("3/19/21", "120"),
    ]);
    let mut prev = Snapshot::zeroed();
    prev.cases_ba.total = 5;
    let (snap, diags) = compute(&prev, &vec![rec], today);
    assert_eq!(snap, prev);
    assert!(diags.is_empty());
}

/// With no candidate anchor date in the record, the total still updates
/// but the trends keep their prior values, and the miss is reported.
#[test]
fn missing_anchor_updates_total_only() {
    let today = d(2021, 3, 20);
    let rec = record(&[
        ("GEOGRAPHY", "CALIFORNIA"),
        ("CATEGORY", "deaths"),
        ("TOTALS", "321"),
        ("1/1/20", "5"),
    ]);
    let mut prev = Snapshot::zeroed();
    prev.cases_ca.total = 9;
    prev.deaths_ca.one_day_pct = Some(33);
    let (snap, diags) = compute(&prev, &vec![rec], today);
    assert_eq!(snap.deaths_ca.total, 321);
    assert_eq!(snap.deaths_ca.one_day_pct, Some(33));
    assert_eq!(snap.deaths_ca.seven_day_pct, None);
    assert_eq!(snap.cases_ca.total, 9);
    assert_eq!(diags, vec![(Bucket::CalDeaths, StatError::AnchorNotFound)]);
}

/// The anchor scan takes the most recent of the ten candidates: data that
/// starts several days back is still found.
#[test]
fn anchor_scans_backward() {
    let today = d(2021, 3, 20);
    // the first candidate present is 3/15/21, five days before today
    let rec = record(&[
        ("GEOGRAPHY", "BAY AREA"),
        ("CATEGORY", "deaths"),
        ("TOTALS", "50"),
        ("3/15/21", "30"),
        ("3/14/21", "10"),
        ("3/13/21", "10"),
        ("3/12/21", "10"),
        ("3/11/21", "10"),
        ("3/10/21", "10"),
        ("3/9/21", "10"),
        ("3/8/21", "20"),
        ("3/7/21", "5"),
        ("3/6/21", "5"),
        ("3/5/21", "5"),
        ("3/4/21", "5"),
        ("3/3/21", "5"),
        ("3/2/21", "5"),
    ]);
    let (snap, diags) = compute(&Snapshot::zeroed(), &vec![rec], today);
    assert_eq!(snap.deaths_ba.total, 50);
    // one-day: 30*100/10 - 100 = 200
    assert_eq!(snap.deaths_ba.one_day_pct, Some(200));
    // cur = 30+10*6 = 90, prev = 20+5*6 = 50; 9000/50 - 100 = 80
    assert_eq!(snap.deaths_ba.seven_day_pct, Some(80));
    assert!(diags.is_empty());
}

/// A date just beyond the ten-day scan window is not used as an anchor.
#[test]
fn anchor_window_is_ten_days() {
    let today = d(2021, 3, 20);
    // 3/10/21 is the tenth candidate (today-10): still found
    let within = record(&[
        ("GEOGRAPHY", "BAY AREA"),
        ("CATEGORY", "cases"),
        ("TOTALS", "1"),
        ("3/10/21", "4"),
    ]);
    let (snap, diags) = compute(&Snapshot::zeroed(), &vec![within], today);
    assert_eq!(snap.cases_ba.total, 1);
    // anchor found, but anchor-1 is missing: a field error for the trends
    assert_eq!(
        diags,
        vec![(Bucket::BayCases, StatError::Field), (Bucket::BayCases, StatError::Field)]
    );

    // 3/9/21 is the eleventh: out of the window
    let beyond = record(&[
        ("GEOGRAPHY", "BAY AREA"),
        ("CATEGORY", "cases"),
        ("TOTALS", "1"),
        ("3/9/21", "4"),
    ]);
    let (_, diags) = compute(&Snapshot::zeroed(), &vec![beyond], today);
    assert_eq!(diags, vec![(Bucket::BayCases, StatError::AnchorNotFound)]);
}

/// An unparseable count inside a window is a field error; the bucket keeps
/// its previous trend.
#[test]
fn unparseable_window_value_is_field_error() {
    let today = d(2021, 3, 20);
    let rec = record(&[
        ("GEOGRAPHY", "CALIFORNIA"),
        ("CATEGORY", "cases"),
        ("TOTALS", "10"),
        ("3/19/21", "120"),
        ("3/18/21", "60"),
        ("3/17/21", "abc"),
    ]);
    let (snap, diags) = compute(&Snapshot::zeroed(), &vec![rec], today);
    assert_eq!(snap.cases_ca.total, 10);
    assert_eq!(snap.cases_ca.one_day_pct, Some(100));
    assert_eq!(snap.cases_ca.seven_day_pct, None);
    assert_eq!(diags, vec![(Bucket::CalCases, StatError::Field)]);
}

/// Several records update their own buckets independently.
#[test]
fn records_update_independent_buckets() {
    let today = d(2021, 3, 20);
    let ba = record(&[("GEOGRAPHY", "BAY AREA"), ("CATEGORY", "cases"), ("TOTALS", "11")]);
    let ca = record(&[("GEOGRAPHY", "CALIFORNIA"), ("CATEGORY", "cases"), ("TOTALS", "22")]);
    let skip = record(&[("GEOGRAPHY", "OREGON"), ("CATEGORY", "cases"), ("TOTALS", "33")]);
    let (snap, diags) = compute(&Snapshot::zeroed(), &vec![ba, skip, ca], today);
    assert_eq!(snap.cases_ba.total, 11);
    assert_eq!(snap.cases_ca.total, 22);
    assert_eq!(snap.deaths_ba.total, 0);
    assert_eq!(snap.deaths_ca.total, 0);
    assert_eq!(
        diags,
        vec![
            (Bucket::BayCases, StatError::AnchorNotFound),
            (Bucket::CalCases, StatError::AnchorNotFound)
        ]
    );
}

/// Truncating division: the percentages truncate toward zero, they are
/// not rounded.
#[test]
fn percentages_truncate_toward_zero() {
    let today = d(2021, 3, 20);
    // one-day: 50*100/80 = 62 (62.5 truncated) -> -38
    let rec = record(&[
        ("GEOGRAPHY", "BAY AREA"),
        ("CATEGORY", "cases"),
        ("TOTALS", "10"),
        ("3/19/21", "50"),
        ("3/18/21", "80"),
    ]);
    let (snap, diags) = compute(&Snapshot::zeroed(), &vec![rec], today);
    assert_eq!(snap.cases_ba.one_day_pct, Some(-38));
    assert_eq!(diags, vec![(Bucket::BayCases, StatError::Field)]);
}

/// A negative count makes the quotient negative; truncation still goes
/// toward zero, matching the machine's signed division.
#[test]
fn negative_counts_divide_like_the_machine() {
    let today = d(2021, 3, 20);
    // one-day: -50*100/80 = -62 (Rust: -5000/80 == -62) -> -162
    let rec = record(&[
        ("GEOGRAPHY", "BAY AREA"),
        ("CATEGORY", "cases"),
        ("TOTALS", "10"),
        ("3/19/21", "-50"),
        ("3/18/21", "80"),
    ]);
    let (snap, _) = compute(&Snapshot::zeroed(), &vec![rec], today);
    assert_eq!(snap.cases_ba.one_day_pct, Some(-5000 / 80 - 100));
    assert_eq!(snap.cases_ba.one_day_pct, Some(-162));
}
