//! The statistics engine: classifies records into buckets, finds each
//! record's anchor date, and derives the one-day and seven-day percentage
//! trends with truncating integer division. A bucket whose computation fails
//! keeps its previous value; every failure is reported as a diagnostic.

use vstd::prelude::*;
use vstd::math::abs;
use vstd::string::StringExecFns;
use crate::date::{
    Date, date_wf, spec_prev_day, spec_prev_days, spec_date_key, within_reach,
    lemma_prev_day_reach,
};
use crate::parse::{spec_parse_u32, spec_parse_i32, parse_u32, parse_i32};
use crate::records::{RawRecord, Bucket, rec_lookup, spec_classify};

verus! {

/// Statistics of one bucket: the running total, and the one-day and
/// seven-day percentage trends. A trend is `None` until it has been
/// computed at least once.
#[derive(Clone, Copy, PartialEq, Eq, Debug)]
pub struct BucketStats {
    pub total: u32,
    pub one_day_pct: Option<i64>,
    pub seven_day_pct: Option<i64>,
}

/// The complete statistics of all four buckets, replaced as one value.
#[derive(Clone, Copy, PartialEq, Eq, Debug)]
pub struct Snapshot {
    pub cases_ba: BucketStats,
    pub deaths_ba: BucketStats,
    pub cases_ca: BucketStats,
    pub deaths_ca: BucketStats,
}

/// What can go wrong while updating one bucket. Each error is scoped to
/// that bucket in that cycle: the bucket keeps its previous value.
#[derive(Clone, Copy, PartialEq, Eq, Structural, Debug)]
pub enum StatError {
    /// A needed field is missing or does not parse as an integer.
    Field,
    /// A percentage's denominator is zero.
    DivideByZero,
    /// None of the candidate anchor dates occurs in the record.
    AnchorNotFound,
}

/// A zeroed bucket: no counts yet, no trend computed yet.
pub open spec fn zeroed_stats() -> BucketStats {
    BucketStats { total: 0u32, one_day_pct: None::<i64>, seven_day_pct: None::<i64> }
}

impl BucketStats {
    /// A zeroed bucket: no counts yet, no trend computed yet.
    pub fn zeroed() -> (r: BucketStats)
        ensures
            r == zeroed_stats(),
    {
        BucketStats { total: 0, one_day_pct: None, seven_day_pct: None }
    }
}

impl Snapshot {
    /// The initial snapshot: all buckets zeroed.
    pub fn zeroed() -> (r: Snapshot)
        ensures
            r.cases_ba == zeroed_stats(),
            r.deaths_ba == zeroed_stats(),
            r.cases_ca == zeroed_stats(),
            r.deaths_ca == zeroed_stats(),
    {
        Snapshot {
            cases_ba: BucketStats::zeroed(),
            deaths_ba: BucketStats::zeroed(),
            cases_ca: BucketStats::zeroed(),
            deaths_ca: BucketStats::zeroed(),
        }
    }
}

/// The stats of bucket `b` in snapshot `s`.
pub open spec fn bucket_of(s: Snapshot, b: Bucket) -> BucketStats {
    match b {
        Bucket::BayCases => s.cases_ba,
        Bucket::BayDeaths => s.deaths_ba,
        Bucket::CalCases => s.cases_ca,
        Bucket::CalDeaths => s.deaths_ca,
    }
}

/// Snapshot `s` with bucket `b` replaced by `v`.
pub open spec fn with_bucket(s: Snapshot, b: Bucket, v: BucketStats) -> Snapshot {
    match b {
        Bucket::BayCases => Snapshot { cases_ba: v, ..s },
        Bucket::BayDeaths => Snapshot { deaths_ba: v, ..s },
        Bucket::CalCases => Snapshot { cases_ca: v, ..s },
        Bucket::CalDeaths => Snapshot { deaths_ca: v, ..s },
    }
}

/// Division truncating toward zero, as the executable `/` of the target
/// machine behaves on signed integers.
pub open spec fn div_trunc(a: int, b: int) -> int
    recommends
        b != 0,
{
    let q = abs(a) as int / abs(b) as int;
    if (a < 0) != (b < 0) {
        -q
    } else {
        q
    }
}

/// The count a record stores for date `d`, when the key exists and its
/// value parses as a signed integer.
pub open spec fn spec_value_at(fields: Seq<(String, String)>, d: Date) -> Option<i32> {
    match rec_lookup(fields, spec_date_key(d)) {
        Some(s) => spec_parse_i32(s),
        None => None,
    }
}

/// Scans backward from `d` for at most `fuel` days and yields the first
/// date whose key occurs in the record.
pub open spec fn spec_find_anchor(fields: Seq<(String, String)>, d: Date, fuel: nat) -> Option<
    Date,
>
    decreases fuel,
{
    if fuel == 0 {
        None
    } else if rec_lookup(fields, spec_date_key(d)) is Some {
        Some(d)
    } else {
        spec_find_anchor(fields, spec_prev_day(d), (fuel - 1) as nat)
    }
}

/// The one-day trend at `anchor`: `last*100/prev - 100`, truncating.
pub open spec fn spec_one_day(fields: Seq<(String, String)>, anchor: Date) -> Result<
    int,
    StatError,
> {
    match (spec_value_at(fields, anchor), spec_value_at(fields, spec_prev_day(anchor))) {
        (Some(last), Some(prev)) => if prev == 0 {
            Err(StatError::DivideByZero)
        } else {
            Ok(div_trunc(last * 100, prev as int) - 100)
        },
        _ => Err(StatError::Field),
    }
}

/// The sum of the counts at the `n` dates `d, d-1, ..., d-(n-1)`, when all
/// of them exist and parse.
pub open spec fn spec_window_sum(fields: Seq<(String, String)>, d: Date, n: nat) -> Option<int>
    decreases n,
{
    if n == 0 {
        Some(0)
    } else {
        match (spec_value_at(fields, d), spec_window_sum(fields, spec_prev_day(d), (n - 1) as nat)) {
            (Some(v), Some(s)) => Some(v + s),
            _ => None,
        }
    }
}

/// The seven-day trend at `anchor`: `cur_sum*100/prev_sum - 100`,
/// truncating, over the windows `anchor..anchor-6` and `anchor-7..anchor-13`.
pub open spec fn spec_seven_day(fields: Seq<(String, String)>, anchor: Date) -> Result<
    int,
    StatError,
> {
    match (spec_window_sum(fields, anchor, 7), spec_window_sum(
        fields,
        spec_prev_days(anchor, 7),
        7,
    )) {
        (Some(cur), Some(prev)) => if prev == 0 {
            Err(StatError::DivideByZero)
        } else {
            Ok(div_trunc(cur * 100, prev) - 100)
        },
        _ => Err(StatError::Field),
    }
}

/// The new stats of a bucket from one of its records, together with the
/// diagnostics of the cycle, in the order total, one-day, seven-day.
/// A failed part keeps the previous value.
pub open spec fn spec_bucket_update(
    prev: BucketStats,
    fields: Seq<(String, String)>,
    today: Date,
) -> (BucketStats, Seq<StatError>) {
    let total_parsed = match rec_lookup(fields, "TOTALS"@) {
        Some(s) => spec_parse_u32(s),
        None => None,
    };
    let total = match total_parsed {
        Some(t) => t,
        None => prev.total,
    };
    let total_diag: Seq<StatError> = match total_parsed {
        Some(t) => seq![],
        None => seq![StatError::Field],
    };
    match spec_find_anchor(fields, spec_prev_day(today), 10) {
        None => (
            BucketStats { total, one_day_pct: prev.one_day_pct, seven_day_pct: prev.seven_day_pct },
            total_diag + seq![StatError::AnchorNotFound],
        ),
        Some(anchor) => {
            let (one_day, d1): (Option<i64>, Seq<StatError>) = match spec_one_day(fields, anchor) {
                Ok(v) => (Some(v as i64), seq![]),
                Err(e) => (prev.one_day_pct, seq![e]),
            };
            let (seven_day, d7): (Option<i64>, Seq<StatError>) = match spec_seven_day(
                fields,
                anchor,
            ) {
                Ok(v) => (Some(v as i64), seq![]),
                Err(e) => (prev.seven_day_pct, seq![e]),
            };
            (
                BucketStats { total, one_day_pct: one_day, seven_day_pct: seven_day },
                total_diag + d1 + d7,
            )
        },
    }
}

/// One record applied to a snapshot: the record's bucket is updated, every
/// other bucket is untouched, an unclassified record changes nothing.
pub open spec fn spec_apply_record(s: Snapshot, fields: Seq<(String, String)>, today: Date) -> (
    Snapshot,
    Seq<(Bucket, StatError)>,
) {
    match spec_classify(fields) {
        None => (s, seq![]),
        Some(b) => {
            let (bs, ds) = spec_bucket_update(bucket_of(s, b), fields, today);
            (with_bucket(s, b, bs), ds.map_values(|e: StatError| (b, e)))
        },
    }
}

/// A whole dataset applied to a snapshot, record by record in order.
pub open spec fn spec_compute(s: Snapshot, records: Seq<RawRecord>, today: Date) -> (
    Snapshot,
    Seq<(Bucket, StatError)>,
)
    decreases records.len(),
{
    if records.len() == 0 {
        (s, seq![])
    } else {
        let (s1, d1) = spec_apply_record(s, records[0].fields@, today);
        let (s2, d2) = spec_compute(s1, records.drop_first(), today);
        (s2, d1 + d2)
    }
}

/// Division truncating toward zero.
fn div_trunc_i64(a: i64, b: i64) -> (r: i64)
    requires
        b != 0,
        -0x4000_0000_0000_0000 < a < 0x4000_0000_0000_0000,
        i64::MIN < b,
    ensures
        r as int == div_trunc(a as int, b as int),
        -0x4000_0000_0000_0000 < r < 0x4000_0000_0000_0000,
{
    let ua: u64 = if a < 0 {
        (-a) as u64
    } else {
        a as u64
    };
    let ub: u64 = if b < 0 {
        (-b) as u64
    } else {
        b as u64
    };
    let q: u64 = ua / ub;
    proof {
        vstd::arithmetic::div_mod::lemma_div_nonincreasing(ua as int, ub as int);
        assert(q as int == abs(a as int) as int / abs(b as int) as int);
    }
    let qi: i64 = q as i64;
    if (a < 0) != (b < 0) {
        -qi
    } else {
        qi
    }
}

/// `n + 1` days back is one day back from `n` days back.
proof fn lemma_prev_days_snoc(d: Date, n: nat)
    ensures
        spec_prev_days(d, n + 1) == spec_prev_day(spec_prev_days(d, n)),
    decreases n,
{
    if n == 0 {
        assert(spec_prev_days(spec_prev_day(d), 0) == spec_prev_day(d));
    } else {
        lemma_prev_days_snoc(spec_prev_day(d), (n - 1) as nat);
    }
}

/// Finds the anchor date of a record: the most recent of the 10 candidate
/// dates `today-1, ..., today-10` whose key the record holds.
pub fn find_anchor(rec: &RawRecord, today: Date) -> (r: Option<Date>)
    requires
        date_wf(today),
        today.year >= 1,
    ensures
        r == spec_find_anchor(rec.fields@, spec_prev_day(today), 10),
        match r {
            Some(a) => date_wf(a) && within_reach(today, a, 11),
            None => true,
        },
{
    proof {
        lemma_prev_day_reach(today, today, 0);
    }
    let mut d = today.prev_day();
    let mut i: usize = 0;
    while i < 10
        invariant
            date_wf(today),
            today.year >= 1,
            0 <= i <= 10,
            date_wf(d),
            within_reach(today, d, i + 1),
            spec_find_anchor(rec.fields@, d, (10 - i) as nat) == spec_find_anchor(
                rec.fields@,
                spec_prev_day(today),
                10,
            ),
        decreases 10 - i,
    {
        let key = d.key();
        if rec.get(&key).is_some() {
            return Some(d);
        }
        proof {
            lemma_prev_day_reach(today, d, i + 1);
        }
        d = d.prev_day();
        i = i + 1;
    }
    None
}

/// Sums the counts of the `7` dates `start, ..., start-6`; also yields the
/// date seven days back, where the previous window begins.
fn window_sum_7(rec: &RawRecord, start: Date, today: Date, Ghost(k): Ghost<int>) -> (r: (
    Option<i64>,
    Date,
))
    requires
        date_wf(today),
        today.year >= 1,
        date_wf(start),
        within_reach(today, start, k),
        0 <= k,
        k + 7 < 30,
    ensures
        match r.0 {
            Some(v) => spec_window_sum(rec.fields@, start, 7) == Some(v as int)
                && -0x3_8000_0000 <= v <= 0x3_8000_0000 && r.1 == spec_prev_days(start, 7)
                && date_wf(r.1) && within_reach(today, r.1, k + 7),
            None => spec_window_sum(rec.fields@, start, 7) is None,
        },
{
    let mut d = start;
    let mut acc: i64 = 0;
    let mut j: usize = 0;
    while j < 7
        invariant
            date_wf(today),
            today.year >= 1,
            0 <= j <= 7,
            date_wf(d),
            within_reach(today, d, k + j),
            0 <= k,
            k + 7 < 30,
            d == spec_prev_days(start, j as nat),
            -0x80000000 * (j as int) <= acc <= 0x80000000 * (j as int),
            match spec_window_sum(rec.fields@, d, (7 - j) as nat) {
                Some(s) => spec_window_sum(rec.fields@, start, 7) == Some(acc + s),
                None => spec_window_sum(rec.fields@, start, 7) is None,
            },
        decreases 7 - j,
    {
        let key = d.key();
        let v: i32 = match rec.get(&key) {
            Some(s) => match parse_i32(s.as_str()) {
                Some(v) => v,
                None => {
                    return (None, d);
                },
            },
            None => {
                return (None, d);
            },
        };
        proof {
            lemma_prev_day_reach(today, d, k + j);
            lemma_prev_days_snoc(start, j as nat);
        }
        acc = acc + v as i64;
        d = d.prev_day();
        j = j + 1;
    }
    (Some(acc), d)
}

/// The new stats of one bucket from one of its records, with the cycle's
/// diagnostics in the order total, one-day, seven-day.
#[verifier::rlimit(80)]
pub fn bucket_update(prev: BucketStats, rec: &RawRecord, today: Date) -> (r: (
    BucketStats,
    Vec<StatError>,
))
    requires
        date_wf(today),
        today.year >= 1,
    ensures
        r.0 == spec_bucket_update(prev, rec.fields@, today).0,
        r.1@ == spec_bucket_update(prev, rec.fields@, today).1,
{
    let ghost spec_r = spec_bucket_update(prev, rec.fields@, today);
    let mut diags: Vec<StatError> = Vec::new();

    let totals_key = String::from_str("TOTALS");
    let total: u32 = match rec.get(&totals_key) {
        Some(s) => match parse_u32(s.as_str()) {
            Some(t) => t,
            None => {
                diags.push(StatError::Field);
                prev.total
            },
        },
        None => {
            diags.push(StatError::Field);
            prev.total
        },
    };

    match find_anchor(rec, today) {
        None => {
            diags.push(StatError::AnchorNotFound);
            let stats = BucketStats {
                total,
                one_day_pct: prev.one_day_pct,
                seven_day_pct: prev.seven_day_pct,
            };
            proof {
                assert(diags@ =~= spec_r.1);
            }
            (stats, diags)
        },
        Some(anchor) => {
            proof {
                lemma_prev_day_reach(today, anchor, 11);
            }
            let anchor_key = anchor.key();
            let prev_key = anchor.prev_day().key();
            let one_day: Option<i64> = match (rec.get(&anchor_key), rec.get(&prev_key)) {
                (Some(ls), Some(ps)) => match (parse_i32(ls.as_str()), parse_i32(ps.as_str())) {
                    (Some(last), Some(prev_v)) => {
                        if prev_v == 0 {
                            diags.push(StatError::DivideByZero);
                            prev.one_day_pct
                        } else {
                            let v = div_trunc_i64((last as i64) * 100, prev_v as i64) - 100;
                            Some(v)
                        }
                    },
                    _ => {
                        diags.push(StatError::Field);
                        prev.one_day_pct
                    },
                },
                _ => {
                    diags.push(StatError::Field);
                    prev.one_day_pct
                },
            };
            let (cur_sum, week_back) = window_sum_7(rec, anchor, today, Ghost(11));
            let seven_day: Option<i64> = match cur_sum {
                Some(cur) => {
                    let (prev_sum, _) = window_sum_7(rec, week_back, today, Ghost(18));
                    match prev_sum {
                        Some(pv) => {
                            if pv == 0 {
                                diags.push(StatError::DivideByZero);
                                prev.seven_day_pct
                            } else {
                                let v = div_trunc_i64(cur * 100, pv) - 100;
                                Some(v)
                            }
                        },
                        None => {
                            diags.push(StatError::Field);
                            prev.seven_day_pct
                        },
                    }
                },
                None => {
                    diags.push(StatError::Field);
                    prev.seven_day_pct
                },
            };
            let stats = BucketStats { total, one_day_pct: one_day, seven_day_pct: seven_day };
            proof {
                assert(diags@ =~= spec_r.1);
            }
            (stats, diags)
        },
    }
}

/// One record applied to a snapshot: updates the record's bucket, leaves
/// the rest untouched, and reports that bucket's diagnostics.
pub fn apply_record(s: Snapshot, rec: &RawRecord, today: Date) -> (r: (
    Snapshot,
    Vec<(Bucket, StatError)>,
))
    requires
        date_wf(today),
        today.year >= 1,
    ensures
        r.0 == spec_apply_record(s, rec.fields@, today).0,
        r.1@ == spec_apply_record(s, rec.fields@, today).1,
{
    match rec.classify() {
        None => (s, Vec::new()),
        Some(b) => {
            let prev = match b {
                Bucket::BayCases => s.cases_ba,
                Bucket::BayDeaths => s.deaths_ba,
                Bucket::CalCases => s.cases_ca,
                Bucket::CalDeaths => s.deaths_ca,
            };
            let (bs, ds) = bucket_update(prev, rec, today);
            let updated = match b {
                Bucket::BayCases => Snapshot { cases_ba: bs, ..s },
                Bucket::BayDeaths => Snapshot { deaths_ba: bs, ..s },
                Bucket::CalCases => Snapshot { cases_ca: bs, ..s },
                Bucket::CalDeaths => Snapshot { deaths_ca: bs, ..s },
            };
            let mut tagged: Vec<(Bucket, StatError)> = Vec::new();
            let n = ds.len();
            let mut i: usize = 0;
            while i < n
                invariant
                    0 <= i <= n,
                    n == ds@.len(),
                    tagged@ == ds@.subrange(0, i as int).map_values(|e: StatError| (b, e)),
                decreases n - i,
            {
                tagged.push((b, ds[i]));
                proof {
                    assert(ds@.subrange(0, i + 1).map_values(|e: StatError| (b, e)) =~= ds@.subrange(
                        0,
                        i as int,
                    ).map_values(|e: StatError| (b, e)).push((b, ds@[i as int])));
                }
                i = i + 1;
            }
            proof {
                assert(ds@.subrange(0, n as int) =~= ds@);
            }
            (updated, tagged)
        },
    }
}

/// The statistics engine: applies a whole dataset to a snapshot, record by
/// record, and reports every bucket's diagnostics of this cycle.
pub fn compute(prev: &Snapshot, records: &Vec<RawRecord>, today: Date) -> (r: (
    Snapshot,
    Vec<(Bucket, StatError)>,
))
    requires
        date_wf(today),
        today.year >= 1,
    ensures
        r.0 == spec_compute(*prev, records@, today).0,
        r.1@ == spec_compute(*prev, records@, today).1,
{
    let mut snap = *prev;
    let mut diags: Vec<(Bucket, StatError)> = Vec::new();
    let n = records.len();
    let mut i: usize = 0;
    proof {
        assert(records@.skip(0) =~= records@);
    }
    while i < n
        invariant
            date_wf(today),
            today.year >= 1,
            0 <= i <= n,
            n == records@.len(),
            spec_compute(*prev, records@, today).0 == spec_compute(
                snap,
                records@.skip(i as int),
                today,
            ).0,
            spec_compute(*prev, records@, today).1 == diags@ + spec_compute(
                snap,
                records@.skip(i as int),
                today,
            ).1,
        decreases n - i,
    {
        proof {
            assert(records@.skip(i as int)[0] == records@[i as int]);
            assert(records@.skip(i as int).drop_first() =~= records@.skip(i + 1));
        }
        let (s1, mut d1) = apply_record(snap, &records[i], today);
        snap = s1;
        diags.append(&mut d1);
        i = i + 1;
    }
    proof {
        assert(records@.skip(n as int) =~= Seq::<RawRecord>::empty());
        assert(diags@ + Seq::<(Bucket, StatError)>::empty() =~= diags@);
    }
    (snap, diags)
}

/// A cycle's diagnostics depend on the dataset and the reference date
/// alone, not on the snapshot being updated: every starting snapshot
/// yields the same error report.
pub proof fn lemma_diags_independent_of_snapshot(
    s1: Snapshot,
    s2: Snapshot,
    records: Seq<RawRecord>,
    today: Date,
)
    ensures
        spec_compute(s1, records, today).1 == spec_compute(s2, records, today).1,
    decreases records.len(),
{
    if records.len() > 0 {
        let fields = records[0].fields@;
        let n1 = spec_apply_record(s1, fields, today).0;
        let n2 = spec_apply_record(s2, fields, today).0;
        assert(spec_apply_record(s1, fields, today).1 == spec_apply_record(s2, fields, today).1);
        lemma_diags_independent_of_snapshot(n1, n2, records.drop_first(), today);
    }
}

/// When a record's anchor date, the day before it, and both seven-day
/// windows are all present with non-zero denominators, the trends are the
/// exact truncating-division formulas: `last*100/prev - 100` for one day
/// and `cur_sum*100/prev_sum - 100` for seven days.
pub proof fn lemma_trend_formulas(
    fields: Seq<(String, String)>,
    today: Date,
    anchor: Date,
    prev: BucketStats,
    last: i32,
    prev_v: i32,
    cur_sum: int,
    prev_sum: int,
)
    requires
        spec_find_anchor(fields, spec_prev_day(today), 10) == Some(anchor),
        spec_value_at(fields, anchor) == Some(last),
        spec_value_at(fields, spec_prev_day(anchor)) == Some(prev_v),
        prev_v != 0,
        spec_window_sum(fields, anchor, 7) == Some(cur_sum),
        spec_window_sum(fields, spec_prev_days(anchor, 7), 7) == Some(prev_sum),
        prev_sum != 0,
    ensures
        spec_one_day(fields, anchor) == Ok::<int, StatError>(
            div_trunc(last * 100, prev_v as int) - 100,
        ),
        spec_seven_day(fields, anchor) == Ok::<int, StatError>(
            div_trunc(cur_sum * 100, prev_sum) - 100,
        ),
        spec_bucket_update(prev, fields, today).0.one_day_pct == Some(
            (div_trunc(last * 100, prev_v as int) - 100) as i64,
        ),
        spec_bucket_update(prev, fields, today).0.seven_day_pct == Some(
            (div_trunc(cur_sum * 100, prev_sum) - 100) as i64,
        ),
{
}

/// The dataset-level reading of the trend formulas: applying a record with
/// complete windows and non-zero denominators gives its bucket exactly the
/// truncating-division percentages, whatever snapshot is being updated.
pub proof fn lemma_record_trends(
    s: Snapshot,
    fields: Seq<(String, String)>,
    today: Date,
    b: Bucket,
    anchor: Date,
    last: i32,
    prev_v: i32,
    cur_sum: int,
    prev_sum: int,
)
    requires
        spec_classify(fields) == Some(b),
        spec_find_anchor(fields, spec_prev_day(today), 10) == Some(anchor),
        spec_value_at(fields, anchor) == Some(last),
        spec_value_at(fields, spec_prev_day(anchor)) == Some(prev_v),
        prev_v != 0,
        spec_window_sum(fields, anchor, 7) == Some(cur_sum),
        spec_window_sum(fields, spec_prev_days(anchor, 7), 7) == Some(prev_sum),
        prev_sum != 0,
    ensures
        bucket_of(spec_apply_record(s, fields, today).0, b).one_day_pct == Some(
            (div_trunc(last * 100, prev_v as int) - 100) as i64,
        ),
        bucket_of(spec_apply_record(s, fields, today).0, b).seven_day_pct == Some(
            (div_trunc(cur_sum * 100, prev_sum) - 100) as i64,
        ),
{
    lemma_trend_formulas(fields, today, anchor, bucket_of(s, b), last, prev_v, cur_sum, prev_sum);
}

/// A record with an unrecognized geography or category is ignored: it
/// changes no bucket and reports no diagnostic.
pub proof fn lemma_unclassified_ignored(s: Snapshot, fields: Seq<(String, String)>, today: Date)
    requires
        spec_classify(fields) is None,
    ensures
        spec_apply_record(s, fields, today).0 == s,
        spec_apply_record(s, fields, today).1 == Seq::<(Bucket, StatError)>::empty(),
{
    assert(spec_apply_record(s, fields, today).1 =~= Seq::<(Bucket, StatError)>::empty());
}

/// When none of the ten candidate anchor dates occurs in the record, the
/// bucket's total is still updated from a parseable `TOTALS`, both trends
/// keep their previous values, and the cycle's last diagnostic records the
/// missing anchor.
pub proof fn lemma_no_anchor_keeps_trends(
    prev: BucketStats,
    fields: Seq<(String, String)>,
    today: Date,
)
    requires
        spec_find_anchor(fields, spec_prev_day(today), 10) is None,
    ensures
        spec_bucket_update(prev, fields, today).0.one_day_pct == prev.one_day_pct,
        spec_bucket_update(prev, fields, today).0.seven_day_pct == prev.seven_day_pct,
        match rec_lookup(fields, "TOTALS"@) {
            Some(s) => match spec_parse_u32(s) {
                Some(t) => spec_bucket_update(prev, fields, today).0.total == t,
                None => spec_bucket_update(prev, fields, today).0.total == prev.total,
            },
            None => spec_bucket_update(prev, fields, today).0.total == prev.total,
        },
        spec_bucket_update(prev, fields, today).1.len() >= 1,
        spec_bucket_update(prev, fields, today).1.last() == StatError::AnchorNotFound,
{
}

} // verus!
