//! The shared snapshot store: the single current `Snapshot` behind a
//! verified reader/writer lock, and the fixed five-line rendering read by
//! the display. Readers see either the whole old snapshot or the whole new
//! one, never a mix.

use vstd::prelude::*;
use vstd::rwlock::{RwLock, RwLockPredicate};
use vstd::string::StringExecFns;
use crate::date::{Date, date_wf};
use crate::numfmt::{dec_str, dec_str_signed, u64_to_string, i64_to_string};
use crate::records::{RawRecord, Bucket};
use crate::stats::{
    BucketStats, Snapshot, StatError, spec_compute, compute, lemma_diags_independent_of_snapshot,
};

verus! {

/// The rendering of a percentage: its decimal value, or the sentinel when
/// no trend has been computed yet.
pub open spec fn pct_str(p: Option<i64>) -> Seq<char> {
    match p {
        Some(v) => dec_str_signed(v as int),
        None => "N/A"@,
    }
}

/// One display line of a bucket: `label: total (p% 1d) (q% 7d)`.
pub open spec fn stat_line(label: Seq<char>, bs: BucketStats) -> Seq<char> {
    label + ": "@ + dec_str(bs.total as nat) + " ("@ + pct_str(bs.one_day_pct) + "% 1d) ("@
        + pct_str(bs.seven_day_pct) + "% 7d)"@
}

/// Whether `lines` is the five-line rendering of the single snapshot `s`:
/// a heading line, then the four buckets in the fixed order
/// Cases BA, Deaths BA, Cases CA, Deaths CA.
pub open spec fn snapshot_lines_at(lines: Seq<String>, s: Snapshot) -> bool {
    &&& lines.len() == 5
    &&& lines[1]@ == stat_line("Cases BA"@, s.cases_ba)
    &&& lines[2]@ == stat_line("Deaths BA"@, s.deaths_ba)
    &&& lines[3]@ == stat_line("Cases CA"@, s.cases_ca)
    &&& lines[4]@ == stat_line("Deaths CA"@, s.deaths_ca)
}

fn pct_string(p: Option<i64>) -> (r: String)
    ensures
        r@ == pct_str(p),
{
    match p {
        Some(v) => i64_to_string(v),
        None => String::from_str("N/A"),
    }
}

fn stat_line_string(label: &str, bs: BucketStats) -> (r: String)
    ensures
        r@ == stat_line(label@, bs),
{
    let mut s = String::from_str(label);
    s.append(": ");
    let total = u64_to_string(bs.total as u64);
    s.append(total.as_str());
    s.append(" (");
    let one = pct_string(bs.one_day_pct);
    s.append(one.as_str());
    s.append("% 1d) (");
    let seven = pct_string(bs.seven_day_pct);
    s.append(seven.as_str());
    s.append("% 7d)");
    proof {
        assert(s@ =~= stat_line(label@, bs));
    }
    s
}

/// Renders a snapshot as its five display lines, with `heading` as the
/// first line and the four buckets after it in the fixed order.
pub fn render_lines(snap: &Snapshot, heading: String) -> (r: Vec<String>)
    ensures
        r@.len() == 5,
        r@[0]@ == heading@,
        snapshot_lines_at(r@, *snap),
{
    let mut lines: Vec<String> = Vec::new();
    lines.push(heading);
    lines.push(stat_line_string("Cases BA", snap.cases_ba));
    lines.push(stat_line_string("Deaths BA", snap.deaths_ba));
    lines.push(stat_line_string("Cases CA", snap.cases_ca));
    lines.push(stat_line_string("Deaths CA", snap.deaths_ca));
    lines
}

/// Relies on chrono's `Local::now` and `DateTime::format`: the current
/// local time rendered as weekday, day of month, month name, year and
/// hour:minute. The result depends on the wall clock, so nothing further
/// is assumed of it.
#[verifier::external_body]
fn clock_line() -> String {
    chrono::Local::now().format("%A %d %B %Y %H:%M").to_string()
}

/// The single current snapshot, shared between the update task and any
/// number of display readers. Replacement and reading are mutually
/// exclusive whole-value operations on the lock, so a reader never sees
/// fields of two different replacements mixed.
pub struct PayloadStorage {
    lock: RwLock<Snapshot, AnySnapshot>,
}

/// The lock's content predicate: every whole snapshot value is admissible.
pub struct AnySnapshot {}

impl RwLockPredicate<Snapshot> for AnySnapshot {
    open spec fn inv(self, v: Snapshot) -> bool {
        true
    }
}

impl PayloadStorage {
    /// A store holding the initial, all-zero snapshot.
    pub fn new() -> PayloadStorage {
        PayloadStorage {
            lock: RwLock::new(Snapshot::zeroed(), Ghost(AnySnapshot {  })),
        }
    }

    /// Installs `snap` as the current snapshot, as one atomic replacement.
    pub fn replace(&self, snap: Snapshot) {
        let (_, write_handle) = self.lock.acquire_write();
        write_handle.release_write(snap);
    }

    /// Reads the current snapshot whole.
    pub fn read(&self) -> Snapshot {
        let read_handle = self.lock.acquire_read();
        let snap = *read_handle.borrow();
        read_handle.release_read();
        snap
    }

    /// The five display lines: a clock heading, then the four buckets in
    /// the fixed order, all four rendered from one single snapshot.
    pub fn peek(&self) -> (r: Vec<String>)
        ensures
            r@.len() == 5,
            exists|s: Snapshot| snapshot_lines_at(r@, s),
    {
        let read_handle = self.lock.acquire_read();
        let snap = *read_handle.borrow();
        read_handle.release_read();
        let lines = render_lines(&snap, clock_line());
        proof {
            assert(snapshot_lines_at(lines@, snap));
        }
        lines
    }

    /// Runs the statistics engine on the current snapshot and a new
    /// dataset, installs the result, and reports the cycle's diagnostics.
    /// The whole update is one atomic replacement.
    pub fn apply_dataset(&self, records: &Vec<RawRecord>, today: Date) -> (r: Vec<
        (Bucket, StatError),
    >)
        requires
            date_wf(today),
            today.year >= 1,
        ensures
            forall|prev: Snapshot| r@ == spec_compute(prev, records@, today).1,
    {
        let (prev, write_handle) = self.lock.acquire_write();
        let (next, diags) = compute(&prev, records, today);
        write_handle.release_write(next);
        proof {
            assert forall|p: Snapshot| diags@ == spec_compute(p, records@, today).1 by {
                lemma_diags_independent_of_snapshot(prev, p, records@, today);
            }
        }
        diags
    }
}

} // verus!
