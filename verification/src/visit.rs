use vstd::prelude::*;

use crate::date::{valid_day, Date};

verus! {

/// An audit timestamp in seconds and nanoseconds since 1970-01-01 00:00:00.
/// Visits carry two of these as bookkeeping; they play no part in the
/// accounting.
#[derive(Clone, Copy, Debug, PartialEq, Eq, Structural)]
pub struct Timestamp {
    pub secs: i64,
    pub nanos: u32,
}

impl Timestamp {
    pub fn from_timestamp(secs: i64, nanos: u32) -> (t: Timestamp)
        ensures
            t.secs == secs,
            t.nanos == nanos,
    {
        Timestamp { secs, nanos }
    }
}

/// One visit: the closed date interval `[enter_at, exit_at]`, owned by one
/// user. A visit where the traveler entered and left on the same day counts
/// as one day, so a well-formed visit always spans at least one day.
#[derive(Clone, Copy, Debug, PartialEq, Eq, Structural)]
pub struct Visit {
    /// Identifier assigned by the store; 0 for hypothetical visits that were
    /// never persisted.
    pub id: i32,
    /// The owning user.
    pub user_id: i32,
    /// The day the traveler entered.
    pub enter_at: Date,
    /// The day the traveler left; never before `enter_at`.
    pub exit_at: Date,
    pub created_at: Timestamp,
    pub updated_at: Timestamp,
}

/// A visit as a caller supplies it, before the store assigns an identity.
pub struct NewVisit {
    pub user_id: i32,
    pub enter_at: Date,
    pub exit_at: Date,
}

impl Visit {
    /// A visit is well formed when both dates lie in the supported calendar
    /// range and the traveler left no earlier than they entered.
    pub open spec fn wf(self) -> bool {
        &&& valid_day(self.enter_at.day as int)
        &&& valid_day(self.exit_at.day as int)
        &&& self.enter_at.day <= self.exit_at.day
    }

    /// The number of calendar days the visit spans, both endpoints included.
    pub open spec fn spec_days(self) -> int {
        self.exit_at.day - self.enter_at.day + 1
    }

    /// The days of the visit that fall on or after the cutoff `start`: the
    /// overlap of `[start, exit_at]` with `[enter_at, exit_at]`.
    pub open spec fn spec_days_since(self, start: int) -> int {
        if start > self.exit_at.day {
            0
        } else if start > self.enter_at.day {
            self.exit_at.day - start + 1
        } else {
            self.spec_days()
        }
    }
}

/// Every visit of the sequence is well formed.
pub open spec fn visits_wf(s: Seq<Visit>) -> bool {
    forall|i: int| 0 <= i < s.len() ==> s[i].wf()
}

/// The sum of `spec_days` over a sequence of visits.
pub open spec fn spec_sum_all_days(s: Seq<Visit>) -> int
    decreases s.len(),
{
    if s.len() == 0 {
        0
    } else {
        spec_sum_all_days(s.drop_last()) + s.last().spec_days()
    }
}

/// The total days consumed in the window `[start, ref_exit]`: every visit
/// that began strictly before `ref_exit` contributes its days on or after
/// `start`; visits that begin on or after `ref_exit` contribute nothing.
pub open spec fn spec_sum_all_days_since(ref_exit: int, start: int, s: Seq<Visit>) -> int
    decreases s.len(),
{
    if s.len() == 0 {
        0
    } else {
        spec_sum_all_days_since(ref_exit, start, s.drop_last()) + if s.last().enter_at.day
            < ref_exit {
            s.last().spec_days_since(start)
        } else {
            0
        }
    }
}

/// Dropping the last visit keeps every remaining visit well formed.
proof fn lemma_visits_wf_drop_last(s: Seq<Visit>)
    requires
        visits_wf(s),
        s.len() > 0,
    ensures
        visits_wf(s.drop_last()),
{
    assert forall|i: int| 0 <= i < s.drop_last().len() implies s.drop_last()[i].wf() by {
        assert(s.drop_last()[i] == s[i]);
    }
}

/// Extending a prefix of `s` by one visit adds that visit's days to the sum.
proof fn lemma_sum_days_take_step(s: Seq<Visit>, i: int)
    requires
        0 <= i < s.len(),
    ensures
        spec_sum_all_days(s.take(i + 1)) == spec_sum_all_days(s.take(i)) + s[i].spec_days(),
{
    assert(s.take(i + 1).drop_last() =~= s.take(i));
    assert(s.take(i + 1).last() == s[i]);
}

/// The sum of days over well-formed visits is no less than their count.
pub proof fn lemma_sum_days_nonneg(s: Seq<Visit>)
    requires
        visits_wf(s),
    ensures
        spec_sum_all_days(s) >= s.len(),
    decreases s.len(),
{
    if s.len() > 0 {
        lemma_visits_wf_drop_last(s);
        lemma_sum_days_nonneg(s.drop_last());
        assert(s.last().wf());
    }
}

/// The sum of days over a prefix never exceeds the sum over the whole
/// sequence, since every well-formed visit contributes at least one day.
proof fn lemma_sum_days_take_le(s: Seq<Visit>, j: int)
    requires
        visits_wf(s),
        0 <= j <= s.len(),
    ensures
        spec_sum_all_days(s.take(j)) <= spec_sum_all_days(s),
    decreases s.len() - j,
{
    if j == s.len() {
        assert(s.take(j) =~= s);
    } else {
        lemma_sum_days_take_step(s, j);
        assert(s[j].wf());
        lemma_sum_days_take_le(s, j + 1);
    }
}

/// Extending a prefix of `s` by one visit adds that visit's windowed days,
/// or nothing when it begins on or after the reference exit date.
proof fn lemma_sum_since_take_step(ref_exit: int, start: int, s: Seq<Visit>, i: int)
    requires
        0 <= i < s.len(),
    ensures
        spec_sum_all_days_since(ref_exit, start, s.take(i + 1)) == spec_sum_all_days_since(
            ref_exit,
            start,
            s.take(i),
        ) + if s[i].enter_at.day < ref_exit {
            s[i].spec_days_since(start)
        } else {
            0
        },
{
    assert(s.take(i + 1).drop_last() =~= s.take(i));
    assert(s.take(i + 1).last() == s[i]);
}

impl Visit {
    /// The number of calendar days this visit spans, inclusive of both the
    /// entry and the exit day; at least 1 for every well-formed visit.
    pub fn days(&self) -> (n: i64)
        requires
            self.wf(),
        ensures
            n == self.spec_days(),
            n >= 1,
    {
        self.exit_at.day - self.enter_at.day + 1
    }

    /// The days of this visit that fall on or after `start_at`, both the
    /// cutoff and the exit day included: the full span when the cutoff lies
    /// on or before the entry, the remainder `[start_at, exit_at]` when the
    /// cutoff falls inside the visit, and zero when the visit lies entirely
    /// before the cutoff.
    pub fn days_since(&self, start_at: Date) -> (n: i64)
        requires
            self.wf(),
        ensures
            n == self.spec_days_since(start_at.day as int),
            0 <= n <= self.spec_days(),
            start_at.day <= self.enter_at.day ==> n == self.spec_days(),
            start_at.day > self.exit_at.day ==> n == 0,
    {
        if start_at.day > self.exit_at.day {
            0
        } else if start_at.day > self.enter_at.day {
            self.exit_at.day - start_at.day + 1
        } else {
            self.exit_at.day - self.enter_at.day + 1
        }
    }

    /// The sum of `days` over all visits of the slice.
    pub fn sum_all_days(vs: &Vec<Visit>) -> (total: i64)
        requires
            visits_wf(vs@),
            spec_sum_all_days(vs@) <= i64::MAX,
        ensures
            total == spec_sum_all_days(vs@),
    {
        let mut total: i64 = 0;
        let mut i: usize = 0;
        while i < vs.len()
            invariant
                0 <= i <= vs.len(),
                visits_wf(vs@),
                spec_sum_all_days(vs@) <= i64::MAX,
                total == spec_sum_all_days(vs@.take(i as int)),
            decreases vs.len() - i,
        {
            proof {
                assert(vs@[i as int].wf());
                lemma_sum_days_take_step(vs@, i as int);
                lemma_sum_days_take_le(vs@, i as int + 1);
                lemma_visits_wf_take(vs@, i as int);
                lemma_sum_days_nonneg(vs@.take(i as int));
            }
            total = total + vs[i].days();
            i = i + 1;
        }
        proof {
            assert(vs@.take(vs@.len() as int) =~= vs@);
        }
        total
    }

    /// The total days consumed in the window `[start_at, self.exit_at]`,
    /// summed over every visit of `vs` that began strictly before this
    /// visit's exit date. Visits that begin on or after `self.exit_at` have
    /// not happened yet relative to this visit and are excluded.
    pub fn sum_all_days_since(&self, start_at: Date, vs: &Vec<Visit>) -> (total: i64)
        requires
            visits_wf(vs@),
            spec_sum_all_days(vs@) <= i64::MAX,
        ensures
            total == spec_sum_all_days_since(
                self.exit_at.day as int,
                start_at.day as int,
                vs@,
            ),
            0 <= total <= spec_sum_all_days(vs@),
    {
        let ghost ref_exit: int = self.exit_at.day as int;
        let ghost start: int = start_at.day as int;
        let mut total: i64 = 0;
        let mut i: usize = 0;
        while i < vs.len()
            invariant
                0 <= i <= vs.len(),
                visits_wf(vs@),
                spec_sum_all_days(vs@) <= i64::MAX,
                ref_exit == self.exit_at.day as int,
                start == start_at.day as int,
                total == spec_sum_all_days_since(ref_exit, start, vs@.take(i as int)),
                0 <= total <= spec_sum_all_days(vs@.take(i as int)),
            decreases vs.len() - i,
        {
            proof {
                assert(vs@[i as int].wf());
                lemma_sum_since_take_step(ref_exit, start, vs@, i as int);
                lemma_sum_days_take_step(vs@, i as int);
                lemma_sum_days_take_le(vs@, i as int + 1);
            }
            if vs[i].enter_at.day < self.exit_at.day {
                total = total + vs[i].days_since(start_at);
            }
            i = i + 1;
        }
        proof {
            assert(vs@.take(vs@.len() as int) =~= vs@);
        }
        total
    }

    /// How much of the allowance is left in the rolling window of `period`
    /// days that ends at this visit's exit date: `max_days` less the days
    /// consumed in that window by the visits of `vs`. Negative when the
    /// window is overdrawn.
    pub fn days_left_in_window(&self, vs: &Vec<Visit>, period: i64, max_days: i64) -> (n: i64)
        requires
            self.wf(),
            visits_wf(vs@),
            spec_sum_all_days(vs@) <= i64::MAX,
            0 <= period <= crate::date::DAY_MAX,
            0 <= max_days <= crate::date::DAY_MAX,
        ensures
            n == max_days - spec_sum_all_days_since(
                self.exit_at.day as int,
                self.exit_at.day - period,
                vs@,
            ),
            n <= max_days,
    {
        let start_at = Date { day: self.exit_at.day - period };
        let used: i64 = self.sum_all_days_since(start_at, vs);
        max_days - used
    }

    /// How many days lie between `today` and this visit's entry: positive
    /// when the visit lies in the future, negative when it began in the past.
    pub fn days_until(&self, today: Date) -> (n: i64)
        requires
            self.wf(),
            valid_day(today.day as int),
        ensures
            n == self.enter_at.day - today.day,
    {
        self.enter_at.day - today.day
    }

    /// `days_until` measured from the current UTC date.
    pub fn days_until_now(&self) -> (n: i64)
        requires
            self.wf(),
        ensures
            exists|t: int| valid_day(t) && n == self.enter_at.day - t,
    {
        let today: i64 = today_day_number();
        let n: i64 = self.enter_at.day - today;
        proof {
            assert(valid_day(today as int) && n == self.enter_at.day - today as int);
        }
        n
    }
}

/// Every visit of a prefix of a well-formed sequence is well formed.
proof fn lemma_visits_wf_take(s: Seq<Visit>, j: int)
    requires
        visits_wf(s),
        0 <= j <= s.len(),
    ensures
        visits_wf(s.take(j)),
{
    assert forall|i: int| 0 <= i < s.take(j).len() implies s.take(j)[i].wf() by {
        assert(s.take(j)[i] == s[i]);
    }
}

/// Relies on chrono's `Utc::now` and `Datelike::num_days_from_ce` for the
/// current UTC date as a proleptic-Gregorian day number. chrono bounds its
/// dates to about 262,000 years either side of the common era, well inside
/// the supported day range; nothing more can be said of a clock reading.
#[verifier::external_body]
fn today_day_number() -> (d: i64)
    ensures
        valid_day(d as int),
{
    chrono::Datelike::num_days_from_ce(&chrono::Utc::now().date_naive()) as i64
}

/// `days_since` never grows as the cutoff moves later: a later window start
/// can only leave fewer of the visit's days on or after it.
pub proof fn lemma_days_since_monotonic(v: Visit, c1: int, c2: int)
    requires
        v.wf(),
        c1 <= c2,
    ensures
        v.spec_days_since(c2) <= v.spec_days_since(c1),
{
}

/// The window total ignores visits that begin on or after the reference exit
/// date: adding such a visit to the history leaves the sum unchanged.
pub proof fn lemma_sum_since_excludes(ref_exit: int, start: int, s: Seq<Visit>, v: Visit)
    requires
        v.enter_at.day >= ref_exit,
    ensures
        spec_sum_all_days_since(ref_exit, start, s.push(v)) == spec_sum_all_days_since(
            ref_exit,
            start,
            s,
        ),
{
    assert(s.push(v).drop_last() =~= s);
    assert(s.push(v).last() == v);
}

} // verus!
