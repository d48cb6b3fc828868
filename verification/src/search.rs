use vstd::prelude::*;

use crate::date::{valid_day, Date, DAY_MAX, DAY_MIN};
use crate::visit::{
    spec_sum_all_days, spec_sum_all_days_since, visits_wf, Timestamp, Visit,
};

verus! {

/// Why a search request was refused.
#[derive(Clone, Copy, Debug, PartialEq, Eq, Structural)]
pub enum SearchError {
    /// `period` or `length` was not positive, or the allowance `max_days`
    /// is smaller than the requested `length`, so that no candidate visit
    /// could ever fit the window.
    InvalidParameters,
}

/// Upper bound on the `period`, `max_days` and `length` parameters of the
/// search, so that every date computed while searching stays far inside the
/// `i64` range. A window parameter near 100 million days has no calendar
/// meaning, so this cuts nothing real away.
pub const PARAM_MAX: i64 = 100_000_000;

/// The search parameters the accounting accepts: a positive window, a
/// positive stay length, and an allowance that covers at least one stay of
/// that length. With `max_days < length` no candidate is ever feasible and
/// the search would never end.
pub open spec fn params_ok(period: int, max_days: int, length: int) -> bool {
    &&& period >= 1
    &&& length >= 1
    &&& max_days >= length
}

/// A hypothetical visit of `length` days entering on day `enter` is feasible
/// against `history`: the days already consumed in the rolling window that
/// ends at the candidate's exit date leave at least `length` days of the
/// allowance unused. The candidate itself is not part of the history, so its
/// own days are not counted.
pub open spec fn candidate_feasible(
    history: Seq<Visit>,
    enter: int,
    period: int,
    max_days: int,
    length: int,
) -> bool {
    max_days - spec_sum_all_days_since(enter + length - 1, enter + length - 1 - period, history)
        >= length
}

/// The latest exit day among the visits, or the lowest representable day for
/// an empty history.
pub open spec fn spec_max_exit(s: Seq<Visit>) -> int
    decreases s.len(),
{
    if s.len() == 0 {
        DAY_MIN as int
    } else {
        let rest = spec_max_exit(s.drop_last());
        if s.last().exit_at.day > rest {
            s.last().exit_at.day as int
        } else {
            rest
        }
    }
}

/// Every visit's exit day is bounded by the latest exit day.
proof fn lemma_exit_le_max(s: Seq<Visit>, i: int)
    requires
        0 <= i < s.len(),
    ensures
        s[i].exit_at.day <= spec_max_exit(s),
    decreases s.len(),
{
    if i < s.len() - 1 {
        lemma_exit_le_max(s.drop_last(), i);
        assert(s.drop_last()[i] == s[i]);
    }
}

/// The latest exit day of well-formed visits lies in the calendar range.
proof fn lemma_max_exit_in_range(s: Seq<Visit>)
    requires
        visits_wf(s),
    ensures
        spec_max_exit(s) <= DAY_MAX as int,
    decreases s.len(),
{
    if s.len() > 0 {
        assert forall|i: int| 0 <= i < s.drop_last().len() implies s.drop_last()[i].wf() by {
            assert(s.drop_last()[i] == s[i]);
        }
        lemma_max_exit_in_range(s.drop_last());
        assert(s.last().wf());
    }
}

/// Once the window start has moved past every visit's exit day, nothing is
/// left in the window and the total is zero.
proof fn lemma_sum_since_zero(ref_exit: int, start: int, s: Seq<Visit>)
    requires
        forall|i: int| 0 <= i < s.len() ==> s[i].exit_at.day < start,
    ensures
        spec_sum_all_days_since(ref_exit, start, s) == 0,
    decreases s.len(),
{
    if s.len() > 0 {
        assert forall|i: int|
            0 <= i < s.drop_last().len() implies s.drop_last()[i].exit_at.day < start by {
            assert(s.drop_last()[i] == s[i]);
        }
        lemma_sum_since_zero(ref_exit, start, s.drop_last());
        assert(s.last().exit_at.day < start);
    }
}

/// A candidate whose window start lies past every historical exit day is
/// feasible: the history no longer consumes any of the allowance.
proof fn lemma_feasible_when_past(
    history: Seq<Visit>,
    enter: int,
    period: int,
    max_days: int,
    length: int,
)
    requires
        enter + length - 1 - period > spec_max_exit(history),
        max_days >= length,
    ensures
        candidate_feasible(history, enter, period, max_days, length),
{
    let start = enter + length - 1 - period;
    assert forall|i: int| 0 <= i < history.len() implies history[i].exit_at.day < start by {
        lemma_exit_le_max(history, i);
    }
    lemma_sum_since_zero(enter + length - 1, start, history);
}

impl Visit {
    /// Finds the earliest visit of `length` days, entering no earlier than
    /// `today`, that keeps the days consumed in the rolling window of
    /// `period` days ending at the candidate's exit date within the
    /// `max_days` allowance. The result is a hypothetical visit -- `id` 0,
    /// never persisted -- and every earlier entry day on or after `today`
    /// is infeasible. Refused when the parameters could never be met.
    pub fn next_for_user(
        user_id: i32,
        history: &Vec<Visit>,
        today: Date,
        period: i64,
        max_days: i64,
        length: i64,
    ) -> (r: Result<Visit, SearchError>)
        requires
            visits_wf(history@),
            spec_sum_all_days(history@) <= i64::MAX,
            valid_day(today.day as int),
            period <= PARAM_MAX,
            max_days <= PARAM_MAX,
            length <= PARAM_MAX,
        ensures
            r is Err <==> !params_ok(period as int, max_days as int, length as int),
            r matches Ok(v) ==> {
                &&& v.id == 0
                &&& v.user_id == user_id
                &&& v.enter_at.day >= today.day
                &&& v.exit_at.day == v.enter_at.day + length - 1
                &&& candidate_feasible(
                    history@,
                    v.enter_at.day as int,
                    period as int,
                    max_days as int,
                    length as int,
                )
                &&& forall|e: int|
                    today.day <= e < v.enter_at.day ==> !candidate_feasible(
                        history@,
                        e,
                        period as int,
                        max_days as int,
                        length as int,
                    )
            },
    {
        if period <= 0 || length <= 0 || max_days < length {
            return Err(SearchError::InvalidParameters);
        }
        proof {
            lemma_max_exit_in_range(history@);
        }
        let ghost past_all: int = spec_max_exit(history@) + period - length + 2;
        let ghost bound: int = if past_all > today.day as int {
            past_all
        } else {
            today.day as int
        };
        let mut enter: i64 = today.day;
        loop
            invariant
                visits_wf(history@),
                spec_sum_all_days(history@) <= i64::MAX,
                valid_day(today.day as int),
                1 <= period <= PARAM_MAX,
                1 <= length <= max_days,
                max_days <= PARAM_MAX,
                spec_max_exit(history@) <= DAY_MAX as int,
                past_all == spec_max_exit(history@) + period - length + 2,
                bound == if past_all > today.day as int {
                    past_all
                } else {
                    today.day as int
                },
                today.day <= enter <= bound,
                forall|e: int|
                    today.day <= e < enter ==> !candidate_feasible(
                        history@,
                        e,
                        period as int,
                        max_days as int,
                        length as int,
                    ),
            decreases bound - enter,
        {
            let exit_day: i64 = enter + length - 1;
            let start_at: i64 = exit_day - period;
            let candidate = Visit {
                id: 0,
                user_id,
                enter_at: Date { day: enter },
                exit_at: Date { day: exit_day },
                created_at: Timestamp { secs: 0, nanos: 0 },
                updated_at: Timestamp { secs: 0, nanos: 0 },
            };
            let used: i64 = candidate.sum_all_days_since(Date { day: start_at }, history);
            if max_days - used >= length {
                return Ok(candidate);
            }
            proof {
                if enter as int >= past_all {
                    lemma_feasible_when_past(
                        history@,
                        enter as int,
                        period as int,
                        max_days as int,
                        length as int,
                    );
                }
            }
            enter = enter + 1;
        }
    }
}

} // verus!
