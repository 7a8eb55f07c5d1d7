//! Decisions of the command-line front end that do not depend on the terminal.
use vstd::prelude::*;
use crate::error::Error;
use crate::svc::{new_entry_for, Client, Pending, Project, Request, Step, TimeEntry};
use crate::time::{span_fits, TimeSpan, Timestamp};

verus! {

/// What the restart command reports when there is nothing to restart.
pub const NO_RECENT_ENTRIES: &'static str = "🤷 No recent entries to restart";

/// Restarts the most recent of `recent` (newest first) at `now`: the step
/// starts a new timer in its workspace, with its project and description.
/// Fails when there is no recent entry.
pub fn run_restart(client: &Client, recent: &Vec<TimeEntry>, now: Timestamp) -> (r: Result<Step, Error>)
    ensures
        r is Err <==> recent.len() == 0,
        r is Err ==> r->Err_0.message@ == NO_RECENT_ENTRIES@,
        match r {
            Ok(Step::Send(Request::CreateTimeEntry(e), Pending::CreatedEntry)) => new_entry_for(
                e,
                recent@[0].workspace_id,
                recent@[0].project_id,
                match recent@[0].description {
                    Some(d) => Some(d@),
                    None => None,
                },
                now,
            ),
            Ok(_) => false,
            Err(_) => true,
        },
{
    if recent.len() == 0 {
        return Err(Error::new(NO_RECENT_ENTRIES.to_string()));
    }
    let last = &recent[0];
    let description = match &last.description {
        Some(d) => Some(d.as_str()),
        None => None,
    };
    Ok(client.start_time_entry(last.workspace_id, last.project_id, description, now))
}

/// `t` is present and falls within `[from, to)`.
pub open spec fn within(t: Option<Timestamp>, from: Timestamp, to: Timestamp) -> bool {
    t matches Some(x) && from.total_nanos() <= x.total_nanos() && x.total_nanos() < to.total_nanos()
}

/// An entry counts for the day `[from, to)` when it starts or stops within it.
pub open spec fn counts_for_day(e: TimeEntry, from: Timestamp, to: Timestamp) -> bool {
    within(e.start, from, to) || within(e.stop, from, to)
}

/// The positions of the entries that count for the day, in order.
pub open spec fn day_positions(entries: Seq<TimeEntry>, from: Timestamp, to: Timestamp) -> Seq<usize>
    decreases entries.len(),
{
    if entries.len() == 0 {
        Seq::empty()
    } else {
        let before = day_positions(entries.drop_last(), from, to);
        if counts_for_day(entries.last(), from, to) {
            before.push((entries.len() - 1) as usize)
        } else {
            before
        }
    }
}

/// The time logged by the entries that count for the day, in nanoseconds.
pub open spec fn day_total(entries: Seq<TimeEntry>, from: Timestamp, to: Timestamp) -> int
    decreases entries.len(),
{
    if entries.len() == 0 {
        0
    } else {
        let before = day_total(entries.drop_last(), from, to);
        if counts_for_day(entries.last(), from, to) {
            before + entries.last().duration.total_nanos()
        } else {
            before
        }
    }
}

/// Some entry that counts for the day is running.
pub open spec fn day_running(entries: Seq<TimeEntry>, from: Timestamp, to: Timestamp) -> bool {
    exists|i: int| 0 <= i < entries.len() && counts_for_day(entries[i], from, to) && #[trigger] entries[i].is_running
}

/// Each running total of the day's logged time fits a span.
pub open spec fn day_totals_fit(entries: Seq<TimeEntry>, from: Timestamp, to: Timestamp) -> bool {
    forall|k: int| 0 <= k <= entries.len() ==> span_fits(#[trigger] day_total(entries.take(k), from, to))
}

/// What the status command shows of a day: the entries that count for it,
/// the time they logged, and whether one of them is running.
#[derive(Debug)]
pub struct DaySummary {
    pub shown: Vec<usize>,
    pub logged: TimeSpan,
    pub running: bool,
}

/// Summarizes the day `[day_start, day_end)` over `entries`; `None` when the
/// logged time, summed in order, leaves the range of a span.
pub fn summarize_day(entries: &Vec<TimeEntry>, day_start: Timestamp, day_end: Timestamp) -> (r: Option<
    DaySummary,
>)
    ensures
        r is Some <==> day_totals_fit(entries@, day_start, day_end),
        r is Some ==> r->0.shown@ == day_positions(entries@, day_start, day_end),
        r is Some ==> r->0.logged.total_nanos() == day_total(entries@, day_start, day_end),
        r is Some ==> r->0.running == day_running(entries@, day_start, day_end),
{
    let mut shown: Vec<usize> = Vec::new();
    let mut logged = TimeSpan::zero();
    let mut running = false;
    let mut i: usize = 0;
    assert(entries@.take(0) =~= Seq::<TimeEntry>::empty());
    while i < entries.len()
        invariant
            i <= entries.len(),
            shown@ == day_positions(entries@.take(i as int), day_start, day_end),
            logged.total_nanos() == day_total(entries@.take(i as int), day_start, day_end),
            running == day_running(entries@.take(i as int), day_start, day_end),
            forall|k: int| 0 <= k <= i ==> span_fits(#[trigger] day_total(entries@.take(k), day_start, day_end)),
        decreases entries.len() - i,
    {
        let e = &entries[i];
        let ghost prefix = entries@.take(i as int);
        let ghost next = entries@.take(i + 1);
        assert(next.drop_last() =~= prefix);
        assert(next.last() == entries@[i as int]);
        let starts = match e.start {
            Some(t) => !t.is_before(&day_start) && t.is_before(&day_end),
            None => false,
        };
        let stops = match e.stop {
            Some(t) => !t.is_before(&day_start) && t.is_before(&day_end),
            None => false,
        };
        if starts || stops {
            match logged.checked_add(&e.duration) {
                Some(total) => logged = total,
                None => {
                    proof {
                        assert(counts_for_day(next.last(), day_start, day_end));
                        assert(day_total(next, day_start, day_end) == logged.total_nanos()
                            + e.duration.total_nanos());
                        assert(!span_fits(day_total(entries@.take(i + 1), day_start, day_end)));
                    }
                    return None;
                },
            }
            shown.push(i);
            if e.is_running {
                running = true;
            }
        }
        proof {
            if running {
                if !day_running(prefix, day_start, day_end) {
                    assert(counts_for_day(next[i as int], day_start, day_end) && next[i as int].is_running);
                } else {
                    let j = choose|j: int| 0 <= j < prefix.len() && counts_for_day(prefix[j], day_start, day_end) && #[trigger] prefix[j].is_running;
                    assert(next[j] == prefix[j]);
                }
            } else {
                assert forall|j: int| 0 <= j < next.len() && counts_for_day(next[j], day_start, day_end) implies !#[trigger] next[j].is_running by {
                    if j < i {
                        assert(next[j] == prefix[j]);
                    }
                }
            }
        }
        i = i + 1;
    }
    assert(entries@.take(entries.len() as int) =~= entries@);
    Some(DaySummary { shown, logged, running })
}

/// The positions of the active projects, in order.
pub open spec fn active_positions(projects: Seq<Project>) -> Seq<usize>
    decreases projects.len(),
{
    if projects.len() == 0 {
        Seq::empty()
    } else {
        let before = active_positions(projects.drop_last());
        if projects.last().active {
            before.push((projects.len() - 1) as usize)
        } else {
            before
        }
    }
}

/// The projects that the start command offers: the active ones, by position.
pub fn active_projects(projects: &Vec<Project>) -> (r: Vec<usize>)
    ensures
        r@ == active_positions(projects@),
{
    let mut r: Vec<usize> = Vec::new();
    let mut i: usize = 0;
    while i < projects.len()
        invariant
            i <= projects.len(),
            r@ == active_positions(projects@.take(i as int)),
        decreases projects.len() - i,
    {
        let ghost next = projects@.take(i + 1);
        assert(next.drop_last() =~= projects@.take(i as int));
        if projects[i].active {
            r.push(i);
        }
        i = i + 1;
    }
    assert(projects@.take(projects.len() as int) =~= projects@);
    r
}

} // verus!
