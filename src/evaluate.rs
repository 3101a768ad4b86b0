//! Matching one machine's schedules against an evaluation instant.

use vstd::prelude::*;
use crate::clock::{Instant, TimeOfDay};
use crate::schedule::{OvertimeWindow, WorkSchedule, WorkScheduleView};

verus! {

/// A machine with its parsed schedules. `work_schedule` is `None` when the
/// machine carries no work-hours annotation.
#[derive(Clone, Debug, PartialEq, Eq)]
pub struct Machine {
    pub id: String,
    pub work_schedule: Option<WorkSchedule>,
    pub overtime_schedule: Vec<OvertimeWindow>,
}

pub struct MachineView {
    pub id: Seq<char>,
    pub work_schedule: Option<WorkScheduleView>,
    pub overtime_schedule: Seq<OvertimeWindow>,
}

impl View for Machine {
    type V = MachineView;

    open spec fn view(&self) -> MachineView {
        MachineView {
            id: self.id@,
            work_schedule: match self.work_schedule {
                Some(w) => Some(w@),
                None => None,
            },
            overtime_schedule: self.overtime_schedule@,
        }
    }
}

/// What the scheduler does with a machine at an instant.
#[derive(PartialEq, Eq, Structural, Clone, Copy, Debug)]
pub enum Action {
    Start,
    Stop,
    Leave,
}

/// Some overtime window begins (`at_end` false) or ends (`at_end` true) at `now`.
pub open spec fn overtime_hits(ots: Seq<OvertimeWindow>, now: Instant, at_end: bool) -> bool {
    exists|i: int|
        0 <= i < ots.len() && (if at_end {
            ots[i].end
        } else {
            ots[i].start
        }) == now.time && #[trigger] ots[i].date == now.date
}

pub open spec fn has_weekday(days: Seq<u8>, weekday: int) -> bool {
    exists|k: int| 0 <= k < days.len() && #[trigger] days[k] as int == weekday
}

/// The work schedule begins (`at_end` false) or ends (`at_end` true) at `now`,
/// whose weekday is `weekday`.
pub open spec fn work_hits(w: Option<WorkScheduleView>, now: Instant, weekday: int, at_end: bool) -> bool {
    match w {
        Some(w) => (if at_end {
            w.end
        } else {
            w.start
        }) == now.time && has_weekday(w.weekdays, weekday),
        None => false,
    }
}

pub open spec fn starts_at(m: MachineView, now: Instant, weekday: int) -> bool {
    overtime_hits(m.overtime_schedule, now, false) || work_hits(m.work_schedule, now, weekday, false)
}

pub open spec fn stops_at(m: MachineView, now: Instant, weekday: int) -> bool {
    overtime_hits(m.overtime_schedule, now, true) || work_hits(m.work_schedule, now, weekday, true)
}

/// Stopping wins when a machine both starts and stops at the same minute.
pub open spec fn action_at(m: MachineView, now: Instant, weekday: int) -> Action {
    if stops_at(m, now, weekday) {
        Action::Stop
    } else if starts_at(m, now, weekday) {
        Action::Start
    } else {
        Action::Leave
    }
}

fn overtime_hits_exec(ots: &Vec<OvertimeWindow>, now: &Instant, at_end: bool) -> (r: bool)
    ensures
        r == overtime_hits(ots@, *now, at_end),
{
    let mut i: usize = 0;
    while i < ots.len()
        invariant
            i <= ots@.len(),
            forall|j: int|
                0 <= j < i ==> !((if at_end {
                    ots@[j].end
                } else {
                    ots@[j].start
                }) == now.time && #[trigger] ots@[j].date == now.date),
        decreases ots@.len() - i,
    {
        let w = ots[i];
        let t: TimeOfDay = if at_end {
            w.end
        } else {
            w.start
        };
        if t == now.time && w.date == now.date {
            return true;
        }
        i = i + 1;
    }
    false
}

fn has_weekday_exec(days: &Vec<u8>, weekday: u8) -> (r: bool)
    ensures
        r == has_weekday(days@, weekday as int),
{
    let mut k: usize = 0;
    while k < days.len()
        invariant
            k <= days@.len(),
            forall|j: int| 0 <= j < k ==> #[trigger] days@[j] as int != weekday as int,
        decreases days@.len() - k,
    {
        if days[k] == weekday {
            return true;
        }
        k = k + 1;
    }
    false
}

fn work_hits_exec(w: &Option<WorkSchedule>, now: &Instant, weekday: u8, at_end: bool) -> (r: bool)
    ensures
        r == work_hits(
            match *w {
                Some(w) => Some(w@),
                None => None,
            },
            *now,
            weekday as int,
            at_end,
        ),
{
    match w {
        Some(w) => {
            let t: TimeOfDay = if at_end {
                w.end
            } else {
                w.start
            };
            t == now.time && has_weekday_exec(&w.weekdays, weekday)
        },
        None => false,
    }
}

/// Whether `m` must be started at `now`, given the weekday of `now`.
pub fn should_start_on(m: &Machine, now: &Instant, weekday: u8) -> (r: bool)
    ensures
        r == starts_at(m@, *now, weekday as int),
{
    overtime_hits_exec(&m.overtime_schedule, now, false) || work_hits_exec(
        &m.work_schedule,
        now,
        weekday,
        false,
    )
}

/// Whether `m` must be stopped at `now`, given the weekday of `now`.
pub fn should_stop_on(m: &Machine, now: &Instant, weekday: u8) -> (r: bool)
    ensures
        r == stops_at(m@, *now, weekday as int),
{
    overtime_hits_exec(&m.overtime_schedule, now, true) || work_hits_exec(
        &m.work_schedule,
        now,
        weekday,
        true,
    )
}

/// What to do with `m` at `now`, given the weekday of `now`.
pub fn action_on(m: &Machine, now: &Instant, weekday: u8) -> (r: Action)
    ensures
        r == action_at(m@, *now, weekday as int),
{
    if should_stop_on(m, now, weekday) {
        Action::Stop
    } else if should_start_on(m, now, weekday) {
        Action::Start
    } else {
        Action::Leave
    }
}

/// Whether `m` must be started at `now`.
pub fn should_start(m: &Machine, now: &Instant) -> (r: bool)
    requires
        now.wf(),
    ensures
        r == starts_at(m@, *now, now.weekday()),
{
    should_start_on(m, now, now.weekday_exec())
}

/// Whether `m` must be stopped at `now`.
pub fn should_stop(m: &Machine, now: &Instant) -> (r: bool)
    requires
        now.wf(),
    ensures
        r == stops_at(m@, *now, now.weekday()),
{
    should_stop_on(m, now, now.weekday_exec())
}

/// What to do with `m` at `now`.
pub fn action(m: &Machine, now: &Instant) -> (r: Action)
    requires
        now.wf(),
    ensures
        r == action_at(m@, *now, now.weekday()),
{
    action_on(m, now, now.weekday_exec())
}

/// Evaluation depends on the machine's schedules and the instant alone: equal
/// machines at equal instants get equal answers.
pub proof fn lemma_evaluation_deterministic(m1: Machine, m2: Machine, n1: Instant, n2: Instant)
    requires
        m1@ == m2@,
        n1 == n2,
    ensures
        starts_at(m1@, n1, n1.weekday()) == starts_at(m2@, n2, n2.weekday()),
        stops_at(m1@, n1, n1.weekday()) == stops_at(m2@, n2, n2.weekday()),
        action_at(m1@, n1, n1.weekday()) == action_at(m2@, n2, n2.weekday()),
{
}

/// A machine that both starts and stops at the same minute is stopped.
pub proof fn lemma_stop_wins(m: MachineView, now: Instant, weekday: int)
    requires
        starts_at(m, now, weekday),
        stops_at(m, now, weekday),
    ensures
        action_at(m, now, weekday) == Action::Stop,
{
}

/// A machine without a work schedule and with a single overtime window starts
/// exactly at that window's start time on that window's date, whatever the weekday.
pub proof fn lemma_overtime_only(m: MachineView, w: OvertimeWindow, now: Instant, weekday: int)
    requires
        m.work_schedule is None,
        m.overtime_schedule == seq![w],
    ensures
        starts_at(m, now, weekday) <==> (w.start == now.time && w.date == now.date),
{
    if w.start == now.time && w.date == now.date {
        assert(m.overtime_schedule[0] == w);
    }
}

/// A work schedule triggers only at its exact start minute and only on its
/// listed weekdays.
pub proof fn lemma_work_start_exact(m: MachineView, now: Instant, weekday: int)
    requires
        m.overtime_schedule.len() == 0,
        m.work_schedule is Some,
    ensures
        starts_at(m, now, weekday) <==> (m.work_schedule->0.start == now.time && has_weekday(
            m.work_schedule->0.weekdays,
            weekday,
        )),
{
}

} // verus!
