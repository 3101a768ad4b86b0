//! One pass over a fleet: parse each machine's annotations, evaluate it, and
//! partition the fleet into machines to start, machines to stop, and machines
//! skipped because an annotation is malformed.

use vstd::prelude::*;
use crate::clock::Instant;
use crate::evaluate::{action_at, action_on, Action, Machine, MachineView};
use crate::schedule::{
    parse_overtime, parse_overtime_windows, parse_work, parse_work_schedule, OvertimeWindow,
    ParseError, WorkSchedule,
};

verus! {

/// A machine as the inventory lists it: its id and its raw annotations, if any.
#[derive(Clone, Debug, PartialEq, Eq)]
pub struct MachineRecord {
    pub id: String,
    pub work_hours: Option<String>,
    pub extra_hours: Option<String>,
}

pub struct MachineRecordView {
    pub id: Seq<char>,
    pub work_hours: Option<Seq<char>>,
    pub extra_hours: Option<Seq<char>>,
}

impl View for MachineRecord {
    type V = MachineRecordView;

    open spec fn view(&self) -> MachineRecordView {
        MachineRecordView {
            id: self.id@,
            work_hours: match self.work_hours {
                Some(s) => Some(s@),
                None => None,
            },
            extra_hours: match self.extra_hours {
                Some(s) => Some(s@),
                None => None,
            },
        }
    }
}

/// Which annotation of a machine was malformed.
#[derive(PartialEq, Eq, Structural, Clone, Copy, Debug)]
pub enum Annotation {
    WorkHours,
    ExtraHours,
}

/// A machine skipped because one of its annotations is malformed.
#[derive(Clone, Debug, PartialEq, Eq)]
pub struct MachineError {
    pub id: String,
    pub annotation: Annotation,
    pub error: ParseError,
}

pub struct MachineErrorView {
    pub id: Seq<char>,
    pub annotation: Annotation,
    pub error: ParseError,
}

impl View for MachineError {
    type V = MachineErrorView;

    open spec fn view(&self) -> MachineErrorView {
        MachineErrorView { id: self.id@, annotation: self.annotation, error: self.error }
    }
}

/// The outcome of one pass over the fleet.
#[derive(Clone, Debug, PartialEq, Eq)]
pub struct FleetDecision {
    pub to_start: Vec<String>,
    pub to_stop: Vec<String>,
    pub errors: Vec<MachineError>,
}

/// The machine a record describes, or the first malformed annotation
/// (work hours before extra hours).
pub open spec fn machine_of(r: MachineRecordView) -> Result<MachineView, (Annotation, ParseError)> {
    match r.work_hours {
        Some(t) if parse_work(t) is Err => Err((Annotation::WorkHours, parse_work(t)->Err_0)),
        _ => match r.extra_hours {
            Some(t) if parse_overtime(t) is Err => Err(
                (Annotation::ExtraHours, parse_overtime(t)->Err_0),
            ),
            _ => Ok(
                MachineView {
                    id: r.id,
                    work_schedule: match r.work_hours {
                        Some(t) => Some(parse_work(t)->Ok_0),
                        None => None,
                    },
                    overtime_schedule: match r.extra_hours {
                        Some(t) => parse_overtime(t)->Ok_0,
                        None => Seq::empty(),
                    },
                },
            ),
        },
    }
}

/// What one record contributes to the set `a` (start or stop).
pub open spec fn record_ids(r: MachineRecord, now: Instant, weekday: int, a: Action) -> Seq<Seq<char>> {
    match machine_of(r@) {
        Ok(m) => if action_at(m, now, weekday) == a {
            seq![r.id@]
        } else {
            Seq::empty()
        },
        Err(_) => Seq::empty(),
    }
}

/// What one record contributes to the errors.
pub open spec fn record_errors(r: MachineRecord) -> Seq<MachineErrorView> {
    match machine_of(r@) {
        Ok(_) => Seq::empty(),
        Err((a, e)) => seq![MachineErrorView { id: r.id@, annotation: a, error: e }],
    }
}

/// The ids, in fleet order, of the records whose action at `now` is `a`.
pub open spec fn fleet_ids(rs: Seq<MachineRecord>, now: Instant, weekday: int, a: Action) -> Seq<Seq<char>>
    decreases rs.len(),
{
    if rs.len() == 0 {
        Seq::empty()
    } else {
        fleet_ids(rs.drop_last(), now, weekday, a) + record_ids(rs.last(), now, weekday, a)
    }
}

/// The errors, in fleet order, of the records with a malformed annotation.
pub open spec fn fleet_errors(rs: Seq<MachineRecord>) -> Seq<MachineErrorView>
    decreases rs.len(),
{
    if rs.len() == 0 {
        Seq::empty()
    } else {
        fleet_errors(rs.drop_last()) + record_errors(rs.last())
    }
}

pub open spec fn ids_view(v: Seq<String>) -> Seq<Seq<char>> {
    v.map_values(|s: String| s@)
}

pub open spec fn errors_view(v: Seq<MachineError>) -> Seq<MachineErrorView> {
    v.map_values(|e: MachineError| e@)
}

pub open spec fn machine_result_view(r: Result<Machine, MachineError>) -> Result<MachineView, (Annotation, ParseError)> {
    match r {
        Ok(m) => Ok(m@),
        Err(e) => Err((e.annotation, e.error)),
    }
}

/// Parses a record's annotations into a machine.
pub fn machine_from_record(rec: &MachineRecord) -> (r: Result<Machine, MachineError>)
    ensures
        machine_result_view(r) == machine_of(rec@),
        r matches Err(e) ==> e.id@ == rec.id@,
{
    let work: Option<WorkSchedule> = match &rec.work_hours {
        Some(t) => match parse_work_schedule(t.as_str()) {
            Ok(w) => Some(w),
            Err(e) => {
                return Err(
                    MachineError { id: rec.id.clone(), annotation: Annotation::WorkHours, error: e },
                );
            },
        },
        None => None,
    };
    let overtime: Vec<OvertimeWindow> = match &rec.extra_hours {
        Some(t) => match parse_overtime_windows(t.as_str()) {
            Ok(v) => v,
            Err(e) => {
                return Err(
                    MachineError {
                        id: rec.id.clone(),
                        annotation: Annotation::ExtraHours,
                        error: e,
                    },
                );
            },
        },
        None => Vec::new(),
    };
    let m = Machine { id: rec.id.clone(), work_schedule: work, overtime_schedule: overtime };
    assert(m@.overtime_schedule =~= machine_of(rec@)->Ok_0.overtime_schedule);
    Ok(m)
}

/// Partitions the fleet at `now`, given the weekday of `now`.
pub fn evaluate_fleet_on(records: &Vec<MachineRecord>, now: &Instant, weekday: u8) -> (r: FleetDecision)
    ensures
        ids_view(r.to_start@) == fleet_ids(records@, *now, weekday as int, Action::Start),
        ids_view(r.to_stop@) == fleet_ids(records@, *now, weekday as int, Action::Stop),
        errors_view(r.errors@) == fleet_errors(records@),
{
    let mut to_start: Vec<String> = Vec::new();
    let mut to_stop: Vec<String> = Vec::new();
    let mut errors: Vec<MachineError> = Vec::new();
    let mut i: usize = 0;
    while i < records.len()
        invariant
            i <= records@.len(),
            ids_view(to_start@) == fleet_ids(records@.subrange(0, i as int), *now, weekday as int, Action::Start),
            ids_view(to_stop@) == fleet_ids(records@.subrange(0, i as int), *now, weekday as int, Action::Stop),
            errors_view(errors@) == fleet_errors(records@.subrange(0, i as int)),
        decreases records@.len() - i,
    {
        let ghost done = records@.subrange(0, i as int);
        let ghost next = records@.subrange(0, i + 1);
        assert(next.drop_last() =~= done);
        assert(next.last() == records@[i as int]);
        let ghost s0 = to_start@;
        let ghost s1 = to_stop@;
        let ghost e0 = errors@;
        match machine_from_record(&records[i]) {
            Ok(m) => {
                let a = action_on(&m, now, weekday);
                match a {
                    Action::Start => to_start.push(m.id),
                    Action::Stop => to_stop.push(m.id),
                    Action::Leave => {},
                }
            },
            Err(e) => errors.push(e),
        }
        assert(ids_view(to_start@) =~= ids_view(s0) + record_ids(records@[i as int], *now, weekday as int, Action::Start));
        assert(ids_view(to_stop@) =~= ids_view(s1) + record_ids(records@[i as int], *now, weekday as int, Action::Stop));
        assert(errors_view(errors@) =~= errors_view(e0) + record_errors(records@[i as int]));
        i = i + 1;
    }
    assert(records@.subrange(0, i as int) =~= records@);
    FleetDecision { to_start, to_stop, errors }
}

/// Partitions the fleet at `now` into the machines to start, the machines to
/// stop, and the machines skipped for a malformed annotation.
pub fn evaluate_fleet(records: &Vec<MachineRecord>, now: &Instant) -> (r: FleetDecision)
    requires
        now.wf(),
    ensures
        ids_view(r.to_start@) == fleet_ids(records@, *now, now.weekday(), Action::Start),
        ids_view(r.to_stop@) == fleet_ids(records@, *now, now.weekday(), Action::Stop),
        errors_view(r.errors@) == fleet_errors(records@),
        records@.len() == 0 ==> r.to_start@.len() == 0 && r.to_stop@.len() == 0
            && r.errors@.len() == 0,
{
    let r = evaluate_fleet_on(records, now, now.weekday_exec());
    assert(ids_view(r.to_start@).len() == r.to_start@.len());
    assert(ids_view(r.to_stop@).len() == r.to_stop@.len());
    assert(errors_view(r.errors@).len() == r.errors@.len());
    r
}

/// The pass treats records one by one: the outcome for a fleet split in two is
/// the outcome for the first part followed by the outcome for the second.
pub proof fn lemma_fleet_concat(a: Seq<MachineRecord>, b: Seq<MachineRecord>, now: Instant, weekday: int)
    ensures
        fleet_ids(a + b, now, weekday, Action::Start) == fleet_ids(a, now, weekday, Action::Start)
            + fleet_ids(b, now, weekday, Action::Start),
        fleet_ids(a + b, now, weekday, Action::Stop) == fleet_ids(a, now, weekday, Action::Stop)
            + fleet_ids(b, now, weekday, Action::Stop),
        fleet_errors(a + b) == fleet_errors(a) + fleet_errors(b),
    decreases b.len(),
{
    if b.len() == 0 {
        assert(a + b =~= a);
        assert(fleet_ids(a, now, weekday, Action::Start) + Seq::empty() =~= fleet_ids(a, now, weekday, Action::Start));
        assert(fleet_ids(a, now, weekday, Action::Stop) + Seq::empty() =~= fleet_ids(a, now, weekday, Action::Stop));
        assert(fleet_errors(a) + Seq::empty() =~= fleet_errors(a));
    } else {
        lemma_fleet_concat(a, b.drop_last(), now, weekday);
        assert((a + b).drop_last() =~= a + b.drop_last());
        assert((a + b).last() == b.last());
        let r = b.last();
        assert(fleet_ids(a + b, now, weekday, Action::Start) =~= fleet_ids(a, now, weekday, Action::Start)
            + fleet_ids(b, now, weekday, Action::Start));
        assert(fleet_ids(a + b, now, weekday, Action::Stop) =~= fleet_ids(a, now, weekday, Action::Stop)
            + fleet_ids(b, now, weekday, Action::Stop));
        assert(fleet_errors(a + b) =~= fleet_errors(a) + fleet_errors(b));
    }
}

proof fn lemma_fleet_single(r: MachineRecord, now: Instant, weekday: int)
    ensures
        fleet_ids(seq![r], now, weekday, Action::Start) == record_ids(r, now, weekday, Action::Start),
        fleet_ids(seq![r], now, weekday, Action::Stop) == record_ids(r, now, weekday, Action::Stop),
        fleet_errors(seq![r]) == record_errors(r),
{
    assert(seq![r].drop_last() =~= Seq::<MachineRecord>::empty());
    assert(seq![r].last() == r);
    assert(fleet_ids(Seq::<MachineRecord>::empty(), now, weekday, Action::Start) == Seq::<Seq<char>>::empty());
    assert(fleet_ids(Seq::<MachineRecord>::empty(), now, weekday, Action::Stop) == Seq::<Seq<char>>::empty());
    assert(fleet_errors(Seq::<MachineRecord>::empty()) == Seq::<MachineErrorView>::empty());
    assert(Seq::<Seq<char>>::empty() + record_ids(r, now, weekday, Action::Start) =~= record_ids(r, now, weekday, Action::Start));
    assert(Seq::<Seq<char>>::empty() + record_ids(r, now, weekday, Action::Stop) =~= record_ids(r, now, weekday, Action::Stop));
    assert(Seq::<MachineErrorView>::empty() + record_errors(r) =~= record_errors(r));
}

/// A record with a malformed annotation is skipped: the records around it are
/// classified as if it were absent, and it adds exactly one error, its own.
pub proof fn lemma_malformed_isolated(
    a: Seq<MachineRecord>,
    r: MachineRecord,
    b: Seq<MachineRecord>,
    now: Instant,
    weekday: int,
)
    requires
        machine_of(r@) is Err,
    ensures
        fleet_ids(a + seq![r] + b, now, weekday, Action::Start) == fleet_ids(a + b, now, weekday, Action::Start),
        fleet_ids(a + seq![r] + b, now, weekday, Action::Stop) == fleet_ids(a + b, now, weekday, Action::Stop),
        fleet_errors(a + seq![r] + b) == fleet_errors(a) + record_errors(r) + fleet_errors(b),
        record_errors(r).len() == 1,
        record_errors(r)[0].id == r.id@,
{
    lemma_fleet_concat(a, seq![r], now, weekday);
    lemma_fleet_concat(a + seq![r], b, now, weekday);
    lemma_fleet_concat(a, b, now, weekday);
    lemma_fleet_single(r, now, weekday);
    assert(fleet_ids(a, now, weekday, Action::Start) + Seq::empty() =~= fleet_ids(a, now, weekday, Action::Start));
    assert(fleet_ids(a, now, weekday, Action::Stop) + Seq::empty() =~= fleet_ids(a, now, weekday, Action::Stop));
}

/// A record whose machine both starts and stops at `now` goes to the stop set,
/// and not to the start set.
pub proof fn lemma_tie_break_in_fleet(
    a: Seq<MachineRecord>,
    r: MachineRecord,
    b: Seq<MachineRecord>,
    now: Instant,
    weekday: int,
)
    requires
        machine_of(r@) is Ok,
        crate::evaluate::starts_at(machine_of(r@)->Ok_0, now, weekday),
        crate::evaluate::stops_at(machine_of(r@)->Ok_0, now, weekday),
    ensures
        fleet_ids(a + seq![r] + b, now, weekday, Action::Start) == fleet_ids(a, now, weekday, Action::Start)
            + fleet_ids(b, now, weekday, Action::Start),
        fleet_ids(a + seq![r] + b, now, weekday, Action::Stop) == fleet_ids(a, now, weekday, Action::Stop)
            + seq![r.id@] + fleet_ids(b, now, weekday, Action::Stop),
{
    lemma_fleet_concat(a, seq![r], now, weekday);
    lemma_fleet_concat(a + seq![r], b, now, weekday);
    lemma_fleet_single(r, now, weekday);
    assert(fleet_ids(a, now, weekday, Action::Start) + Seq::empty() =~= fleet_ids(a, now, weekday, Action::Start));
}

/// Each record lands in at most one of the start set, the stop set and the errors.
pub proof fn lemma_record_in_one_place(r: MachineRecord, now: Instant, weekday: int)
    ensures
        record_ids(r, now, weekday, Action::Start).len() + record_ids(r, now, weekday, Action::Stop).len()
            + record_errors(r).len() <= 1,
{
}

} // verus!
