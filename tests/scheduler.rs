use ec2_scheduler::clock::{CalendarDate, Instant, TimeOfDay, MONDAY, TUESDAY};
use ec2_scheduler::evaluate::{
    action, should_start, should_start_on, should_stop, should_stop_on, Action, Machine,
};
use ec2_scheduler::fleet::{
    evaluate_fleet, evaluate_fleet_on, machine_from_record, Annotation, MachineRecord,
};
use ec2_scheduler::schedule::{
    parse_overtime_windows, parse_work_schedule, render_work_schedule, OvertimeWindow,
    ParseError, WorkSchedule,
};

fn at(year: u16, month: u8, day: u8, hour: u8, minute: u8) -> Instant {
    Instant::new(year, month, day, hour, minute).unwrap()
}

fn time(hour: u8, minute: u8) -> TimeOfDay {
    TimeOfDay::new(hour, minute).unwrap()
}

fn date(year: u16, month: u8, day: u8) -> CalendarDate {
    CalendarDate::new(year, month, day).unwrap()
}

fn record(id: &str, work: Option<&str>, extra: Option<&str>) -> MachineRecord {
    MachineRecord {
        id: id.to_string(),
        work_hours: work.map(|s| s.to_string()),
        extra_hours: extra.map(|s| s.to_string()),
    }
}

fn machine(work: Option<&str>, extra: Option<&str>) -> Machine {
    machine_from_record(&record("i-1", work, extra)).unwrap()
}

// Monday 2024-03-04, Tuesday 2024-03-05.

#[test]
fn get_startup_instances() {
    let records = vec![
        record("i-a", Some("0900-1700|1,2,3,4,5"), None),
        record("i-b", Some("1000-1800|1"), None),
        record("i-c", None, Some("0900-1200|2024-03-04")),
    ];
    let d = evaluate_fleet(&records, &at(2024, 3, 4, 9, 0));
    assert_eq!(d.to_start, vec!["i-a".to_string(), "i-c".to_string()]);
    assert!(d.to_stop.is_empty());
    assert!(d.errors.is_empty());
}

#[test]
fn get_shutdown_instances() {
    let records = vec![
        record("i-a", Some("0900-1700|1,2,3,4,5"), None),
        record("i-b", Some("1000-1800|1"), None),
        record("i-c", None, Some("0900-1700|2024-03-04")),
    ];
    let d = evaluate_fleet(&records, &at(2024, 3, 4, 17, 0));
    assert_eq!(d.to_stop, vec!["i-a".to_string(), "i-c".to_string()]);
    assert!(d.to_start.is_empty());
    assert!(d.errors.is_empty());
}

#[test]
fn parse_work_reads_start_and_end_separately() {
    let w = parse_work_schedule("0900-1730|1,2,3,4,5").unwrap();
    assert_eq!(w.start, time(9, 0));
    assert_eq!(w.end, time(17, 30));
    assert_eq!(w.weekdays, vec![1, 2, 3, 4, 5]);
}

#[test]
fn work_round_trip() {
    for text in ["0900-1700|1,2,3,4,5", "0000-2359|0,6", "1700-1300|0,1,2,3,4,5,6", "0800-0800|3"] {
        let w = parse_work_schedule(text).unwrap();
        assert_eq!(render_work_schedule(&w), text);
        assert_eq!(parse_work_schedule(&render_work_schedule(&w)).unwrap(), w);
    }
}

#[test]
fn render_pads_with_zeros() {
    let w = WorkSchedule { start: time(7, 5), end: time(19, 0), weekdays: vec![0, 6] };
    assert_eq!(render_work_schedule(&w), "0705-1900|0,6");
}

#[test]
fn parse_work_layout_errors() {
    for text in [
        "",
        "0900-1700",
        "0900-1700|",
        "0900_1700|1",
        "900-1700|1",
        "0900-1700|1,",
        "0900-1700|1,,2",
        "0900-1700|12",
        "0900-1700|1|2",
        "09a0-1700|1",
    ] {
        assert_eq!(parse_work_schedule(text), Err(ParseError::Layout), "{}", text);
    }
}

#[test]
fn parse_work_time_errors() {
    assert_eq!(parse_work_schedule("2400-1700|1"), Err(ParseError::Time));
    assert_eq!(parse_work_schedule("0960-1700|1"), Err(ParseError::Time));
    assert_eq!(parse_work_schedule("0900-2500|1"), Err(ParseError::Time));
    assert_eq!(parse_work_schedule("0900-2500|9"), Err(ParseError::Time));
}

#[test]
fn parse_work_weekday_error() {
    assert_eq!(parse_work_schedule("0900-1700|7"), Err(ParseError::Weekday));
    assert_eq!(parse_work_schedule("0900-1700|1,2,9"), Err(ParseError::Weekday));
}

#[test]
fn parse_overtime_two_windows() {
    let v = parse_overtime_windows("1700-2100|2018-09-17,0800-1200|2018-09-20").unwrap();
    assert_eq!(
        v,
        vec![
            OvertimeWindow { start: time(17, 0), end: time(21, 0), date: date(2018, 9, 17) },
            OvertimeWindow { start: time(8, 0), end: time(12, 0), date: date(2018, 9, 20) },
        ]
    );
}

#[test]
fn parse_overtime_errors() {
    assert_eq!(parse_overtime_windows(""), Err(ParseError::Layout));
    assert_eq!(parse_overtime_windows("1700-2100|2018-09-17,"), Err(ParseError::Layout));
    assert_eq!(parse_overtime_windows("1700-2100|2018-9-17"), Err(ParseError::Layout));
    assert_eq!(parse_overtime_windows("1700-2100|17-09-2018"), Err(ParseError::Layout));
    assert_eq!(parse_overtime_windows("2500-2100|2018-09-17"), Err(ParseError::Time));
    assert_eq!(parse_overtime_windows("1700-2100|2018-02-30"), Err(ParseError::Date));
    assert_eq!(parse_overtime_windows("1700-2100|2018-13-01"), Err(ParseError::Date));
    assert_eq!(
        parse_overtime_windows("1700-2100|2018-02-30,2500-2100|2018-09-17"),
        Err(ParseError::Time)
    );
}

#[test]
fn overtime_leap_days() {
    assert!(parse_overtime_windows("0900-1000|2024-02-29").is_ok());
    assert!(parse_overtime_windows("0900-1000|2000-02-29").is_ok());
    assert_eq!(parse_overtime_windows("0900-1000|2023-02-29"), Err(ParseError::Date));
    assert_eq!(parse_overtime_windows("0900-1000|1900-02-29"), Err(ParseError::Date));
}

#[test]
fn clock_constructors() {
    assert!(TimeOfDay::new(24, 0).is_none());
    assert!(TimeOfDay::new(23, 60).is_none());
    assert_eq!(TimeOfDay::new(23, 59).unwrap().hour(), 23);
    assert!(CalendarDate::new(2023, 2, 29).is_none());
    assert!(CalendarDate::new(2024, 4, 31).is_none());
    assert_eq!(CalendarDate::new(2024, 2, 29).unwrap().day(), 29);
    assert!(Instant::new(2024, 3, 4, 24, 0).is_none());
}

#[test]
fn weekday_numbered_from_sunday() {
    assert_eq!(at(2024, 3, 4, 0, 0).weekday_exec(), MONDAY);
    assert_eq!(at(2024, 3, 5, 0, 0).weekday_exec(), TUESDAY);
    assert_eq!(at(2024, 3, 3, 0, 0).weekday_exec(), 0);
    assert_eq!(at(2024, 3, 9, 0, 0).weekday_exec(), 6);
}

#[test]
fn boundary_exactness() {
    let m = machine(Some("0900-1700|1"), None);
    assert!(!should_start(&m, &at(2024, 3, 4, 8, 59)));
    assert!(!should_start(&m, &at(2024, 3, 4, 9, 1)));
    assert!(should_start(&m, &at(2024, 3, 4, 9, 0)));
    assert!(!should_start(&m, &at(2024, 3, 5, 9, 0)));
    assert!(should_stop(&m, &at(2024, 3, 4, 17, 0)));
    assert!(!should_stop(&m, &at(2024, 3, 4, 16, 59)));
}

#[test]
fn evaluation_is_deterministic() {
    let m = machine(Some("0900-1700|1"), Some("1200-1300|2024-03-04"));
    for (h, mi) in [(9, 0), (12, 0), (13, 0), (17, 0), (10, 0)] {
        let now = at(2024, 3, 4, h, mi);
        assert_eq!(should_start(&m, &now), should_start(&m, &now));
        assert_eq!(should_stop(&m, &now), should_stop(&m, &now));
    }
}

#[test]
fn tie_break_stop_wins() {
    let m = machine(Some("0900-0900|1"), None);
    let now = at(2024, 3, 4, 9, 0);
    assert!(should_start(&m, &now));
    assert!(should_stop(&m, &now));
    assert_eq!(action(&m, &now), Action::Stop);
    let d = evaluate_fleet(&vec![record("i-tie", Some("0900-0900|1"), None)], &now);
    assert!(d.to_start.is_empty());
    assert_eq!(d.to_stop, vec!["i-tie".to_string()]);
}

#[test]
fn tie_break_overtime_against_work() {
    let records = vec![record("i-x", Some("0900-1700|1"), Some("0700-0900|2024-03-04"))];
    let d = evaluate_fleet(&records, &at(2024, 3, 4, 9, 0));
    assert!(d.to_start.is_empty());
    assert_eq!(d.to_stop, vec!["i-x".to_string()]);
}

#[test]
fn malformed_annotation_isolation() {
    let records = vec![
        record("i-1", Some("0900-1700|1"), None),
        record("i-2", Some("0900-1700|1"), Some("0900-1700|2024-13-45")),
        record("i-3", None, Some("0900-1000|2024-03-04")),
    ];
    let d = evaluate_fleet(&records, &at(2024, 3, 4, 9, 0));
    assert_eq!(d.to_start, vec!["i-1".to_string(), "i-3".to_string()]);
    assert!(d.to_stop.is_empty());
    assert_eq!(d.errors.len(), 1);
    assert_eq!(d.errors[0].id, "i-2");
    assert_eq!(d.errors[0].annotation, Annotation::ExtraHours);
    assert_eq!(d.errors[0].error, ParseError::Date);
}

#[test]
fn malformed_work_hours_reported() {
    let e = machine_from_record(&record("i-9", Some("9-17|1"), Some("garbage"))).unwrap_err();
    assert_eq!(e.id, "i-9");
    assert_eq!(e.annotation, Annotation::WorkHours);
    assert_eq!(e.error, ParseError::Layout);
}

#[test]
fn overtime_without_work_schedule() {
    let m = machine(None, Some("0900-1700|2024-03-05"));
    assert!(m.work_schedule.is_none());
    assert!(should_start(&m, &at(2024, 3, 5, 9, 0)));
    assert!(!should_start(&m, &at(2024, 3, 6, 9, 0)));
    assert!(!should_start(&m, &at(2024, 3, 12, 9, 0)));
    assert!(!should_start(&m, &at(2025, 3, 5, 9, 0)));
    assert!(should_stop(&m, &at(2024, 3, 5, 17, 0)));
}

#[test]
fn empty_fleet() {
    let d = evaluate_fleet(&Vec::new(), &at(2024, 3, 4, 9, 0));
    assert!(d.to_start.is_empty());
    assert!(d.to_stop.is_empty());
    assert!(d.errors.is_empty());
}

#[test]
fn machine_without_annotations_is_left() {
    let m = machine(None, None);
    let now = at(2024, 3, 4, 9, 0);
    assert_eq!(action(&m, &now), Action::Leave);
    let d = evaluate_fleet(&vec![record("i-0", None, None)], &now);
    assert!(d.to_start.is_empty() && d.to_stop.is_empty() && d.errors.is_empty());
}

#[test]
fn evaluation_with_given_weekday() {
    let m = machine(Some("0900-1700|1,3"), None);
    let now = at(2024, 3, 4, 9, 0);
    assert!(should_start_on(&m, &now, 3));
    assert!(!should_start_on(&m, &now, 2));
    let later = at(2024, 3, 4, 17, 0);
    assert!(should_stop_on(&m, &later, 1));
    let d = evaluate_fleet_on(&vec![record("i-w", Some("0900-1700|3"), None)], &now, 3);
    assert_eq!(d.to_start, vec!["i-w".to_string()]);
}
