//! The two annotation grammars: work hours `HHMM-HHMM|d,d,...` and overtime
//! windows `HHMM-HHMM|YYYY-MM-DD,...`, their parsers, and the work-hours renderer.

use vstd::prelude::*;
use vstd::string::*;
use crate::clock::{
    chrono_hhmm, chrono_ymd, date_shape, is_weekday, valid_date, CalendarDate, TimeOfDay,
};
use crate::text::{
    chars_of, digit_char, digit_char_exec, digit_value, digit_value_exec, digits_at, is_digit,
    is_digit_exec, num2, num4, push_char, two_digits,
};

verus! {

/// Why a present annotation was rejected.
#[derive(PartialEq, Eq, Structural, Clone, Copy, Debug)]
pub enum ParseError {
    /// Wrong length, a missing or misplaced separator, or a non-digit where a
    /// digit belongs.
    Layout,
    /// An `HHMM` token that is not a time of day.
    Time,
    /// A weekday digit outside 0..=6.
    Weekday,
    /// A `YYYY-MM-DD` token that is not a calendar date.
    Date,
}

/// A recurring weekly window: on each listed weekday the machine runs from
/// `start` to `end`.
#[derive(Clone, Debug, PartialEq, Eq)]
pub struct WorkSchedule {
    pub start: TimeOfDay,
    pub end: TimeOfDay,
    pub weekdays: Vec<u8>,
}

pub struct WorkScheduleView {
    pub start: TimeOfDay,
    pub end: TimeOfDay,
    pub weekdays: Seq<u8>,
}

impl View for WorkSchedule {
    type V = WorkScheduleView;

    open spec fn view(&self) -> WorkScheduleView {
        WorkScheduleView { start: self.start, end: self.end, weekdays: self.weekdays@ }
    }
}

impl WorkScheduleView {
    pub open spec fn wf(self) -> bool {
        &&& self.start.wf()
        &&& self.end.wf()
        &&& self.weekdays.len() >= 1
        &&& forall|k: int| 0 <= k < self.weekdays.len() ==> is_weekday(#[trigger] self.weekdays[k] as int)
    }
}

/// A one-off window: on `date` the machine runs from `start` to `end`.
#[derive(PartialEq, Eq, Structural, Clone, Copy, Debug)]
pub struct OvertimeWindow {
    pub start: TimeOfDay,
    pub end: TimeOfDay,
    pub date: CalendarDate,
}

pub open spec fn result_view(r: Result<WorkSchedule, ParseError>) -> Result<WorkScheduleView, ParseError> {
    match r {
        Ok(w) => Ok(w@),
        Err(e) => Err(e),
    }
}

// ---- work hours -------------------------------------------------------------

pub open spec fn time_at(s: Seq<char>, i: int) -> TimeOfDay {
    TimeOfDay { hour: num2(s, i) as u8, minute: num2(s, i + 2) as u8 }
}

pub open spec fn time_ok_at(s: Seq<char>, i: int) -> bool {
    num2(s, i) < 24 && num2(s, i + 2) < 60
}

/// `HHMM-HHMM` at `s[i..i + 9]`, digits and separator only.
pub open spec fn range_shape(s: Seq<char>, i: int) -> bool {
    digits_at(s, i, 4) && s[i + 4] == '-' && digits_at(s, i + 5, 4)
}

pub open spec fn work_day_count(s: Seq<char>) -> int {
    (s.len() - 9) / 2
}

/// The shape of a work-hours annotation: a time range, `|`, then single digits
/// separated by commas.
pub open spec fn work_layout(s: Seq<char>) -> bool {
    &&& s.len() >= 11
    &&& (s.len() - 11) % 2 == 0
    &&& range_shape(s, 0)
    &&& s[9] == '|'
    &&& forall|j: int|
        10 <= j < s.len() ==> (if (j - 10) % 2 == 0 {
            is_digit(#[trigger] s[j])
        } else {
            s[j] == ','
        })
}

pub open spec fn work_day_at(s: Seq<char>, k: int) -> int {
    digit_value(s[10 + 2 * k])
}

pub open spec fn work_days_ok(s: Seq<char>) -> bool {
    forall|k: int| 0 <= k < work_day_count(s) ==> #[trigger] work_day_at(s, k) <= 6
}

pub open spec fn work_of_text(s: Seq<char>) -> WorkScheduleView {
    WorkScheduleView {
        start: time_at(s, 0),
        end: time_at(s, 5),
        weekdays: Seq::new(work_day_count(s) as nat, |k: int| work_day_at(s, k) as u8),
    }
}

/// What a work-hours annotation means; the first failing check gives the error.
pub open spec fn parse_work(s: Seq<char>) -> Result<WorkScheduleView, ParseError> {
    if !work_layout(s) {
        Err(ParseError::Layout)
    } else if !(time_ok_at(s, 0) && time_ok_at(s, 5)) {
        Err(ParseError::Time)
    } else if !work_days_ok(s) {
        Err(ParseError::Weekday)
    } else {
        Ok(work_of_text(s))
    }
}

pub open spec fn time_text(t: TimeOfDay) -> Seq<char> {
    two_digits(t.hour as int) + two_digits(t.minute as int)
}

pub open spec fn days_text(d: Seq<u8>) -> Seq<char> {
    Seq::new(
        (2 * d.len() - 1) as nat,
        |i: int|
            if i % 2 == 0 {
                digit_char(d[i / 2] as int)
            } else {
                ','
            },
    )
}

/// The annotation text of a work schedule.
pub open spec fn work_text(w: WorkScheduleView) -> Seq<char> {
    time_text(w.start) + seq!['-'] + time_text(w.end) + seq!['|'] + days_text(w.weekdays)
}

// ---- overtime ---------------------------------------------------------------

pub open spec fn overtime_count(s: Seq<char>) -> int {
    (s.len() + 1) as int / 21
}

/// Record `r` of an overtime annotation has the shape `HHMM-HHMM|YYYY-MM-DD`.
pub open spec fn record_shape(s: Seq<char>, r: int) -> bool {
    range_shape(s, 21 * r) && s[21 * r + 9] == '|' && date_shape(s, 21 * r + 10)
}

pub open spec fn overtime_layout(s: Seq<char>) -> bool {
    &&& s.len() >= 20
    &&& (s.len() + 1) % 21 == 0
    &&& forall|r: int| 0 <= r < overtime_count(s) ==> #[trigger] record_shape(s, r)
    &&& forall|r: int| 0 <= r < overtime_count(s) - 1 ==> s[#[trigger] (21 * r + 20)] == ','
}

pub open spec fn record_times_ok(s: Seq<char>, r: int) -> bool {
    time_ok_at(s, 21 * r) && time_ok_at(s, 21 * r + 5)
}

pub open spec fn record_date_ok(s: Seq<char>, r: int) -> bool {
    valid_date(num4(s, 21 * r + 10), num2(s, 21 * r + 15), num2(s, 21 * r + 18))
}

pub open spec fn date_at(s: Seq<char>, i: int) -> CalendarDate {
    CalendarDate { year: num4(s, i) as u16, month: num2(s, i + 5) as u8, day: num2(s, i + 8) as u8 }
}

pub open spec fn record_at(s: Seq<char>, r: int) -> OvertimeWindow {
    OvertimeWindow {
        start: time_at(s, 21 * r),
        end: time_at(s, 21 * r + 5),
        date: date_at(s, 21 * r + 10),
    }
}

/// What an overtime annotation means; the first failing check, over all
/// records, gives the error.
pub open spec fn parse_overtime(s: Seq<char>) -> Result<Seq<OvertimeWindow>, ParseError> {
    if !overtime_layout(s) {
        Err(ParseError::Layout)
    } else if !(forall|r: int| 0 <= r < overtime_count(s) ==> #[trigger] record_times_ok(s, r)) {
        Err(ParseError::Time)
    } else if !(forall|r: int| 0 <= r < overtime_count(s) ==> #[trigger] record_date_ok(s, r)) {
        Err(ParseError::Date)
    } else {
        Ok(Seq::new(overtime_count(s) as nat, |r: int| record_at(s, r)))
    }
}

// ---- executable -------------------------------------------------------------

fn digits_exec(cs: &Vec<char>, i: usize, n: usize) -> (r: bool)
    requires
        i + n <= cs.len(),
    ensures
        r == digits_at(cs@, i as int, n as int),
{
    let mut j: usize = i;
    while j < i + n
        invariant
            i <= j <= i + n,
            i + n <= cs.len(),
            forall|k: int| i <= k < j ==> is_digit(#[trigger] cs@[k]),
        decreases i + n - j,
    {
        if !is_digit_exec(cs[j]) {
            return false;
        }
        j = j + 1;
    }
    true
}

fn range_shape_exec(cs: &Vec<char>, i: usize) -> (r: bool)
    requires
        i + 9 <= cs.len(),
    ensures
        r == range_shape(cs@, i as int),
{
    digits_exec(cs, i, 4) && cs[i + 4] == '-' && digits_exec(cs, i + 5, 4)
}

/// Reads the time written at `raw[i..i + 4]`, whose characters are digits.
fn time_exec(raw: &str, i: usize) -> (r: Option<TimeOfDay>)
    requires
        digits_at(raw@, i as int, 4),
        i + 4 <= usize::MAX,
    ensures
        r == (if time_ok_at(raw@, i as int) {
            Some(time_at(raw@, i as int))
        } else {
            None::<TimeOfDay>
        }),
        r matches Some(t) ==> t.wf(),
{
    let t = raw.substring_char(i, i + 4);
    assert(digits_at(t@, 0, 4)) by {
        assert forall|j: int| 0 <= j < 4 implies is_digit(#[trigger] t@[j]) by {
            assert(t@[j] == raw@[i + j]);
        }
    }
    assert(num2(t@, 0) == num2(raw@, i as int));
    assert(num2(t@, 2) == num2(raw@, i + 2));
    match chrono_hhmm(t) {
        Some((h, m)) => Some(TimeOfDay { hour: h as u8, minute: m as u8 }),
        None => None,
    }
}

/// Parses a work-hours annotation `HHMM-HHMM|d,d,...`.
pub fn parse_work_schedule(raw: &str) -> (r: Result<WorkSchedule, ParseError>)
    ensures
        result_view(r) == parse_work(raw@),
        r matches Ok(w) ==> w@.wf(),
{
    let cs = chars_of(raw);
    let n = cs.len();
    if n < 11 || (n - 11) % 2 != 0 {
        return Err(ParseError::Layout);
    }
    if !(range_shape_exec(&cs, 0) && cs[9] == '|') {
        return Err(ParseError::Layout);
    }
    let mut j: usize = 10;
    while j < n
        invariant
            cs@ == raw@,
            n == cs@.len(),
            10 <= j <= n,
            forall|jj: int|
                10 <= jj < j ==> (if (jj - 10) % 2 == 0 {
                    is_digit(#[trigger] cs@[jj])
                } else {
                    cs@[jj] == ','
                }),
        decreases n - j,
    {
        if (j - 10) % 2 == 0 {
            if !is_digit_exec(cs[j]) {
                return Err(ParseError::Layout);
            }
        } else if cs[j] != ',' {
            return Err(ParseError::Layout);
        }
        j = j + 1;
    }
    assert(work_layout(raw@));
    let start = match time_exec(raw, 0) {
        Some(t) => t,
        None => {
            return Err(ParseError::Time);
        },
    };
    let end = match time_exec(raw, 5) {
        Some(t) => t,
        None => {
            return Err(ParseError::Time);
        },
    };
    let count: usize = (n - 9) / 2;
    let mut weekdays: Vec<u8> = Vec::new();
    let mut k: usize = 0;
    while k < count
        invariant
            cs@ == raw@,
            n == cs@.len(),
            work_layout(raw@),
            time_ok_at(raw@, 0),
            time_ok_at(raw@, 5),
            start == time_at(raw@, 0),
            end == time_at(raw@, 5),
            count == work_day_count(raw@),
            k <= count,
            weekdays@.len() == k,
            forall|kk: int| 0 <= kk < k ==> #[trigger] work_day_at(raw@, kk) <= 6,
            forall|kk: int| 0 <= kk < k ==> weekdays@[kk] as int == work_day_at(raw@, kk),
        decreases count - k,
    {
        let c = cs[10 + 2 * k];
        assert(is_digit(c)) by {
            assert((10 + 2 * k - 10) % 2 == 0);
        }
        let d = digit_value_exec(c);
        if d > 6 {
            assert(!work_days_ok(raw@)) by {
                assert(work_day_at(raw@, k as int) > 6);
            }
            return Err(ParseError::Weekday);
        }
        weekdays.push(d);
        k = k + 1;
    }
    let w = WorkSchedule { start, end, weekdays };
    assert(w.weekdays@ =~= work_of_text(raw@).weekdays);
    Ok(w)
}

/// Renders a work schedule as its annotation text.
pub fn render_work_schedule(w: &WorkSchedule) -> (r: String)
    requires
        w@.wf(),
    ensures
        r@ == work_text(w@),
{
    let mut r = String::new();
    push_time(&mut r, w.start);
    push_char(&mut r, '-');
    push_time(&mut r, w.end);
    push_char(&mut r, '|');
    let ghost head = r@;
    let mut k: usize = 0;
    while k < w.weekdays.len()
        invariant
            w@.wf(),
            k <= w.weekdays@.len(),
            r@ == head + (if k == 0 {
                Seq::<char>::empty()
            } else {
                days_text(w.weekdays@.subrange(0, k as int))
            }),
        decreases w.weekdays@.len() - k,
    {
        let ghost before = r@;
        if k > 0 {
            push_char(&mut r, ',');
        }
        let d = w.weekdays[k];
        assert(is_weekday(w.weekdays@[k as int] as int));
        push_char(&mut r, digit_char_exec(d));
        k = k + 1;
        assert(days_text(w.weekdays@.subrange(0, k as int)) =~= (if k == 1 {
            Seq::<char>::empty()
        } else {
            days_text(w.weekdays@.subrange(0, k - 1)) + seq![',']
        }).push(digit_char(d as int)));
        assert(r@ =~= head + days_text(w.weekdays@.subrange(0, k as int)));
    }
    assert(w.weekdays@.subrange(0, k as int) =~= w.weekdays@);
    assert(r@ =~= work_text(w@));
    r
}

fn push_time(r: &mut String, t: TimeOfDay)
    requires
        t.wf(),
    ensures
        final(r)@ == old(r)@ + time_text(t),
{
    push_char(r, digit_char_exec(t.hour / 10));
    push_char(r, digit_char_exec(t.hour % 10));
    push_char(r, digit_char_exec(t.minute / 10));
    push_char(r, digit_char_exec(t.minute % 10));
    assert(final(r)@ =~= old(r)@ + time_text(t));
}


fn date_shape_exec(cs: &Vec<char>, i: usize) -> (r: bool)
    requires
        i + 10 <= cs.len(),
    ensures
        r == date_shape(cs@, i as int),
{
    digits_exec(cs, i, 4) && cs[i + 4] == '-' && digits_exec(cs, i + 5, 2) && cs[i + 7] == '-'
        && digits_exec(cs, i + 8, 2)
}

/// Reads the date written at `raw[i..i + 10]`, which has the shape `DDDD-DD-DD`.
fn date_exec(raw: &str, i: usize) -> (r: Option<CalendarDate>)
    requires
        date_shape(raw@, i as int),
        i + 10 <= usize::MAX,
    ensures
        r == (if valid_date(num4(raw@, i as int), num2(raw@, i + 5), num2(raw@, i + 8)) {
            Some(date_at(raw@, i as int))
        } else {
            None::<CalendarDate>
        }),
        r matches Some(d) ==> d.wf(),
{
    let t = raw.substring_char(i, i + 10);
    assert(date_shape(t@, 0)) by {
        assert forall|j: int| 0 <= j < 10 implies t@[j] == raw@[i + j] by {}
        assert forall|j: int| 0 <= j < 4 implies is_digit(#[trigger] t@[j]) by {
            assert(t@[j] == raw@[i + j]);
        }
        assert forall|j: int| 5 <= j < 7 implies is_digit(#[trigger] t@[j]) by {
            assert(t@[j] == raw@[i + j]);
        }
        assert forall|j: int| 8 <= j < 10 implies is_digit(#[trigger] t@[j]) by {
            assert(t@[j] == raw@[i + j]);
        }
    }
    assert(num4(t@, 0) == num4(raw@, i as int));
    assert(num2(t@, 5) == num2(raw@, i + 5));
    assert(num2(t@, 8) == num2(raw@, i + 8));
    match chrono_ymd(t) {
        Some((y, m, d)) => Some(CalendarDate { year: y as u16, month: m as u8, day: d as u8 }),
        None => None,
    }
}

pub open spec fn overtime_result_view(r: Result<Vec<OvertimeWindow>, ParseError>) -> Result<
    Seq<OvertimeWindow>,
    ParseError,
> {
    match r {
        Ok(v) => Ok(v@),
        Err(e) => Err(e),
    }
}

/// Parses an overtime annotation `HHMM-HHMM|YYYY-MM-DD,...`.
pub fn parse_overtime_windows(raw: &str) -> (r: Result<Vec<OvertimeWindow>, ParseError>)
    ensures
        overtime_result_view(r) == parse_overtime(raw@),
        r matches Ok(v) ==> v@.len() >= 1 && forall|k: int|
            0 <= k < v@.len() ==> (#[trigger] v@[k]).start.wf() && v@[k].end.wf()
                && v@[k].date.wf(),
{
    let cs = chars_of(raw);
    let n = cs.len();
    if n < 20 || n % 21 != 20 {
        return Err(ParseError::Layout);
    }
    let count: usize = n / 21 + 1;
    assert(count == overtime_count(raw@));
    let mut r: usize = 0;
    while r < count
        invariant
            cs@ == raw@,
            n == cs@.len(),
            n >= 20,
            (n + 1) % 21 == 0,
            count == overtime_count(raw@),
            r <= count,
            forall|rr: int| 0 <= rr < r ==> #[trigger] record_shape(raw@, rr),
            forall|rr: int| 0 <= rr < r && rr < count - 1 ==> raw@[#[trigger] (21 * rr + 20)] == ',',
        decreases count - r,
    {
        let b: usize = 21 * r;
        if !(range_shape_exec(&cs, b) && cs[b + 9] == '|' && date_shape_exec(&cs, b + 10)) {
            assert(!record_shape(raw@, r as int));
            return Err(ParseError::Layout);
        }
        if r + 1 < count && cs[b + 20] != ',' {
            assert(raw@[21 * (r as int) + 20] != ',');
            return Err(ParseError::Layout);
        }
        r = r + 1;
    }
    assert(overtime_layout(raw@));
    let mut times: Vec<(TimeOfDay, TimeOfDay)> = Vec::new();
    r = 0;
    while r < count
        invariant
            cs@ == raw@,
            n == cs@.len(),
            (n + 1) % 21 == 0,
            overtime_layout(raw@),
            count == overtime_count(raw@),
            r <= count,
            times@.len() == r,
            forall|rr: int| 0 <= rr < r ==> #[trigger] record_times_ok(raw@, rr),
            forall|rr: int|
                0 <= rr < r ==> (#[trigger] times@[rr]).0 == time_at(raw@, 21 * rr) && times@[rr].1
                    == time_at(raw@, 21 * rr + 5),
            forall|rr: int| 0 <= rr < r ==> (#[trigger] times@[rr]).0.wf() && times@[rr].1.wf(),
        decreases count - r,
    {
        let b: usize = 21 * r;
        assert(record_shape(raw@, r as int));
        let start = match time_exec(raw, b) {
            Some(t) => t,
            None => {
                assert(!record_times_ok(raw@, r as int));
                return Err(ParseError::Time);
            },
        };
        let end = match time_exec(raw, b + 5) {
            Some(t) => t,
            None => {
                assert(!record_times_ok(raw@, r as int));
                return Err(ParseError::Time);
            },
        };
        times.push((start, end));
        r = r + 1;
    }
    let mut windows: Vec<OvertimeWindow> = Vec::new();
    r = 0;
    while r < count
        invariant
            cs@ == raw@,
            n == cs@.len(),
            (n + 1) % 21 == 0,
            overtime_layout(raw@),
            count == overtime_count(raw@),
            forall|rr: int| 0 <= rr < count ==> #[trigger] record_times_ok(raw@, rr),
            forall|rr: int|
                0 <= rr < count ==> (#[trigger] times@[rr]).0 == time_at(raw@, 21 * rr)
                    && times@[rr].1 == time_at(raw@, 21 * rr + 5),
            forall|rr: int| 0 <= rr < count ==> (#[trigger] times@[rr]).0.wf() && times@[rr].1.wf(),
            times@.len() == count,
            r <= count,
            windows@.len() == r,
            forall|rr: int| 0 <= rr < r ==> #[trigger] record_date_ok(raw@, rr),
            forall|rr: int| 0 <= rr < r ==> #[trigger] windows@[rr] == record_at(raw@, rr),
            forall|rr: int|
                0 <= rr < r ==> (#[trigger] windows@[rr]).start.wf() && windows@[rr].end.wf()
                    && windows@[rr].date.wf(),
        decreases count - r,
    {
        let b: usize = 21 * r;
        assert(record_shape(raw@, r as int));
        let date = match date_exec(raw, b + 10) {
            Some(d) => d,
            None => {
                assert(!record_date_ok(raw@, r as int));
                return Err(ParseError::Date);
            },
        };
        let (start, end) = times[r];
        windows.push(OvertimeWindow { start, end, date });
        r = r + 1;
    }
    assert(windows@ =~= Seq::new(count as nat, |rr: int| record_at(raw@, rr)));
    Ok(windows)
}

// ---- round trip -------------------------------------------------------------

proof fn lemma_two_digits(v: int)
    requires
        0 <= v <= 99,
    ensures
        digits_at(two_digits(v), 0, 2),
        num2(two_digits(v), 0) == v,
{
    crate::text::lemma_digit_char(v / 10);
    crate::text::lemma_digit_char(v % 10);
}

proof fn lemma_num2(s: Seq<char>, i: int)
    requires
        digits_at(s, i, 2),
    ensures
        0 <= num2(s, i) <= 99,
        two_digits(num2(s, i)) =~= s.subrange(i, i + 2),
{
    crate::text::lemma_digit_value(s[i]);
    crate::text::lemma_digit_value(s[i + 1]);
    let a = digit_value(s[i]);
    let b = digit_value(s[i + 1]);
    assert((10 * a + b) / 10 == a && (10 * a + b) % 10 == b);
}

proof fn lemma_time_text(t: TimeOfDay)
    requires
        t.wf(),
    ensures
        time_text(t).len() == 4,
        digits_at(time_text(t), 0, 4),
        time_ok_at(time_text(t), 0),
        time_at(time_text(t), 0) == t,
{
    lemma_two_digits(t.hour as int);
    lemma_two_digits(t.minute as int);
    let x = time_text(t);
    assert(x[0] == two_digits(t.hour as int)[0] && x[1] == two_digits(t.hour as int)[1]);
    assert(x[2] == two_digits(t.minute as int)[0] && x[3] == two_digits(t.minute as int)[1]);
}

proof fn lemma_time_of_text(s: Seq<char>, i: int)
    requires
        digits_at(s, i, 4),
        time_ok_at(s, i),
    ensures
        time_at(s, i).wf(),
        time_text(time_at(s, i)) =~= s.subrange(i, i + 4),
{
    lemma_num2(s, i);
    lemma_num2(s, i + 2);
}

/// Parsing a well-formed work-hours annotation and rendering the schedule gives
/// back the annotation, character for character.
pub proof fn lemma_work_parse_render(s: Seq<char>)
    requires
        parse_work(s) is Ok,
    ensures
        parse_work(s)->Ok_0.wf(),
        work_text(parse_work(s)->Ok_0) == s,
{
    let w = work_of_text(s);
    lemma_time_of_text(s, 0);
    lemma_time_of_text(s, 5);
    assert forall|k: int| 0 <= k < w.weekdays.len() implies is_weekday(
        #[trigger] w.weekdays[k] as int,
    ) by {
        assert(work_day_at(s, k) <= 6);
        assert((10 + 2 * k - 10) % 2 == 0);
        assert(is_digit(s[10 + 2 * k]));
        crate::text::lemma_digit_value(s[10 + 2 * k]);
    }
    let d = days_text(w.weekdays);
    assert(d =~= s.subrange(10, s.len() as int)) by {
        assert forall|i: int| 0 <= i < d.len() implies d[i] == s[10 + i] by {
            if i % 2 == 0 {
                assert(10 + 2 * (i / 2) == 10 + i);
                crate::text::lemma_digit_value(s[10 + i]);
            }
        }
    }
    assert(s =~= s.subrange(0, 4) + seq!['-'] + s.subrange(5, 9) + seq!['|'] + s.subrange(10, s.len() as int));
}

/// Rendering a well-formed work schedule and parsing the text gives back the
/// same start, end and weekdays.
pub proof fn lemma_work_render_parse(w: WorkScheduleView)
    requires
        w.wf(),
    ensures
        parse_work(work_text(w)) == Ok::<WorkScheduleView, ParseError>(w),
{
    let s = work_text(w);
    let d = days_text(w.weekdays);
    lemma_time_text(w.start);
    lemma_time_text(w.end);
    let ts = time_text(w.start);
    let te = time_text(w.end);
    assert forall|j: int| 0 <= j < 4 implies s[j] == ts[j] && s[5 + j] == te[j] by {}
    assert forall|j: int| 0 <= j < d.len() implies s[10 + j] == d[j] by {}
    assert forall|k: int| 0 <= k < w.weekdays.len() implies d[2 * k] == digit_char(w.weekdays[k] as int) by {
        assert((2 * k) % 2 == 0 && (2 * k) / 2 == k);
    }
    assert forall|j: int| 0 <= j < d.len() && j % 2 == 0 implies is_digit(d[j]) by {
        assert(is_weekday(w.weekdays[j / 2] as int));
        crate::text::lemma_digit_char(w.weekdays[j / 2] as int);
    }
    assert(range_shape(s, 0)) by {
        assert forall|j: int| 0 <= j < 4 implies is_digit(#[trigger] s[j]) by {}
        assert forall|j: int| 5 <= j < 9 implies is_digit(#[trigger] s[j]) by {
            assert(s[j] == te[j - 5]);
        }
    }
    assert forall|j: int| 10 <= j < s.len() implies (if (j - 10) % 2 == 0 {
        is_digit(#[trigger] s[j])
    } else {
        s[j] == ','
    }) by {
        assert(s[j] == d[j - 10]);
    }
    assert(time_at(s, 0) == time_at(ts, 0));
    assert(time_at(s, 5) == time_at(te, 0));
    assert forall|k: int| 0 <= k < work_day_count(s) implies #[trigger] work_day_at(s, k) == w.weekdays[k] as int by {
        assert(s[10 + 2 * k] == d[2 * k]);
        assert(is_weekday(w.weekdays[k] as int));
        crate::text::lemma_digit_char(w.weekdays[k] as int);
    }
    assert(work_of_text(s).weekdays =~= w.weekdays);
}

} // verus!
