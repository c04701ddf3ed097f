//! The sheet: an append-only log of events, and the rules that decide whether
//! a new event may be appended to it.

use vstd::prelude::*;
use vstd::string::StrSliceExecFns;

use crate::options::{JobType, Options};
use crate::time::{duration_nanos, iso_week_of, parse_duration_nanos, Timestamp};

verus! {

/// Names a project, by its unique name or by its internal id.
#[derive(Debug)]
pub enum JobIdentifier {
    UName(String),
    InternalId(usize),
}

/// One entry of the sheet.  A pause carries its length in nanoseconds.
#[derive(Debug)]
pub enum Event {
    BEGIN(Timestamp),
    END(Timestamp),
    PAUSE(u64),
    SWITCH(Timestamp, JobIdentifier),
}

/// The log of one timesheet, oldest event first.
pub type Sheet = Vec<Event>;

/// Why an event was not appended.
#[derive(Clone, Copy, Debug, PartialEq, Eq, Structural)]
pub enum EventError {
    /// The duration text could not be read.
    UnparsableDuration,
    /// The duration moves the event outside the clock's range.
    DurationOutOfRange,
    /// A begin while the sheet is begun.
    AlreadyBegun,
    /// An end while the sheet is ended.
    AlreadyEnded,
    /// A pause while the sheet is ended.
    PauseWhileEnded,
    /// No registered project answers to the identifier.
    UnknownProject,
}

/// Two events are equal when they are of the same kind.
pub open spec fn same_kind(a: Event, b: Event) -> bool {
    ||| a is BEGIN && b is BEGIN
    ||| a is END && b is END
    ||| a is PAUSE && b is PAUSE
    ||| a is SWITCH && b is SWITCH
}

impl PartialEq for Event {
    fn eq(&self, other: &Event) -> (r: bool)
        ensures
            r == same_kind(*self, *other),
    {
        match (self, other) {
            (Event::BEGIN(_), Event::BEGIN(_)) => true,
            (Event::END(_), Event::END(_)) => true,
            (Event::PAUSE(_), Event::PAUSE(_)) => true,
            (Event::SWITCH(_, _), Event::SWITCH(_, _)) => true,
            _ => false,
        }
    }
}

impl vstd::std_specs::cmp::PartialEqSpecImpl for Event {
    open spec fn obeys_eq_spec() -> bool {
        false
    }

    open spec fn eq_spec(&self, other: &Event) -> bool {
        same_kind(*self, *other)
    }
}

impl Event {
    pub open spec fn kind_name_spec(self) -> Seq<char> {
        match self {
            Event::BEGIN(_) => "BEGIN"@,
            Event::END(_) => "END"@,
            Event::PAUSE(_) => "PAUSE"@,
            Event::SWITCH(_, _) => "SWITCH"@,
        }
    }

    /// The event's kind, as it is shown to the user.
    pub fn kind_name(&self) -> (r: &'static str)
        ensures
            r@ == self.kind_name_spec(),
    {
        match self {
            Event::BEGIN(_) => "BEGIN",
            Event::END(_) => "END",
            Event::PAUSE(_) => "PAUSE",
            Event::SWITCH(_, _) => "SWITCH",
        }
    }
}

/// `text` read as a decimal number the way `usize::from_str` reads it: an
/// optional `+`, then one or more ASCII digits and nothing else, with a value
/// that fits.
pub open spec fn parsed_usize(text: Seq<char>) -> Option<usize> {
    let digits = if text.len() > 0 && text[0] == '+' {
        text.drop_first()
    } else {
        text
    };
    if all_digits(digits) && decimal_value(digits) <= usize::MAX {
        Some(decimal_value(digits) as usize)
    } else {
        None
    }
}

pub open spec fn all_digits(s: Seq<char>) -> bool {
    s.len() > 0 && forall|i: int| 0 <= i < s.len() ==> '0' <= #[trigger] s[i] <= '9'
}

pub open spec fn decimal_value(s: Seq<char>) -> int
    decreases s.len(),
{
    if s.len() == 0 {
        0
    } else {
        decimal_value(s.drop_last()) * 10 + (s.last() as int - '0' as int)
    }
}

/// Relies on `str::parse::<usize>` (`usize::from_str`), documented to accept
/// an optional `+` followed by decimal digits only, and to fail on anything
/// else or on a value that does not fit.
#[verifier::external_body]
fn parse_usize(text: &str) -> (r: Option<usize>)
    ensures
        r == parsed_usize(text@),
{
    text.parse::<usize>().ok()
}

/// Whether `job` answers to `ident`.
pub open spec fn identifies(ident: JobIdentifier, job: JobType) -> bool {
    match ident {
        JobIdentifier::UName(name) => name@ == job.u_name@,
        JobIdentifier::InternalId(id) => id == job.internal_id,
    }
}

/// The first registered project that answers to `ident`.
pub open spec fn resolve(ident: JobIdentifier, projects: Seq<JobType>) -> Option<JobType>
    decreases projects.len(),
{
    if projects.len() == 0 {
        None
    } else if identifies(ident, projects[0]) {
        Some(projects[0])
    } else {
        resolve(ident, projects.drop_first())
    }
}

impl JobIdentifier {
    /// Reads a project reference typed by the user: a number is an internal
    /// id, anything else a unique name.
    pub fn parse(text: String) -> (r: JobIdentifier)
        ensures
            match parsed_usize(text@) {
                Some(n) => r == JobIdentifier::InternalId(n),
                None => r == JobIdentifier::UName(text),
            },
    {
        match parse_usize(text.as_str()) {
            Some(id) => JobIdentifier::InternalId(id),
            None => JobIdentifier::UName(text),
        }
    }

    /// The first registered project that answers to this identifier.
    pub fn get_jobtype(&self, config: &Options) -> (r: Option<JobType>)
        ensures
            r == resolve(*self, config.projects@),
    {
        let projects = &config.projects;
        let mut i: usize = 0;
        assert(projects@.subrange(0, projects.len() as int) =~= projects@);
        while i < projects.len()
            invariant
                projects@ == config.projects@,
                0 <= i <= projects.len(),
                resolve(*self, projects@) == resolve(*self, projects@.subrange(i as int, projects.len() as int)),
            decreases projects.len() - i,
        {
            assert(projects@.subrange(i as int, projects.len() as int).drop_first() =~= projects@.subrange(
                i + 1,
                projects.len() as int,
            ));
            let hit = match self {
                JobIdentifier::UName(name) => *name == projects[i].u_name,
                JobIdentifier::InternalId(id) => *id == projects[i].internal_id,
            };
            assert(projects@.subrange(i as int, projects.len() as int)[0] == projects@[i as int]);
            assert(hit == identifies(*self, projects@[i as int]));
            if hit {
                return Some(projects[i].clone());
            }
            i = i + 1;
        }
        None
    }
}

/// Scanning back from the end of the sheet, the most recent begin or end
/// strictly before `time` tells whether the sheet is begun (`Some(true)`) or
/// ended (`Some(false)`) at `time`; with neither, the state is undetermined.
pub open spec fn sheet_state(events: Seq<Event>, time: i64) -> Option<bool>
    decreases events.len(),
{
    if events.len() == 0 {
        None
    } else {
        let e = events.last();
        if e is BEGIN && e->BEGIN_0.nanos < time {
            Some(true)
        } else if e is END && e->END_0.nanos < time {
            Some(false)
        } else {
            sheet_state(events.drop_last(), time)
        }
    }
}

/// The sheet after appending a begin at `at`, or the reason it is refused.
pub open spec fn begin_outcome(events: Seq<Event>, at: Timestamp) -> Result<Seq<Event>, EventError> {
    if sheet_state(events, at.nanos) == Some(true) {
        Err(EventError::AlreadyBegun)
    } else {
        Ok(events.push(Event::BEGIN(at)))
    }
}

/// The sheet after appending an end at `at`, or the reason it is refused.
pub open spec fn end_outcome(events: Seq<Event>, at: Timestamp) -> Result<Seq<Event>, EventError> {
    if sheet_state(events, at.nanos) == Some(false) {
        Err(EventError::AlreadyEnded)
    } else {
        Ok(events.push(Event::END(at)))
    }
}

/// The sheet after appending a pause of `length` at `now`, or the reason it
/// is refused.
pub open spec fn pause_outcome(events: Seq<Event>, now: i64, length: u64) -> Result<Seq<Event>, EventError> {
    if sheet_state(events, now) == Some(false) {
        Err(EventError::PauseWhileEnded)
    } else {
        Ok(events.push(Event::PAUSE(length)))
    }
}

/// The sheet after appending a switch to `ident` at `at`, or the reason it is
/// refused.
pub open spec fn switch_outcome(
    events: Seq<Event>,
    projects: Seq<JobType>,
    at: Timestamp,
    ident: JobIdentifier,
) -> Result<Seq<Event>, EventError> {
    if resolve(ident, projects) is None {
        Err(EventError::UnknownProject)
    } else {
        Ok(events.push(Event::SWITCH(at, ident)))
    }
}

/// `after` and `r` are what an append with the given outcome leaves: the new
/// sheet and `Ok`, or the old sheet and the error.
pub open spec fn applied(
    outcome: Result<Seq<Event>, EventError>,
    before: Seq<Event>,
    after: Seq<Event>,
    r: Result<(), EventError>,
) -> bool {
    match outcome {
        Ok(events) => r is Ok && after == events,
        Err(e) => r == Err::<(), EventError>(e) && after == before,
    }
}

/// The timestamp `offset` nanoseconds before (`later` false) or after
/// (`later` true) `now`, where the clock can hold it.
pub open spec fn shifted(now: i64, offset: int, later: bool) -> Option<Timestamp> {
    let t = if later { now + offset } else { now - offset };
    if i64::MIN <= t <= i64::MAX {
        Some(Timestamp { nanos: t as i64, week: iso_week_of(t as i64) })
    } else {
        None
    }
}

/// The signed offset, in nanoseconds, that an optional duration text gives:
/// none is zero, and a leading `-` turns the duration after it around.
pub open spec fn offset_of(duration: Option<String>) -> Option<int> {
    match duration {
        None => Some(0),
        Some(text) => if text@.len() > 0 && text@[0] == '-' {
            match duration_nanos(text@.drop_first()) {
                Some(n) => Some(-(n as int)),
                None => None,
            }
        } else {
            match duration_nanos(text@) {
                Some(n) => Some(n as int),
                None => None,
            }
        },
    }
}

/// The state of the sheet at `time`; see [`sheet_state`].
pub fn check_begun(sheet: &Sheet, time: i64) -> (r: Option<bool>)
    ensures
        r == sheet_state(sheet@, time),
{
    let mut i: usize = sheet.len();
    assert(sheet@.take(i as int) =~= sheet@);
    while i > 0
        invariant
            i <= sheet.len(),
            sheet_state(sheet@, time) == sheet_state(sheet@.take(i as int), time),
        decreases i,
    {
        assert(sheet@.take(i as int).drop_last() =~= sheet@.take(i - 1));
        match &sheet[i - 1] {
            Event::BEGIN(t) => {
                if t.nanos < time {
                    return Some(true);
                }
            },
            Event::END(t) => {
                if t.nanos < time {
                    return Some(false);
                }
            },
            _ => {},
        }
        i = i - 1;
    }
    None
}

/// Appends a begin at `at`, unless the sheet is begun at that moment.
pub fn record_begin(sheet: &mut Sheet, at: Timestamp) -> (r: Result<(), EventError>)
    ensures
        applied(begin_outcome(old(sheet)@, at), old(sheet)@, final(sheet)@, r),
        r is Err ==> final(sheet)@ == old(sheet)@,
{
    if let Some(true) = check_begun(sheet, at.nanos) {
        return Err(EventError::AlreadyBegun);
    }
    sheet.push(Event::BEGIN(at));
    Ok(())
}

/// Appends an end at `at`, unless the sheet is ended at that moment.
pub fn record_end(sheet: &mut Sheet, at: Timestamp) -> (r: Result<(), EventError>)
    ensures
        applied(end_outcome(old(sheet)@, at), old(sheet)@, final(sheet)@, r),
        r is Err ==> final(sheet)@ == old(sheet)@,
{
    if let Some(false) = check_begun(sheet, at.nanos) {
        return Err(EventError::AlreadyEnded);
    }
    sheet.push(Event::END(at));
    Ok(())
}

/// Appends a pause of `length` nanoseconds, unless the sheet is ended at `now`.
pub fn record_pause(sheet: &mut Sheet, now: i64, length: u64) -> (r: Result<(), EventError>)
    ensures
        applied(pause_outcome(old(sheet)@, now, length), old(sheet)@, final(sheet)@, r),
        r is Err ==> final(sheet)@ == old(sheet)@,
{
    if let Some(false) = check_begun(sheet, now) {
        return Err(EventError::PauseWhileEnded);
    }
    sheet.push(Event::PAUSE(length));
    Ok(())
}

/// Appends a switch to `ident` at `at`, unless no registered project answers
/// to it.
pub fn record_switch(sheet: &mut Sheet, config: &Options, at: Timestamp, ident: JobIdentifier) -> (r: Result<
    (),
    EventError,
>)
    ensures
        applied(switch_outcome(old(sheet)@, config.projects@, at, ident), old(sheet)@, final(sheet)@, r),
        r is Err ==> final(sheet)@ == old(sheet)@,
{
    if ident.get_jobtype(config).is_none() {
        return Err(EventError::UnknownProject);
    }
    sheet.push(Event::SWITCH(at, ident));
    Ok(())
}

/// The offset written in `duration`, in nanoseconds; none is zero.
fn read_offset(duration: &Option<String>) -> (r: Result<(bool, u128), EventError>)
    ensures
        match offset_of(*duration) {
            Some(n) => r matches Ok((negative, size)) && n == if negative { -(size as int) } else { size as int },
            None => r == Err::<(bool, u128), EventError>(EventError::UnparsableDuration),
        },
{
    match duration {
        None => Ok((false, 0)),
        Some(text) => {
            let text = text.as_str();
            let len = text.unicode_len();
            let negative = len > 0 && text.get_char(0) == '-';
            let size = if negative {
                let rest = text.substring_char(1, len);
                assert(rest@ =~= text@.drop_first());
                parse_duration_nanos(rest)
            } else {
                parse_duration_nanos(text)
            };
            match size {
                Some(n) => Ok((negative, n)),
                None => Err(EventError::UnparsableDuration),
            }
        },
    }
}

/// `now` moved by an offset of `size` nanoseconds, negated where `negative`:
/// back, or (`later`) forward.
fn shift(now: i64, negative: bool, size: u128, later: bool) -> (r: Option<Timestamp>)
    ensures
        r == shifted(now, if negative { -(size as int) } else { size as int }, later),
{
    if size > u64::MAX as u128 {
        return None;
    }
    let t: i128 = if later != negative {
        now as i128 + size as i128
    } else {
        now as i128 - size as i128
    };
    if t < i64::MIN as i128 || t > i64::MAX as i128 {
        return None;
    }
    Some(Timestamp::at(t as i64))
}

/// Starts work at `now`, or `duration` earlier ("15m": the work began a
/// quarter of an hour ago; "-15m": it begins in a quarter of an hour).  Refused, with the sheet unchanged, when the
/// duration cannot be read or leaves the clock's range, or when the sheet is
/// already begun at that moment.
pub fn begin(sheet: &mut Sheet, now: i64, duration: &Option<String>) -> (r: Result<(), EventError>)
    ensures
        match offset_of(*duration) {
            None => r == Err::<(), EventError>(EventError::UnparsableDuration),
            Some(offset) => match shifted(now, offset, false) {
                None => r == Err::<(), EventError>(EventError::DurationOutOfRange),
                Some(at) => applied(begin_outcome(old(sheet)@, at), old(sheet)@, final(sheet)@, r),
            },
        },
        r is Err ==> final(sheet)@ == old(sheet)@,
{
    let (negative, size) = match read_offset(duration) {
        Ok(offset) => offset,
        Err(e) => return Err(e),
    };
    match shift(now, negative, size, false) {
        Some(at) => record_begin(sheet, at),
        None => Err(EventError::DurationOutOfRange),
    }
}

/// Stops work at `now`, or `duration` later ("10m": the work will go on for
/// ten more minutes; "-10m": it stopped ten minutes ago).  Refused, with the sheet unchanged, when the duration
/// cannot be read or leaves the clock's range, or when the sheet is already
/// ended at that moment.
pub fn end(sheet: &mut Sheet, now: i64, duration: &Option<String>) -> (r: Result<(), EventError>)
    ensures
        match offset_of(*duration) {
            None => r == Err::<(), EventError>(EventError::UnparsableDuration),
            Some(offset) => match shifted(now, offset, true) {
                None => r == Err::<(), EventError>(EventError::DurationOutOfRange),
                Some(at) => applied(end_outcome(old(sheet)@, at), old(sheet)@, final(sheet)@, r),
            },
        },
        r is Err ==> final(sheet)@ == old(sheet)@,
{
    let (negative, size) = match read_offset(duration) {
        Ok(offset) => offset,
        Err(e) => return Err(e),
    };
    match shift(now, negative, size, true) {
        Some(at) => record_end(sheet, at),
        None => Err(EventError::DurationOutOfRange),
    }
}

/// Records a break of the length written in `pause_time` ("30m").  Refused,
/// with the sheet unchanged, when the text cannot be read or the length does
/// not fit in 64 bits of nanoseconds, or when the sheet is ended at `now`.
pub fn pause(sheet: &mut Sheet, now: i64, pause_time: &str) -> (r: Result<(), EventError>)
    ensures
        match duration_nanos(pause_time@) {
            None => r == Err::<(), EventError>(EventError::UnparsableDuration),
            Some(n) => if n > u64::MAX {
                r == Err::<(), EventError>(EventError::DurationOutOfRange)
            } else {
                applied(pause_outcome(old(sheet)@, now, n as u64), old(sheet)@, final(sheet)@, r)
            },
        },
        r is Err ==> final(sheet)@ == old(sheet)@,
{
    match parse_duration_nanos(pause_time) {
        None => Err(EventError::UnparsableDuration),
        Some(n) => {
            if n > u64::MAX as u128 {
                Err(EventError::DurationOutOfRange)
            } else {
                record_pause(sheet, now, n as u64)
            }
        },
    }
}

/// Switches to the project that `into` names (a number is an internal id,
/// anything else a unique name) at `now`.  Refused, with the sheet unchanged,
/// when no registered project answers to it.
pub fn switch(sheet: &mut Sheet, config: &Options, now: i64, into: String) -> (r: Result<(), EventError>)
    ensures
        ({
            let ident = match parsed_usize(into@) {
                Some(n) => JobIdentifier::InternalId(n),
                None => JobIdentifier::UName(into),
            };
            let at = Timestamp { nanos: now, week: iso_week_of(now) };
            applied(switch_outcome(old(sheet)@, config.projects@, at, ident), old(sheet)@, final(sheet)@, r)
        }),
        r is Err ==> final(sheet)@ == old(sheet)@,
{
    let ident = JobIdentifier::parse(into);
    let at = Timestamp::at(now);
    record_switch(sheet, config, at, ident)
}

/// The sheet without its last event, and that event; an empty sheet stays
/// empty.
pub open spec fn removed_last(events: Seq<Event>) -> (Seq<Event>, Option<Event>) {
    if events.len() == 0 {
        (events, None)
    } else {
        (events.drop_last(), Some(events.last()))
    }
}

/// Takes back the most recent event, and returns it.
pub fn nevermind(sheet: &mut Sheet) -> (r: Option<Event>)
    ensures
        (final(sheet)@, r) == removed_last(old(sheet)@),
{
    sheet.pop()
}

/// A refused begin, end, pause or switch leaves the sheet exactly as it was,
/// whatever was refused and why.
pub proof fn lemma_refusal_keeps_sheet(
    outcome: Result<Seq<Event>, EventError>,
    before: Seq<Event>,
    after: Seq<Event>,
    r: Result<(), EventError>,
)
    requires
        applied(outcome, before, after, r),
        r is Err,
    ensures
        after == before,
        outcome is Err,
{
}

/// A begin is refused on a sheet whose last begin or end before its time is
/// a begin, however many pauses and switches follow that begin, and the
/// sheet keeps its length.
pub proof fn lemma_second_begin_refused(
    events: Seq<Event>,
    first: Timestamp,
    later: Seq<Event>,
    at: Timestamp,
)
    requires
        first.nanos < at.nanos,
        forall|i: int| 0 <= i < later.len() ==> (#[trigger] later[i]) is PAUSE || later[i] is SWITCH,
    ensures
        begin_outcome(events.push(Event::BEGIN(first)) + later, at) == Err::<Seq<Event>, EventError>(
            EventError::AlreadyBegun,
        ),
    decreases later.len(),
{
    let all = events.push(Event::BEGIN(first)) + later;
    if later.len() == 0 {
        assert(all =~= events.push(Event::BEGIN(first)));
    } else {
        let rest = later.drop_last();
        assert(forall|i: int| 0 <= i < rest.len() ==> rest[i] == later[i]);
        lemma_second_begin_refused(events, first, rest, at);
        assert(all.drop_last() =~= events.push(Event::BEGIN(first)) + rest);
        assert(all.last() == later[later.len() - 1]);
    }
}

/// Undoing after appending events to a sheet removes exactly the last of
/// them and leaves everything before it as it was; undoing on an empty sheet
/// changes nothing and returns nothing.
pub proof fn lemma_undo_removes_last_append(base: Seq<Event>, appended: Seq<Event>)
    requires
        appended.len() >= 1,
    ensures
        removed_last(base + appended) == (base + appended.drop_last(), Some(appended.last())),
        removed_last(Seq::<Event>::empty()) == (Seq::<Event>::empty(), None::<Event>),
{
    assert((base + appended).drop_last() =~= base + appended.drop_last());
}

} // verus!
