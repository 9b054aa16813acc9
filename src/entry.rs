use vstd::prelude::*;

verus! {

/// Hours added to every start time. The table's dates carry no time zone,
/// while the remote service reads instants as UTC; this fixed shift makes up
/// the difference for the zone the timesheets are kept in.
pub const TIMEZONE_OFFSET_HOURS: i64 = 4;

pub const NANOS_PER_SECOND: i128 = 1_000_000_000;

pub const NANOS_PER_HOUR: i128 = 3_600_000_000_000;

/// Why a time entry could not be built.
#[derive(PartialEq, Eq, Structural, Clone, Copy, Debug)]
pub enum EntryError {
    /// The duration is too long to be a span: more than `i64::MAX`
    /// nanoseconds, about 292 years.
    InvalidDuration,
    /// The record's hours or work date does not parse.
    MalformedRecord,
}

/// A time entry to submit: an interval in nanoseconds since the Unix epoch,
/// UTC, booked on a project.
pub struct TimeEntry {
    pub start: i128,
    pub end: i128,
    pub project_id: String,
    pub description: String,
}

pub struct TimeEntryView {
    pub start: int,
    pub end: int,
    pub project_id: Seq<char>,
    pub description: Seq<char>,
}

impl View for TimeEntry {
    type V = TimeEntryView;

    open spec fn view(&self) -> TimeEntryView {
        TimeEntryView {
            start: self.start as int,
            end: self.end as int,
            project_id: self.project_id@,
            description: self.description@,
        }
    }
}

/// The start of an entry whose work began `start_seconds` after the epoch.
pub open spec fn entry_start(start_seconds: int) -> int {
    start_seconds * NANOS_PER_SECOND + TIMEZONE_OFFSET_HOURS * NANOS_PER_HOUR
}

/// The entry for work that began `start_seconds` after the epoch and lasted
/// `duration` nanoseconds, or `None` where the duration is too long to be a
/// span.
pub open spec fn entry_spec(
    project_id: Seq<char>,
    start_seconds: int,
    duration: int,
    description: Seq<char>,
) -> Option<TimeEntryView> {
    if duration <= i64::MAX {
        Some(
            TimeEntryView {
                start: entry_start(start_seconds),
                end: entry_start(start_seconds) + duration,
                project_id,
                description,
            },
        )
    } else {
        None
    }
}

impl TimeEntry {
    /// Builds the entry for work that began `start` seconds after the epoch
    /// (the table's date read as UTC) and lasted `duration` nanoseconds. The
    /// start is shifted by `TIMEZONE_OFFSET_HOURS`.
    pub fn new(project_id: String, start: i64, duration: u64, description: String) -> (r: Result<
        TimeEntry,
        EntryError,
    >)
        ensures
            match entry_spec(project_id@, start as int, duration as int, description@) {
                Some(e) => r is Ok && r->Ok_0@ == e && r->Ok_0.project_id == project_id
                    && r->Ok_0.description == description,
                None => r == Err::<TimeEntry, EntryError>(EntryError::InvalidDuration),
            },
    {
        if duration > i64::MAX as u64 {
            return Err(EntryError::InvalidDuration);
        }
        assert(TIMEZONE_OFFSET_HOURS as i128 * NANOS_PER_HOUR == 14_400_000_000_000)
            by (nonlinear_arith)
            requires
                TIMEZONE_OFFSET_HOURS == 4,
                NANOS_PER_HOUR == 3_600_000_000_000,
        ;
        assert(-0x8000_0000_0000_0000 * 1_000_000_000 <= start as i128 * NANOS_PER_SECOND
            <= 0x7fff_ffff_ffff_ffff * 1_000_000_000) by (nonlinear_arith)
            requires
                i64::MIN <= start <= i64::MAX,
                NANOS_PER_SECOND == 1_000_000_000,
        ;
        let offset: i128 = TIMEZONE_OFFSET_HOURS as i128 * NANOS_PER_HOUR;
        let scaled: i128 = start as i128 * NANOS_PER_SECOND;
        let s: i128 = scaled + offset;
        let e: i128 = s + duration as i128;
        Ok(TimeEntry { start: s, end: e, project_id, description })
    }
}

} // verus!
