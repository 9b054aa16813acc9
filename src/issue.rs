use vstd::prelude::*;
use vstd::string::StringExecFns;
use crate::fields::{hours_numeral, parse_work_date_fields, work_date_fields};
use crate::lookup::{find_first, first_match, strings_view};

verus! {

/// One row of a timesheet: a work log entry against an issue.
///
/// `hours` and `work_date` keep the text of the table, so that a row written
/// back out reads as it came in; `valid_issue` states that both parse.
#[derive(Clone, Debug)]
pub struct Issue {
    pub key: String,
    pub summary: String,
    pub hours: String,
    pub work_date: String,
    pub project_key: String,
    pub work_description: String,
}

pub struct IssueView {
    pub key: Seq<char>,
    pub summary: Seq<char>,
    pub hours: Seq<char>,
    pub work_date: Seq<char>,
    pub project_key: Seq<char>,
    pub work_description: Seq<char>,
}

impl View for Issue {
    type V = IssueView;

    open spec fn view(&self) -> IssueView {
        IssueView {
            key: self.key@,
            summary: self.summary@,
            hours: self.hours@,
            work_date: self.work_date@,
            project_key: self.project_key@,
            work_description: self.work_description@,
        }
    }
}

pub open spec fn issues_view(v: Seq<Issue>) -> Seq<IssueView> {
    v.map_values(|i: Issue| i@)
}

/// Seconds since the Unix epoch of a date and time read as UTC, where the
/// calendar has that date.
pub uninterp spec fn utc_timestamp_of(year: int, month: int, day: int, hour: int, minute: int) -> Option<int>;

/// Relies on chrono's `NaiveDate::from_ymd_opt`, `NaiveDate::and_hms_opt`
/// and `DateTime::timestamp`: the UTC instant of a calendar date and time, or
/// `None` where no such date or time exists.
#[verifier::external_body]
fn utc_timestamp(year: u64, month: u64, day: u64, hour: u64, minute: u64) -> (r: Option<i64>)
    requires
        year < 10000 && month < 100 && day < 100 && hour < 100 && minute < 100,
    ensures
        r is Some <==> utc_timestamp_of(year as int, month as int, day as int, hour as int, minute as int) is Some,
        r is Some ==> r->0 == utc_timestamp_of(year as int, month as int, day as int, hour as int, minute as int)->0,
{
    let date = match chrono::NaiveDate::from_ymd_opt(year as i32, month as u32, day as u32) {
        Some(d) => d,
        None => return None,
    };
    match date.and_hms_opt(hour as u32, minute as u32, 0) {
        Some(t) => Some(t.and_utc().timestamp()),
        None => None,
    }
}

/// The instant, in seconds since the epoch, that a work-date text names.
pub open spec fn work_date_seconds(s: Seq<char>) -> Option<int> {
    match work_date_fields(s) {
        Some(f) => utc_timestamp_of(f.0 as int, f.1 as int, f.2 as int, f.3 as int, f.4 as int),
        None => None,
    }
}

/// Reads a `YYYY-MM-DD HH:MM` work date as seconds since the epoch, UTC.
pub fn parse_work_date(s: &str) -> (r: Option<i64>)
    ensures
        r is Some <==> work_date_seconds(s@) is Some,
        r is Some ==> r->0 == work_date_seconds(s@)->0,
{
    match parse_work_date_fields(s) {
        Some(f) => {
            proof {
                crate::fields::lemma_work_date_field_bounds(s@);
            }
            utc_timestamp(f.0, f.1, f.2, f.3, f.4)
        },
        None => None,
    }
}

/// Both the hours and the work date of the record parse.
pub open spec fn valid_issue(i: IssueView) -> bool {
    hours_numeral(i.hours) && work_date_seconds(i.work_date) is Some
}

impl Issue {
    pub open spec fn wf(&self) -> bool {
        valid_issue(self@)
    }

    /// A field-by-field copy.
    pub fn duplicate(&self) -> (r: Issue)
        ensures
            r@ == self@,
    {
        Issue {
            key: self.key.clone(),
            summary: self.summary.clone(),
            hours: self.hours.clone(),
            work_date: self.work_date.clone(),
            project_key: self.project_key.clone(),
            work_description: self.work_description.clone(),
        }
    }
}

/// The columns of a timesheet table.
#[derive(PartialEq, Eq, Structural, Clone, Copy, Debug)]
pub enum Column {
    Key,
    Summary,
    Hours,
    WorkDate,
    ProjectKey,
    WorkDescription,
}

pub open spec fn column_name(c: Column) -> Seq<char> {
    match c {
        Column::Key => "Issue Key"@,
        Column::Summary => "Issue summary"@,
        Column::Hours => "Hours"@,
        Column::WorkDate => "Work date"@,
        Column::ProjectKey => "Project Key"@,
        Column::WorkDescription => "Work Description"@,
    }
}

/// The header row of a timesheet table.
pub open spec fn header_spec() -> Seq<Seq<char>> {
    seq![
        column_name(Column::Key),
        column_name(Column::Summary),
        column_name(Column::Hours),
        column_name(Column::WorkDate),
        column_name(Column::ProjectKey),
        column_name(Column::WorkDescription),
    ]
}

/// Where each column stands in the rows of a table.
#[derive(PartialEq, Eq, Structural, Clone, Copy, Debug)]
pub struct Columns {
    pub key: usize,
    pub summary: usize,
    pub hours: usize,
    pub work_date: usize,
    pub project_key: usize,
    pub work_description: usize,
}

pub open spec fn column_at(header: Seq<Seq<char>>, c: Column) -> Option<int> {
    first_match(header, column_name(c))
}

/// The positions of the columns in `header`, or the first column, in table
/// order, that it lacks.
pub open spec fn columns_spec(header: Seq<Seq<char>>) -> Result<Columns, Column> {
    if column_at(header, Column::Key) is None {
        Err(Column::Key)
    } else if column_at(header, Column::Summary) is None {
        Err(Column::Summary)
    } else if column_at(header, Column::Hours) is None {
        Err(Column::Hours)
    } else if column_at(header, Column::WorkDate) is None {
        Err(Column::WorkDate)
    } else if column_at(header, Column::ProjectKey) is None {
        Err(Column::ProjectKey)
    } else if column_at(header, Column::WorkDescription) is None {
        Err(Column::WorkDescription)
    } else {
        Ok(
            Columns {
                key: column_at(header, Column::Key)->0 as usize,
                summary: column_at(header, Column::Summary)->0 as usize,
                hours: column_at(header, Column::Hours)->0 as usize,
                work_date: column_at(header, Column::WorkDate)->0 as usize,
                project_key: column_at(header, Column::ProjectKey)->0 as usize,
                work_description: column_at(header, Column::WorkDescription)->0 as usize,
            },
        )
    }
}

/// The record that a data row holds, or the first column, in table order,
/// that is missing from it or does not parse.
pub open spec fn row_issue(cols: Columns, row: Seq<Seq<char>>) -> Result<IssueView, Column> {
    let n = row.len();
    if cols.key >= n {
        Err(Column::Key)
    } else if cols.summary >= n {
        Err(Column::Summary)
    } else if cols.hours >= n || !hours_numeral(row[cols.hours as int]) {
        Err(Column::Hours)
    } else if cols.work_date >= n || work_date_seconds(row[cols.work_date as int]) is None {
        Err(Column::WorkDate)
    } else if cols.project_key >= n {
        Err(Column::ProjectKey)
    } else if cols.work_description >= n {
        Err(Column::WorkDescription)
    } else {
        Ok(
            IssueView {
                key: row[cols.key as int],
                summary: row[cols.summary as int],
                hours: row[cols.hours as int],
                work_date: row[cols.work_date as int],
                project_key: row[cols.project_key as int],
                work_description: row[cols.work_description as int],
            },
        )
    }
}

} // verus!
