use vstd::prelude::*;
use vstd::string::{StrSliceExecFns, StringExecFns};
use crate::fields::is_hours_numeral;
use crate::issue::{
    column_name, columns_spec, header_spec, issues_view, parse_work_date, row_issue, valid_issue,
    work_date_seconds, Column, Columns, Issue, IssueView,
};
use crate::lookup::{find_first, strings_view};

verus! {

/// Why a table could not be read.
#[derive(PartialEq, Eq, Structural, Clone, Copy, Debug)]
pub enum ReadError {
    /// The text is not a well-formed CSV table.
    Table,
    /// The header row lacks a column.
    MissingColumn(Column),
    /// A data row (counted from zero, after the header) lacks a field or holds
    /// one that does not parse.
    MalformedInput { row: usize, column: Column },
}

/// Why records could not be written as a table.
#[derive(PartialEq, Eq, Structural, Clone, Copy, Debug)]
pub enum WriteError {
    Encoding,
}

pub open spec fn table_view(v: Seq<Vec<String>>) -> Seq<Seq<Seq<char>>> {
    v.map_values(|r: Vec<String>| strings_view(r@))
}

/// The records of a CSV text, header included, each a list of fields.
pub uninterp spec fn csv_records_of(data: Seq<char>) -> Option<Seq<Seq<Seq<char>>>>;

/// The CSV text of a list of records.
pub uninterp spec fn csv_text_of(rows: Seq<Seq<Seq<char>>>) -> Option<Seq<char>>;

/// Relies on the csv crate's `Reader` (no header handling): the records of
/// `data` as lists of fields, or `None` where the text is no valid table.
#[verifier::external_body]
fn csv_records(data: &str) -> (r: Option<Vec<Vec<String>>>)
    ensures
        r is Some <==> csv_records_of(data@) is Some,
        r is Some ==> table_view(r->0@) == csv_records_of(data@)->0,
{
    let mut reader = csv::ReaderBuilder::new().has_headers(false).from_reader(data.as_bytes());
    let records: Result<Vec<csv::StringRecord>, csv::Error> = reader.records().collect();
    match records {
        Ok(rs) => Some(rs.iter().map(|r| r.iter().map(String::from).collect()).collect()),
        Err(_) => None,
    }
}

/// Relies on the csv crate's `Writer`: the records written as CSV text, or
/// `None` where the writer reports an error.
#[verifier::external_body]
fn csv_text(rows: &Vec<Vec<String>>) -> (r: Option<String>)
    ensures
        r is Some <==> csv_text_of(table_view(rows@)) is Some,
        r is Some ==> r->0@ == csv_text_of(table_view(rows@))->0,
{
    let mut writer = csv::Writer::from_writer(Vec::new());
    for row in rows {
        if writer.write_record(row).is_err() {
            return None;
        }
    }
    match writer.into_inner() {
        Ok(bytes) => String::from_utf8(bytes).ok(),
        Err(_) => None,
    }
}

/// The fields of a record, in the order of the header row.
pub open spec fn issue_row(i: IssueView) -> Seq<Seq<char>> {
    seq![i.key, i.summary, i.hours, i.work_date, i.project_key, i.work_description]
}

/// The table that holds `issues`: the header row, then one row per record.
pub open spec fn issue_table(issues: Seq<IssueView>) -> Seq<Seq<Seq<char>>> {
    seq![header_spec()] + issues.map_values(|i: IssueView| issue_row(i))
}

/// `r` is what reading the records `rows` (header first) gives.
pub open spec fn read_result(rows: Seq<Seq<Seq<char>>>, r: Result<Seq<IssueView>, ReadError>) -> bool {
    if rows.len() == 0 {
        r == Ok::<Seq<IssueView>, ReadError>(Seq::empty())
    } else {
        match columns_spec(rows[0]) {
            Err(c) => r == Err::<Seq<IssueView>, ReadError>(ReadError::MissingColumn(c)),
            Ok(cols) => match r {
                Ok(v) => v.len() == rows.len() - 1 && forall|i: int|
                    0 <= i < v.len() ==> row_issue(cols, #[trigger] rows[i + 1]) == Ok::<
                        IssueView,
                        Column,
                    >(v[i]),
                Err(ReadError::MalformedInput { row, column }) => row + 1 < rows.len()
                    && row_issue(cols, rows[row + 1]) == Err::<IssueView, Column>(column)
                    && forall|j: int| 0 <= j < row ==> (#[trigger] row_issue(cols, rows[j + 1])) is Ok,
                Err(_) => false,
            },
        }
    }
}

fn column_string(c: Column) -> (r: String)
    ensures
        r@ == column_name(c),
{
    match c {
        Column::Key => String::from_str("Issue Key"),
        Column::Summary => String::from_str("Issue summary"),
        Column::Hours => String::from_str("Hours"),
        Column::WorkDate => String::from_str("Work date"),
        Column::ProjectKey => String::from_str("Project Key"),
        Column::WorkDescription => String::from_str("Work Description"),
    }
}

fn find_column(header: &Vec<String>, c: Column) -> (r: Option<usize>)
    ensures
        match r {
            Some(i) => crate::issue::column_at(strings_view(header@), c) == Some(i as int),
            None => crate::issue::column_at(strings_view(header@), c) is None,
        },
{
    let name = column_string(c);
    find_first(header, &name)
}

/// Locates the columns of a table from its header row.
pub fn find_columns(header: &Vec<String>) -> (r: Result<Columns, Column>)
    ensures
        r == columns_spec(strings_view(header@)),
{
    let key = match find_column(header, Column::Key) {
        Some(i) => i,
        None => return Err(Column::Key),
    };
    let summary = match find_column(header, Column::Summary) {
        Some(i) => i,
        None => return Err(Column::Summary),
    };
    let hours = match find_column(header, Column::Hours) {
        Some(i) => i,
        None => return Err(Column::Hours),
    };
    let work_date = match find_column(header, Column::WorkDate) {
        Some(i) => i,
        None => return Err(Column::WorkDate),
    };
    let project_key = match find_column(header, Column::ProjectKey) {
        Some(i) => i,
        None => return Err(Column::ProjectKey),
    };
    let work_description = match find_column(header, Column::WorkDescription) {
        Some(i) => i,
        None => return Err(Column::WorkDescription),
    };
    Ok(Columns { key, summary, hours, work_date, project_key, work_description })
}

/// Reads one data row into a record.
pub fn issue_from_row(cols: &Columns, row: &Vec<String>) -> (r: Result<Issue, Column>)
    ensures
        match r {
            Ok(i) => row_issue(*cols, strings_view(row@)) == Ok::<IssueView, Column>(i@),
            Err(c) => row_issue(*cols, strings_view(row@)) == Err::<IssueView, Column>(c),
        },
{
    let n = row.len();
    if cols.key >= n {
        return Err(Column::Key);
    }
    if cols.summary >= n {
        return Err(Column::Summary);
    }
    if cols.hours >= n || !is_hours_numeral(row[cols.hours].as_str()) {
        return Err(Column::Hours);
    }
    if cols.work_date >= n || parse_work_date(row[cols.work_date].as_str()).is_none() {
        return Err(Column::WorkDate);
    }
    if cols.project_key >= n {
        return Err(Column::ProjectKey);
    }
    if cols.work_description >= n {
        return Err(Column::WorkDescription);
    }
    let issue = Issue {
        key: row[cols.key].clone(),
        summary: row[cols.summary].clone(),
        hours: row[cols.hours].clone(),
        work_date: row[cols.work_date].clone(),
        project_key: row[cols.project_key].clone(),
        work_description: row[cols.work_description].clone(),
    };
    proof {
        assert(issue@ == row_issue(*cols, strings_view(row@))->Ok_0);
    }
    Ok(issue)
}

/// The fields of a record, in the order of the header row.
pub fn issue_to_row(issue: &Issue) -> (r: Vec<String>)
    ensures
        strings_view(r@) == issue_row(issue@),
{
    let mut row: Vec<String> = Vec::new();
    row.push(issue.key.clone());
    row.push(issue.summary.clone());
    row.push(issue.hours.clone());
    row.push(issue.work_date.clone());
    row.push(issue.project_key.clone());
    row.push(issue.work_description.clone());
    assert(strings_view(row@) =~= issue_row(issue@));
    row
}

/// The header row of a timesheet table.
pub fn header_row() -> (r: Vec<String>)
    ensures
        strings_view(r@) == header_spec(),
{
    let mut row: Vec<String> = Vec::new();
    row.push(column_string(Column::Key));
    row.push(column_string(Column::Summary));
    row.push(column_string(Column::Hours));
    row.push(column_string(Column::WorkDate));
    row.push(column_string(Column::ProjectKey));
    row.push(column_string(Column::WorkDescription));
    assert(strings_view(row@) =~= header_spec());
    row
}

/// Reads the records of a timesheet table given as CSV text with a header
/// row. Either every row is read, or nothing is.
pub fn read_issues(data: &str) -> (r: Result<Vec<Issue>, ReadError>)
    ensures
        match csv_records_of(data@) {
            None => r == Err::<Vec<Issue>, ReadError>(ReadError::Table),
            Some(rows) => read_result(
                rows,
                match r {
                    Ok(v) => Ok(issues_view(v@)),
                    Err(e) => Err(e),
                },
            ),
        },
        r is Ok ==> forall|i: int| 0 <= i < r->Ok_0@.len() ==> (#[trigger] r->Ok_0@[i]).wf(),
{
    let rows = match csv_records(data) {
        Some(rows) => rows,
        None => return Err(ReadError::Table),
    };
    let ghost t = table_view(rows@);
    if rows.len() == 0 {
        let empty: Vec<Issue> = Vec::new();
        assert(issues_view(empty@) =~= Seq::empty());
        return Ok(empty);
    }
    let cols = match find_columns(&rows[0]) {
        Ok(c) => c,
        Err(c) => return Err(ReadError::MissingColumn(c)),
    };
    let mut out: Vec<Issue> = Vec::new();
    let mut i: usize = 1;
    while i < rows.len()
        invariant
            1 <= i <= rows@.len(),
            t == table_view(rows@),
            csv_records_of(data@) == Some(t),
            columns_spec(t[0]) == Ok::<Columns, Column>(cols),
            out@.len() == i - 1,
            forall|j: int| 0 <= j < out@.len() ==> (#[trigger] out@[j]).wf(),
            forall|j: int|
                0 <= j < i - 1 ==> row_issue(cols, #[trigger] t[j + 1]) == Ok::<IssueView, Column>(
                    out@[j]@,
                ),
        decreases rows.len() - i,
    {
        match issue_from_row(&cols, &rows[i]) {
            Ok(issue) => {
                assert(t[i as int] == strings_view(rows@[i as int]@));
                out.push(issue);
            },
            Err(c) => {
                assert(t[i as int] == strings_view(rows@[i as int]@));
                assert forall|j: int| 0 <= j < i - 1 implies (#[trigger] row_issue(cols, t[j + 1])) is Ok by {
                    assert(row_issue(cols, t[j + 1]) == Ok::<IssueView, Column>(out@[j]@));
                }
                return Err(ReadError::MalformedInput { row: i - 1, column: c });
            },
        }
        i = i + 1;
    }
    proof {
        let v = issues_view(out@);
        assert forall|j: int| 0 <= j < v.len() implies row_issue(cols, #[trigger] t[j + 1]) == Ok::<IssueView, Column>(v[j]) by {
            assert(row_issue(cols, t[j + 1]) == Ok::<IssueView, Column>(out@[j]@));
        }
    }
    Ok(out)
}

/// Writes records as CSV text in the table format that `read_issues` reads.
pub fn write_issues(issues: &Vec<Issue>) -> (r: Result<String, WriteError>)
    ensures
        match csv_text_of(issue_table(issues_view(issues@))) {
            Some(text) => r is Ok && r->Ok_0@ == text,
            None => r == Err::<String, WriteError>(WriteError::Encoding),
        },
{
    let mut rows: Vec<Vec<String>> = Vec::new();
    rows.push(header_row());
    let mut i: usize = 0;
    while i < issues.len()
        invariant
            i <= issues@.len(),
            table_view(rows@) =~= issue_table(issues_view(issues@.subrange(0, i as int))),
        decreases issues.len() - i,
    {
        let row = issue_to_row(&issues[i]);
        let ghost before = rows@;
        rows.push(row);
        proof {
            let prev = issues_view(issues@.subrange(0, i as int));
            let next = issues_view(issues@.subrange(0, i + 1));
            assert(next =~= prev.push(issues@[i as int]@));
            assert(next.map_values(|x: IssueView| issue_row(x)) =~= prev.map_values(|x: IssueView| issue_row(x)).push(issue_row(issues@[i as int]@)));
            assert(table_view(rows@) =~= table_view(before).push(strings_view(row@)));
            assert(issue_table(next) =~= issue_table(prev).push(issue_row(issues@[i as int]@)));
        }
        i = i + 1;
    }
    assert(issues@.subrange(0, i as int) =~= issues@);
    match csv_text(&rows) {
        Some(text) => Ok(text),
        None => Err(WriteError::Encoding),
    }
}

/// Where the records left for a later run go: beside the input file, or to
/// the standard error stream when the input came from standard input (`-`).
pub fn unprocessed_target(file: &str) -> (r: String)
    ensures
        r@ == (if file@ == "-"@ {
            "STDERR"@
        } else {
            file@ + "-unprocessed-issues"@
        }),
{
    proof {
        reveal_strlit("-");
    }
    if file.unicode_len() == 1 && file.get_char(0) == '-' {
        assert(file@ =~= "-"@);
        String::from_str("STDERR")
    } else {
        let mut out = String::from_str(file);
        out.append("-unprocessed-issues");
        out
    }
}

/// Writing records as a table and reading the rows back gives the same
/// records, field by field.
pub proof fn lemma_table_round_trip(issues: Seq<IssueView>)
    requires
        forall|i: int| 0 <= i < issues.len() ==> valid_issue(#[trigger] issues[i]),
    ensures
        read_result(issue_table(issues), Ok(issues)),
{
    let t = issue_table(issues);
    let cols = Columns {
        key: 0,
        summary: 1,
        hours: 2,
        work_date: 3,
        project_key: 4,
        work_description: 5,
    };
    lemma_header_columns();
    assert(t[0] == header_spec());
    assert forall|i: int| 0 <= i < issues.len() implies row_issue(cols, #[trigger] t[i + 1]) == Ok::<IssueView, Column>(issues[i]) by {
        assert(t[i + 1] == issue_row(issues[i]));
        assert(valid_issue(issues[i]));
    }
}

proof fn lemma_header_columns()
    ensures
        columns_spec(header_spec()) == Ok::<Columns, Column>(
            Columns {
                key: 0,
                summary: 1,
                hours: 2,
                work_date: 3,
                project_key: 4,
                work_description: 5,
            },
        ),
{
    reveal_strlit("Issue Key");
    reveal_strlit("Issue summary");
    reveal_strlit("Hours");
    reveal_strlit("Work date");
    reveal_strlit("Project Key");
    reveal_strlit("Work Description");
    let h = header_spec();
    assert(h[0] != h[1] && h[0] != h[2] && h[0] != h[3] && h[0] != h[4] && h[0] != h[5]) by {
        assert(h[0][1] != h[1][1] || h[0].len() != h[1].len());
        assert(h[0].len() != h[2].len());
        assert(h[0].len() != h[3].len() || h[0][0] != h[3][0]);
        assert(h[0][0] != h[4][0]);
        assert(h[0][0] != h[5][0]);
    }
    assert(h[1] != h[2] && h[1] != h[3] && h[1] != h[4] && h[1] != h[5]) by {
        assert(h[1][0] != h[2][0]);
        assert(h[1][0] != h[3][0]);
        assert(h[1][0] != h[4][0]);
        assert(h[1][0] != h[5][0]);
    }
    assert(h[2] != h[3] && h[2] != h[4] && h[2] != h[5]) by {
        assert(h[2][0] != h[3][0]);
        assert(h[2][0] != h[4][0]);
        assert(h[2][0] != h[5][0]);
    }
    assert(h[3] != h[4] && h[3] != h[5]) by {
        assert(h[3][0] != h[4][0]);
        assert(h[3].len() != h[5].len());
    }
    assert(h[4] != h[5]) by {
        assert(h[4][0] != h[5][0]);
    }
    crate::lookup::lemma_first_match_found(h, column_name(Column::Key), 0);
    crate::lookup::lemma_first_match_found(h, column_name(Column::Summary), 1);
    crate::lookup::lemma_first_match_found(h, column_name(Column::Hours), 2);
    crate::lookup::lemma_first_match_found(h, column_name(Column::WorkDate), 3);
    crate::lookup::lemma_first_match_found(h, column_name(Column::ProjectKey), 4);
    crate::lookup::lemma_first_match_found(h, column_name(Column::WorkDescription), 5);
}

} // verus!
