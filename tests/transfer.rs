use clockify_transfer::cli::TransferArgs;
use clockify_transfer::conf::{Conf, ConfError, ConfSource};
use clockify_transfer::entry::{EntryError, TimeEntry};
use clockify_transfer::fields::{
    display_hours, hours_duration, is_hours_numeral, parse_digits, parse_work_date_fields,
};
use clockify_transfer::issue::{parse_work_date, Column, Issue};
use clockify_transfer::project::{find_project, Project, ProjectMap, ProjectTarget};
use clockify_transfer::table::{
    find_columns, header_row, issue_from_row, issue_to_row, read_issues, unprocessed_target,
    write_issues, ReadError,
};
use clockify_transfer::transfer::{
    continue_with_projects, progress_line, start_issue, submission_outcome, Outcome, Step,
    TransferLog,
};

fn issue(key: &str, project_key: &str, hours: &str, date: &str, desc: &str) -> Issue {
    Issue {
        key: key.to_string(),
        summary: "Fix bug".to_string(),
        hours: hours.to_string(),
        work_date: date.to_string(),
        project_key: project_key.to_string(),
        work_description: desc.to_string(),
    }
}

fn sample() -> Issue {
    issue("PROJ-1", "PROJ", "2.5", "2024-01-01 09:00", "fixed it")
}

fn id_map() -> ProjectMap {
    let mut map = ProjectMap::new();
    map.insert("PROJ".to_string(), ProjectTarget::Id("<id-123>".to_string()));
    map
}

fn same_issue(a: &Issue, b: &Issue) -> bool {
    a.key == b.key
        && a.summary == b.summary
        && a.hours == b.hours
        && a.work_date == b.work_date
        && a.project_key == b.project_key
        && a.work_description == b.work_description
}

const START_2024_01_01_1300: i128 = 1_704_114_000 * 1_000_000_000;

#[test]
fn mapped_row_is_submitted_and_succeeds() {
    let i = sample();
    let step = start_issue(&i, &id_map(), false).unwrap();
    let entry = match step {
        Step::Submit(e) => e,
        _ => panic!("expected a submission"),
    };
    assert_eq!(entry.start, START_2024_01_01_1300);
    assert_eq!(entry.end, START_2024_01_01_1300 + 9_000 * 1_000_000_000);
    assert_eq!(entry.project_id, "<id-123>");
    assert_eq!(entry.description, "PROJ-1: fixed it");
    let outcome = submission_outcome(true);
    assert_eq!(outcome, Outcome::Success);
    let mut log = TransferLog::new();
    log.record(&i, outcome);
    assert_eq!(log.lines.len(), 1);
    assert!(log.lines[0].ends_with("success."));
    assert!(!log.has_failures());
    assert!(log.unprocessed.is_empty());
}

#[test]
fn unmapped_row_is_skipped() {
    let i = issue("PROJ-1", "UNKNOWN", "2.5", "2024-01-01 09:00", "fixed it");
    for dry_run in [false, true] {
        let step = start_issue(&i, &id_map(), dry_run).unwrap();
        assert!(matches!(step, Step::Finished(Outcome::Unmapped)));
    }
    let mut log = TransferLog::new();
    log.record(&i, Outcome::Unmapped);
    assert!(log.lines[0].ends_with("Could not map project: UNKNOWN; skipped."));
    assert!(!log.has_failures());
}

#[test]
fn progress_line_layout() {
    let line = progress_line(&sample(), &Outcome::DryRun);
    assert_eq!(line, "PROJ-1\t // Fix bug\t fixed it\t 2.5h\t ... dry run.");
    let line = progress_line(&sample(), &Outcome::Failure);
    assert_eq!(line, "PROJ-1\t // Fix bug\t fixed it\t 2.5h\t ... error.");
    let line = progress_line(&sample(), &Outcome::NotFoundRemotely("Project A".to_string()));
    assert_eq!(line, "PROJ-1\t // Fix bug\t fixed it\t 2.5h\t ... Could not find Clockify project id for: Project A; skipped.");
}

#[test]
fn hours_read_as_numbers_in_progress_lines() {
    assert_eq!(display_hours("2.50"), "2.5");
    assert_eq!(display_hours("02.5"), "2.5");
    assert_eq!(display_hours(".5"), "0.5");
    assert_eq!(display_hours("3."), "3");
    assert_eq!(display_hours("3.000"), "3");
    assert_eq!(display_hours("000"), "0");
    assert_eq!(display_hours("10.05"), "10.05");
    let i = issue("PROJ-1", "PROJ", "2.50", "2024-01-01 09:00", "fixed it");
    let line = progress_line(&i, &Outcome::Success);
    assert_eq!(line, "PROJ-1\t // Fix bug\t fixed it\t 2.5h\t ... success.");
}

#[test]
fn dry_run_submits_nothing() {
    let i = sample();
    let step = start_issue(&i, &id_map(), true).unwrap();
    assert!(matches!(step, Step::Finished(Outcome::DryRun)));
    let mut log = TransferLog::new();
    log.record(&i, Outcome::DryRun);
    assert!(!log.has_failures());
    assert!(log.lines[0].ends_with("dry run."));
}

#[test]
fn one_progress_line_per_row() {
    let rows = vec![
        sample(),
        issue("PROJ-2", "UNKNOWN", "1", "2024-01-02 10:30", "b"),
        issue("PROJ-3", "PROJ", "0.25", "2024-01-03 11:00", "c"),
    ];
    let map = id_map();
    let mut log = TransferLog::new();
    for (n, i) in rows.iter().enumerate() {
        let outcome = match start_issue(i, &map, false).unwrap() {
            Step::Finished(o) => o,
            Step::Submit(_) => submission_outcome(n != 2),
            Step::ListProjects(_) => panic!("no names in this mapping"),
        };
        log.record(i, outcome);
    }
    assert_eq!(log.lines.len(), rows.len());
    assert_eq!(log.outcomes, vec![Outcome::Success, Outcome::Unmapped, Outcome::Failure]);
    assert_eq!(log.unprocessed.len(), 1);
    assert!(same_issue(&log.unprocessed[0], &rows[2]));
    assert!(log.has_failures());
    let retry = log.retry_records(&rows).unwrap();
    assert_eq!(retry.len(), 3);
    assert!(TransferLog::new().retry_records(&rows).is_none());
}

#[test]
fn name_mapping_goes_through_the_project_list() {
    let i = sample();
    let mut map = ProjectMap::new();
    map.insert("PROJ".to_string(), ProjectTarget::Name("Project A".to_string()));
    let name = match start_issue(&i, &map, false).unwrap() {
        Step::ListProjects(n) => n,
        _ => panic!("expected a project lookup"),
    };
    assert_eq!(name, "Project A");
    let projects = vec![
        Project { id: "p1".to_string(), name: "Other".to_string() },
        Project { id: "p2".to_string(), name: "Project A".to_string() },
        Project { id: "p3".to_string(), name: "Project A".to_string() },
    ];
    match continue_with_projects(&i, &name, &projects, false).unwrap() {
        Step::Submit(e) => assert_eq!(e.project_id, "p2"),
        _ => panic!("expected a submission"),
    }
    match continue_with_projects(&i, &name, &projects, true).unwrap() {
        Step::Finished(o) => assert_eq!(o, Outcome::DryRun),
        _ => panic!("expected a dry run"),
    }
    let lower = "project a".to_string();
    match continue_with_projects(&i, &lower, &projects, false).unwrap() {
        Step::Finished(o) => assert_eq!(o, Outcome::NotFoundRemotely("project a".to_string())),
        _ => panic!("expected a miss"),
    }
    assert!(find_project(&projects, &"Missing".to_string()).is_none());
}

#[test]
fn insert_replaces_earlier_target() {
    let mut map = id_map();
    map.insert("PROJ".to_string(), ProjectTarget::Id("<id-456>".to_string()));
    match map.get(&"PROJ".to_string()) {
        Some(ProjectTarget::Id(id)) => assert_eq!(id, "<id-456>"),
        _ => panic!("expected an id"),
    }
    assert!(map.get(&"OTHER".to_string()).is_none());
}

const NANOS_PER_HOUR: u64 = 3_600_000_000_000;

#[test]
fn time_entry_arithmetic() {
    let e = TimeEntry::new("p".to_string(), 0, 3 * NANOS_PER_HOUR / 2, "d".to_string()).unwrap();
    assert_eq!(e.start, 4 * 3_600 * 1_000_000_000);
    assert_eq!(e.end, e.start + 5_400 * 1_000_000_000);
    let e = TimeEntry::new("p".to_string(), 100, 0, "d".to_string()).unwrap();
    assert_eq!(e.end, e.start);
    // year 2264, past the range of an i64 count of nanoseconds
    let e = TimeEntry::new("p".to_string(), 9_300_000_000, 0, "d".to_string()).unwrap();
    assert_eq!(e.start, 9_300_000_000i128 * 1_000_000_000 + 14_400_000_000_000);
    let e = TimeEntry::new("p".to_string(), i64::MIN, i64::MAX as u64, "d".to_string()).unwrap();
    assert_eq!(e.end - e.start, i64::MAX as i128);
    let r = TimeEntry::new("p".to_string(), 0, i64::MAX as u64 + 1, "d".to_string());
    assert_eq!(r.err(), Some(EntryError::InvalidDuration));
}

#[test]
fn far_dates_are_accepted() {
    let i = issue("K-1", "PROJ", "1", "9999-12-31 23:59", "x");
    assert!(matches!(start_issue(&i, &id_map(), false).unwrap(), Step::Submit(_)));
    let i = issue("K-1", "PROJ", "1", "0001-01-01 00:00", "x");
    assert!(matches!(start_issue(&i, &id_map(), true).unwrap(), Step::Finished(Outcome::DryRun)));
}

#[test]
fn overflowing_duration_is_an_error() {
    let i = issue("K-1", "PROJ", "3000000", "2024-01-01 09:00", "x");
    assert_eq!(start_issue(&i, &id_map(), false).err(), Some(EntryError::InvalidDuration));
    let i = issue("K-1", "PROJ", "2562047", "2024-01-01 09:00", "x");
    assert!(start_issue(&i, &id_map(), false).is_ok());
}

#[test]
fn malformed_record_is_an_error() {
    let i = issue("K-1", "PROJ", "lots", "2024-01-01 09:00", "x");
    assert_eq!(start_issue(&i, &id_map(), false).err(), Some(EntryError::MalformedRecord));
    let i = issue("K-1", "PROJ", "1", "yesterday", "x");
    assert_eq!(start_issue(&i, &id_map(), true).err(), Some(EntryError::MalformedRecord));
    let i = issue("K-1", "UNKNOWN", "lots", "yesterday", "x");
    assert!(matches!(start_issue(&i, &id_map(), false).unwrap(), Step::Finished(Outcome::Unmapped)));
}

#[test]
fn hours_values() {
    for ok in ["2.5", "0", "12", "5.", ".5", "2.1234567", "00.250", "123456789012"] {
        assert!(is_hours_numeral(ok), "{}", ok);
    }
    for bad in ["", ".", "-1", "abc", "1.2.3", "1e3", " 1", "1,5"] {
        assert!(!is_hours_numeral(bad), "{}", bad);
    }
    assert_eq!(hours_duration("2.5"), Some(9_000_000_000_000));
    assert_eq!(hours_duration("0.25"), Some(900_000_000_000));
    assert_eq!(hours_duration(".5"), Some(1_800_000_000_000));
    assert_eq!(hours_duration("5."), Some(5 * NANOS_PER_HOUR));
    assert_eq!(hours_duration("0.00000000001"), Some(36));
    assert_eq!(hours_duration("0.000000000019"), Some(36));
    assert_eq!(hours_duration("2.1234567"), Some(7_644_444_120_000));
    assert_eq!(hours_duration("2562047"), Some(2_562_047 * NANOS_PER_HOUR));
    assert_eq!(hours_duration("2562047.9"), None);
    assert_eq!(hours_duration("2562048"), None);
    assert_eq!(hours_duration("123456789012"), None);
}

#[test]
fn digits_values() {
    assert_eq!(parse_digits("a2024b", 1, 5), Some(2024));
    assert_eq!(parse_digits("12x4", 0, 4), None);
    assert_eq!(parse_digits("", 0, 0), Some(0));
}

#[test]
fn work_date_values() {
    assert_eq!(parse_work_date_fields("2024-01-01 09:00"), Some((2024, 1, 1, 9, 0)));
    assert_eq!(parse_work_date_fields("2024-1-01 09:00"), None);
    assert_eq!(parse_work_date_fields("2024-01-01T09:00"), None);
    assert_eq!(parse_work_date("2024-01-01 09:00"), Some(1_704_099_600));
    assert_eq!(parse_work_date("1970-01-01 00:00"), Some(0));
    assert_eq!(parse_work_date("2024-02-30 10:00"), None);
    assert_eq!(parse_work_date("2024-01-01 24:00"), None);
    assert_eq!(parse_work_date("2024-13-01 10:00"), None);
}

const TABLE: &str = "Issue Key,Issue summary,Hours,Work date,Project Key,Work Description\n\
PROJ-1,Fix bug,2.5,2024-01-01 09:00,PROJ,fixed it\n\
PROJ-2,\"Summary, with comma\",1,2024-01-02 10:30,OTHER,\"said \"\"hi\"\"\"\n";

#[test]
fn reads_table() {
    let issues = read_issues(TABLE).unwrap();
    assert_eq!(issues.len(), 2);
    assert!(same_issue(&issues[0], &sample()));
    assert_eq!(issues[1].summary, "Summary, with comma");
    assert_eq!(issues[1].work_description, "said \"hi\"");
    assert_eq!(issues[1].hours, "1");
}

#[test]
fn reads_columns_in_any_order() {
    let data = "Work Description,Project Key,Work date,Hours,Issue summary,Issue Key,Extra\n\
fixed it,PROJ,2024-01-01 09:00,2.5,Fix bug,PROJ-1,x\n";
    let issues = read_issues(data).unwrap();
    assert_eq!(issues.len(), 1);
    assert!(same_issue(&issues[0], &sample()));
}

#[test]
fn empty_table_has_no_records() {
    assert_eq!(read_issues("").unwrap().len(), 0);
    let header_only = "Issue Key,Issue summary,Hours,Work date,Project Key,Work Description\n";
    assert_eq!(read_issues(header_only).unwrap().len(), 0);
}

#[test]
fn read_errors() {
    let missing = "Issue Key,Issue summary,Hours,Work date,Project Key\nA,B,1,2024-01-01 09:00,P\n";
    assert_eq!(read_issues(missing).err(), Some(ReadError::MissingColumn(Column::WorkDescription)));
    let bad_hours = "Issue Key,Issue summary,Hours,Work date,Project Key,Work Description\n\
A,B,1,2024-01-01 09:00,P,d\nA,B,lots,2024-01-01 09:00,P,d\n";
    assert_eq!(
        read_issues(bad_hours).err(),
        Some(ReadError::MalformedInput { row: 1, column: Column::Hours })
    );
    let bad_date = "Issue Key,Issue summary,Hours,Work date,Project Key,Work Description\n\
A,B,1,01/01/2024,P,d\n";
    assert_eq!(
        read_issues(bad_date).err(),
        Some(ReadError::MalformedInput { row: 0, column: Column::WorkDate })
    );
    let ragged = "Issue Key,Issue summary,Hours,Work date,Project Key,Work Description\nA,B\n";
    assert_eq!(read_issues(ragged).err(), Some(ReadError::Table));
}

#[test]
fn row_codec() {
    let header = header_row();
    let cols = find_columns(&header).unwrap();
    let row = issue_to_row(&sample());
    assert_eq!(row, vec!["PROJ-1", "Fix bug", "2.5", "2024-01-01 09:00", "PROJ", "fixed it"]);
    assert!(same_issue(&issue_from_row(&cols, &row).unwrap(), &sample()));
    let short = vec!["PROJ-1".to_string()];
    assert_eq!(issue_from_row(&cols, &short).err(), Some(Column::Summary));
    let no_key: Vec<String> = vec!["Hours".to_string()];
    assert_eq!(find_columns(&no_key).err(), Some(Column::Key));
}

#[test]
fn writes_table() {
    let text = write_issues(&vec![sample()]).unwrap();
    assert_eq!(
        text,
        "Issue Key,Issue summary,Hours,Work date,Project Key,Work Description\n\
PROJ-1,Fix bug,2.5,2024-01-01 09:00,PROJ,fixed it\n"
    );
}

#[test]
fn write_then_read_round_trip() {
    let records = vec![
        sample(),
        issue("PROJ-2", "OTHER", "0.75", "2023-12-31 23:59", "with, comma and \"quotes\""),
    ];
    let text = write_issues(&records).unwrap();
    let back = read_issues(&text).unwrap();
    assert_eq!(back.len(), records.len());
    for (a, b) in back.iter().zip(records.iter()) {
        assert!(same_issue(a, b));
    }
}

#[test]
fn rerun_reproduces_outcomes() {
    let records = vec![sample(), issue("PROJ-2", "UNKNOWN", "1", "2024-01-02 10:30", "b")];
    let map = id_map();
    let back = read_issues(&write_issues(&records).unwrap()).unwrap();
    for (a, b) in back.iter().zip(records.iter()) {
        let first = start_issue(b, &map, false).unwrap();
        let again = start_issue(a, &map, false).unwrap();
        match (first, again) {
            (Step::Finished(x), Step::Finished(y)) => assert_eq!(x, y),
            (Step::Submit(x), Step::Submit(y)) => {
                assert_eq!(x.start, y.start);
                assert_eq!(x.end, y.end);
                assert_eq!(x.project_id, y.project_id);
                assert_eq!(x.description, y.description);
            }
            _ => panic!("steps differ"),
        }
    }
}

#[test]
fn unprocessed_file_name() {
    assert_eq!(unprocessed_target("-"), "STDERR");
    assert_eq!(unprocessed_target("times.csv"), "times.csv-unprocessed-issues");
}

fn source() -> ConfSource {
    ConfSource {
        api_base_path: None,
        api_key: Some("key".to_string()),
        workspace_id: Some("ws".to_string()),
        project_map: Some(vec![
            ("PROJ".to_string(), "Project A".to_string()),
            ("PROJ".to_string(), "Project B".to_string()),
            ("OTHER".to_string(), "Project O".to_string()),
        ]),
        project_ids: Some(vec![("OTHER".to_string(), "<id-789>".to_string())]),
    }
}

#[test]
fn conf_defaults_and_mapping() {
    let conf = Conf::load(source()).unwrap();
    assert_eq!(conf.api_base_path, "https://api.clockify.me/api/v1/");
    assert_eq!(conf.api_key, "key");
    assert_eq!(conf.workspace_id, "ws");
    let map = conf.project_mapping();
    match map.get(&"PROJ".to_string()) {
        Some(ProjectTarget::Name(n)) => assert_eq!(n, "Project B"),
        _ => panic!("expected a name"),
    }
    match map.get(&"OTHER".to_string()) {
        Some(ProjectTarget::Id(id)) => assert_eq!(id, "<id-789>"),
        _ => panic!("expected an id"),
    }
    assert!(map.get(&"NONE".to_string()).is_none());
    let mut s = source();
    s.project_ids = None;
    assert!(Conf::load(s).unwrap().project_ids.is_empty());
    let mut s = source();
    s.api_base_path = Some("http://localhost/".to_string());
    assert_eq!(Conf::load(s).unwrap().api_base_path, "http://localhost/");
}

#[test]
fn conf_missing_values() {
    let mut s = source();
    s.api_key = None;
    assert_eq!(Conf::load(s).err(), Some(ConfError::MissingApiKey));
    let mut s = source();
    s.workspace_id = None;
    assert_eq!(Conf::load(s).err(), Some(ConfError::MissingWorkspaceId));
    let mut s = source();
    s.project_map = None;
    assert_eq!(Conf::load(s).err(), Some(ConfError::MissingProjectMap));
}

#[test]
fn transfer_args_hold_values() {
    let a = TransferArgs { file: "-".to_string(), dry_run: true, config_path: None };
    assert!(a.dry_run);
    assert_eq!(unprocessed_target(&a.file), "STDERR");
}
