use vstd::prelude::*;
use vstd::string::StringExecFns;
use crate::entry::{entry_spec, EntryError, TimeEntry, TimeEntryView};
use crate::fields::{display_hours, hours_display, hours_duration, hours_nanos, is_hours_numeral};
use crate::issue::{issues_view, parse_work_date, valid_issue, work_date_seconds, Issue, IssueView};
use crate::table::{issue_table, lemma_table_round_trip, read_result};
use crate::project::{find_project, project_id_named, Project, ProjectMap, ProjectTarget, TargetView};

verus! {

/// How the transfer of one record ended.
#[derive(PartialEq, Eq, Clone, Debug)]
pub enum Outcome {
    /// The mapping has no entry for the record's project key.
    Unmapped,
    /// The mapped project name, given here, is not among the remote projects.
    NotFoundRemotely(String),
    /// The entry was built but, in a dry run, not submitted.
    DryRun,
    /// The remote service accepted the entry.
    Success,
    /// Submitting the entry failed.
    Failure,
}

/// What the transfer of a record needs next.
pub enum Step {
    /// The record is done.
    Finished(Outcome),
    /// The remote project list is needed to find the project of this name.
    ListProjects(String),
    /// This entry is to be submitted.
    Submit(TimeEntry),
}

pub enum OutcomeView {
    Unmapped,
    NotFoundRemotely(Seq<char>),
    DryRun,
    Success,
    Failure,
}

impl View for Outcome {
    type V = OutcomeView;

    open spec fn view(&self) -> OutcomeView {
        match self {
            Outcome::Unmapped => OutcomeView::Unmapped,
            Outcome::NotFoundRemotely(n) => OutcomeView::NotFoundRemotely(n@),
            Outcome::DryRun => OutcomeView::DryRun,
            Outcome::Success => OutcomeView::Success,
            Outcome::Failure => OutcomeView::Failure,
        }
    }
}

pub enum StepView {
    Finished(OutcomeView),
    ListProjects(Seq<char>),
    Submit(TimeEntryView),
}

impl View for Step {
    type V = StepView;

    open spec fn view(&self) -> StepView {
        match self {
            Step::Finished(o) => StepView::Finished(o@),
            Step::ListProjects(n) => StepView::ListProjects(n@),
            Step::Submit(e) => StepView::Submit(e@),
        }
    }
}

pub open spec fn step_result_view(r: Result<Step, EntryError>) -> Result<StepView, EntryError> {
    match r {
        Ok(s) => Ok(s@),
        Err(e) => Err(e),
    }
}

/// The description of a record's entry: `"{issue key}: {work description}"`.
pub open spec fn description_spec(issue: IssueView) -> Seq<char> {
    issue.key + ": "@ + issue.work_description
}

/// The step once the record's project id is known: in a dry run the record
/// is done, otherwise its entry is submitted.
pub open spec fn submission_spec(issue: IssueView, project_id: Seq<char>, dry_run: bool) -> Result<
    StepView,
    EntryError,
> {
    if !valid_issue(issue) {
        Err(EntryError::MalformedRecord)
    } else {
        match entry_spec(
            project_id,
            work_date_seconds(issue.work_date)->0,
            hours_nanos(issue.hours) as int,
            description_spec(issue),
        ) {
            None => Err(EntryError::InvalidDuration),
            Some(e) => if dry_run {
                Ok(StepView::Finished(OutcomeView::DryRun))
            } else {
                Ok(StepView::Submit(e))
            },
        }
    }
}

/// The first step for a record whose project key maps to `target`.
pub open spec fn start_spec(issue: IssueView, target: Option<TargetView>, dry_run: bool) -> Result<
    StepView,
    EntryError,
> {
    match target {
        None => Ok(StepView::Finished(OutcomeView::Unmapped)),
        Some(TargetView::Id(id)) => submission_spec(issue, id, dry_run),
        Some(TargetView::Name(name)) => Ok(StepView::ListProjects(name)),
    }
}

/// The step for a record once the remote projects are known, where the
/// first of them with the mapped name `name` has the id `found`.
pub open spec fn listed_spec(
    issue: IssueView,
    name: Seq<char>,
    found: Option<Seq<char>>,
    dry_run: bool,
) -> Result<StepView, EntryError> {
    match found {
        None => Ok(StepView::Finished(OutcomeView::NotFoundRemotely(name))),
        Some(id) => submission_spec(issue, id, dry_run),
    }
}

fn entry_description(issue: &Issue) -> (r: String)
    ensures
        r@ == description_spec(issue@),
{
    let mut d = issue.key.clone();
    d.append(": ");
    d.append(issue.work_description.as_str());
    d
}

fn submission(issue: &Issue, project_id: String, dry_run: bool) -> (r: Result<Step, EntryError>)
    ensures
        step_result_view(r) == submission_spec(issue@, project_id@, dry_run),
{
    if !is_hours_numeral(issue.hours.as_str()) {
        return Err(EntryError::MalformedRecord);
    }
    let start = match parse_work_date(issue.work_date.as_str()) {
        Some(s) => s,
        None => return Err(EntryError::MalformedRecord),
    };
    let duration = match hours_duration(issue.hours.as_str()) {
        Some(d) => d,
        None => return Err(EntryError::InvalidDuration),
    };
    match TimeEntry::new(project_id, start, duration, entry_description(issue)) {
        Ok(e) => if dry_run {
            Ok(Step::Finished(Outcome::DryRun))
        } else {
            Ok(Step::Submit(e))
        },
        Err(e) => Err(e),
    }
}

/// The first step of transferring `issue`: look its project key up in `map`.
pub fn start_issue(issue: &Issue, map: &ProjectMap, dry_run: bool) -> (r: Result<Step, EntryError>)
    requires
        map.wf(),
    ensures
        step_result_view(r) == start_spec(issue@, map.get_spec(issue.project_key@), dry_run),
{
    match map.get(&issue.project_key) {
        None => Ok(Step::Finished(Outcome::Unmapped)),
        Some(ProjectTarget::Id(id)) => submission(issue, id.clone(), dry_run),
        Some(ProjectTarget::Name(name)) => Ok(Step::ListProjects(name.clone())),
    }
}

/// The step of transferring `issue` once the remote project list is known:
/// find the first project named `name`.
pub fn continue_with_projects(issue: &Issue, name: &String, projects: &Vec<Project>, dry_run: bool) -> (r: Result<Step, EntryError>)
    ensures
        step_result_view(r) == listed_spec(
            issue@,
            name@,
            project_id_named(projects@, name@),
            dry_run,
        ),
{
    match find_project(projects, name) {
        None => Ok(Step::Finished(Outcome::NotFoundRemotely(name.clone()))),
        Some(p) => submission(issue, p.id.clone(), dry_run),
    }
}

/// The outcome of a submission that the remote service did (`accepted`) or
/// did not accept.
pub fn submission_outcome(accepted: bool) -> (r: Outcome)
    ensures
        r@ == (if accepted {
            OutcomeView::Success
        } else {
            OutcomeView::Failure
        }),
{
    if accepted {
        Outcome::Success
    } else {
        Outcome::Failure
    }
}

/// The text that ends a record's progress line.
pub open spec fn outcome_text(issue: IssueView, o: OutcomeView) -> Seq<char> {
    match o {
        OutcomeView::Unmapped => "Could not map project: "@ + issue.project_key + "; skipped."@,
        OutcomeView::NotFoundRemotely(name) => "Could not find Clockify project id for: "@ + name
            + "; skipped."@,
        OutcomeView::DryRun => "dry run."@,
        OutcomeView::Success => "success."@,
        OutcomeView::Failure => "error."@,
    }
}

/// The progress line of a record: its key, summary, description and hours
/// (as a number reads),
/// then how its transfer ended. Tabs separate the columns.
pub open spec fn progress_line_spec(issue: IssueView, o: OutcomeView) -> Seq<char> {
    issue.key + "\t // "@ + issue.summary + "\t "@ + issue.work_description + "\t "@
        + hours_display(issue.hours) + "h\t ... "@ + outcome_text(issue, o)
}

/// Builds the progress line of a record.
pub fn progress_line(issue: &Issue, outcome: &Outcome) -> (r: String)
    ensures
        r@ == progress_line_spec(issue@, outcome@),
{
    let mut line = issue.key.clone();
    line.append("\t // ");
    line.append(issue.summary.as_str());
    line.append("\t ");
    line.append(issue.work_description.as_str());
    line.append("\t ");
    let hours = display_hours(issue.hours.as_str());
    line.append(hours.as_str());
    line.append("h\t ... ");
    match outcome {
        Outcome::Unmapped => {
            line.append("Could not map project: ");
            line.append(issue.project_key.as_str());
            line.append("; skipped.");
        },
        Outcome::NotFoundRemotely(name) => {
            line.append("Could not find Clockify project id for: ");
            line.append(name.as_str());
            line.append("; skipped.");
        },
        Outcome::DryRun => line.append("dry run."),
        Outcome::Success => line.append("success."),
        Outcome::Failure => line.append("error."),
    }
    line
}

pub open spec fn outcomes_view(v: Seq<Outcome>) -> Seq<OutcomeView> {
    v.map_values(|o: Outcome| o@)
}

/// The records among `issues` whose outcome, at the same place in
/// `outcomes`, is a failure, in order.
pub open spec fn failures(issues: Seq<IssueView>, outcomes: Seq<OutcomeView>) -> Seq<IssueView>
    decreases issues.len(),
{
    if issues.len() == 0 {
        Seq::empty()
    } else {
        let rest = failures(issues.drop_last(), outcomes.drop_last());
        if outcomes.last() == OutcomeView::Failure {
            rest.push(issues.last())
        } else {
            rest
        }
    }
}

/// The account of one pass: a progress line and an outcome per record, in
/// order, and the records whose submission failed.
pub struct TransferLog {
    pub lines: Vec<String>,
    pub outcomes: Vec<Outcome>,
    pub unprocessed: Vec<Issue>,
    /// The records taken so far, in order.
    pub recorded: Ghost<Seq<IssueView>>,
}

impl TransferLog {
    /// One progress line and one outcome per record taken, in order, and
    /// the failed records kept.
    pub open spec fn wf(&self) -> bool {
        &&& self.lines@.len() == self.recorded@.len()
        &&& self.outcomes@.len() == self.recorded@.len()
        &&& forall|k: int|
            0 <= k < self.recorded@.len() ==> (#[trigger] self.lines@[k])@ == progress_line_spec(
                self.recorded@[k],
                self.outcomes@[k]@,
            )
        &&& issues_view(self.unprocessed@) == failures(
            self.recorded@,
            outcomes_view(self.outcomes@),
        )
    }

    pub fn new() -> (r: TransferLog)
        ensures
            r.wf(),
            r.recorded@.len() == 0,
            r.lines@.len() == 0,
            r.outcomes@.len() == 0,
            r.unprocessed@.len() == 0,
    {
        let r = TransferLog {
            lines: Vec::new(),
            outcomes: Vec::new(),
            unprocessed: Vec::new(),
            recorded: Ghost(Seq::empty()),
        };
        assert(issues_view(r.unprocessed@) =~= Seq::empty());
        r
    }

    /// Takes the outcome of the next record: adds its progress line and, where
    /// its submission failed, keeps the record for a later run.
    pub fn record(&mut self, issue: &Issue, outcome: Outcome)
        requires
            old(self).wf(),
        ensures
            final(self).wf(),
            final(self).recorded@ == old(self).recorded@.push(issue@),
            final(self).lines@.len() == old(self).lines@.len() + 1,
            final(self).lines@.last()@ == progress_line_spec(issue@, outcome@),
            final(self).lines@.drop_last() == old(self).lines@,
            final(self).outcomes@ == old(self).outcomes@.push(outcome),
            outcome@ == OutcomeView::Failure ==> issues_view(final(self).unprocessed@) == issues_view(
                old(self).unprocessed@,
            ).push(issue@),
            outcome@ != OutcomeView::Failure ==> final(self).unprocessed@ == old(self).unprocessed@,
    {
        let ghost o = outcome@;
        let line = progress_line(issue, &outcome);
        let failed = match outcome {
            Outcome::Failure => true,
            _ => false,
        };
        self.lines.push(line);
        self.outcomes.push(outcome);
        self.recorded = Ghost(self.recorded@.push(issue@));
        assert(self.lines@.drop_last() =~= old(self).lines@);
        proof {
            let ov = outcomes_view(self.outcomes@);
            assert(ov.drop_last() =~= outcomes_view(old(self).outcomes@));
            assert(self.recorded@.drop_last() =~= old(self).recorded@);
            assert(ov.last() == o);
        }
        if failed {
            self.unprocessed.push(issue.duplicate());
            assert(issues_view(self.unprocessed@) =~= issues_view(old(self).unprocessed@).push(
                issue@,
            ));
        }
        assert forall|k: int| 0 <= k < self.recorded@.len() implies (#[trigger] self.lines@[k])@
            == progress_line_spec(self.recorded@[k], self.outcomes@[k]@) by {
            if k < old(self).recorded@.len() {
                assert(self.lines@[k] == old(self).lines@[k]);
                assert(self.outcomes@[k] == old(self).outcomes@[k]);
            }
        }
    }

    /// Whether some submission failed, so that the records are to be written
    /// out for a later run.
    pub fn has_failures(&self) -> (r: bool)
        ensures
            r == (self.unprocessed@.len() > 0),
    {
        self.unprocessed.len() > 0
    }

    /// The records to write out for a later run once the pass is over: where
    /// any submission failed, the whole input `issues`, as read; else none.
    pub fn retry_records<'a>(&self, issues: &'a Vec<Issue>) -> (r: Option<&'a Vec<Issue>>)
        ensures
            self.unprocessed@.len() > 0 ==> r == Some(issues),
            self.unprocessed@.len() == 0 ==> r is None,
    {
        if self.has_failures() {
            Some(issues)
        } else {
            None
        }
    }
}

/// Over a whole pass, the progress lines are one per record taken, each
/// naming its record, and the records kept for a later run are exactly those
/// whose submission failed, in input order.
pub proof fn lemma_pass_account(log: TransferLog)
    requires
        log.wf(),
    ensures
        log.lines@.len() == log.recorded@.len(),
        forall|k: int|
            0 <= k < log.lines@.len() ==> (#[trigger] log.lines@[k])@ == progress_line_spec(
                log.recorded@[k],
                log.outcomes@[k]@,
            ),
        issues_view(log.unprocessed@) == failures(log.recorded@, outcomes_view(log.outcomes@)),
{
}

/// A pass in which no record failed, as in any dry run, keeps no record for
/// a later run and so writes nothing out.
pub proof fn lemma_no_failure_no_retry(log: TransferLog)
    requires
        log.wf(),
        forall|k: int| 0 <= k < log.outcomes@.len() ==> (#[trigger] log.outcomes@[k])@ != OutcomeView::Failure,
    ensures
        log.unprocessed@.len() == 0,
{
    lemma_failures_empty(log.recorded@, outcomes_view(log.outcomes@));
}

proof fn lemma_failures_empty(issues: Seq<IssueView>, outcomes: Seq<OutcomeView>)
    requires
        issues.len() == outcomes.len(),
        forall|k: int| 0 <= k < outcomes.len() ==> outcomes[k] != OutcomeView::Failure,
    ensures
        failures(issues, outcomes).len() == 0,
    decreases issues.len(),
{
    if issues.len() > 0 {
        assert forall|k: int| 0 <= k < outcomes.drop_last().len() implies outcomes.drop_last()[k]
            != OutcomeView::Failure by {
            assert(outcomes.drop_last()[k] == outcomes[k]);
        }
        lemma_failures_empty(issues.drop_last(), outcomes.drop_last());
    }
}

/// A record whose project key the mapping lacks is skipped: whatever the
/// mode, it finishes unmapped and no entry of it is submitted.
pub proof fn lemma_unmapped_is_skipped(issue: IssueView, dry_run: bool)
    ensures
        start_spec(issue, None, dry_run) == Ok::<StepView, EntryError>(
            StepView::Finished(OutcomeView::Unmapped),
        ),
{
}

/// In a dry run no record reaches submission, so none can fail: every record
/// finishes skipped or as a dry run, or waits for the project list.
pub proof fn lemma_dry_run_never_submits(
    issue: IssueView,
    target: Option<TargetView>,
    name: Seq<char>,
    found: Option<Seq<char>>,
)
    ensures
        match start_spec(issue, target, true) {
            Ok(StepView::Submit(_)) => false,
            Ok(StepView::Finished(o)) => o != OutcomeView::Failure && o != OutcomeView::Success,
            _ => true,
        },
        match listed_spec(issue, name, found, true) {
            Ok(StepView::Submit(_)) => false,
            Ok(StepView::Finished(o)) => o != OutcomeView::Failure && o != OutcomeView::Success,
            _ => true,
        },
{
}

/// Reading back the table written for a later run gives the records that
/// were written, so with the same mapping and the same remote projects each
/// record takes the same steps, and ends the same way, as it did before.
pub proof fn lemma_rerun_same_steps(
    issues: Seq<IssueView>,
    read: Seq<IssueView>,
    map: ProjectMap,
    projects: Seq<Project>,
    dry_run: bool,
)
    requires
        forall|i: int| 0 <= i < issues.len() ==> valid_issue(#[trigger] issues[i]),
        read_result(issue_table(issues), Ok(read)),
    ensures
        read == issues,
        forall|i: int|
            0 <= i < read.len() ==> start_spec(
                #[trigger] read[i],
                map.get_spec(read[i].project_key),
                dry_run,
            ) == start_spec(issues[i], map.get_spec(issues[i].project_key), dry_run),
        forall|i: int, name: Seq<char>|
            0 <= i < read.len() ==> #[trigger] listed_spec(
                read[i],
                name,
                project_id_named(projects, name),
                dry_run,
            ) == listed_spec(issues[i], name, project_id_named(projects, name), dry_run),
{
    lemma_table_round_trip(issues);
    let t = issue_table(issues);
    assert(t.len() == issues.len() + 1);
    assert(read.len() == issues.len());
    assert forall|i: int| 0 <= i < read.len() implies read[i] == issues[i] by {
        let cols = crate::issue::columns_spec(t[0])->Ok_0;
        assert(crate::issue::row_issue(cols, t[i + 1]) == Ok::<IssueView, crate::issue::Column>(read[i]));
        assert(crate::issue::row_issue(cols, t[i + 1]) == Ok::<IssueView, crate::issue::Column>(issues[i]));
    }
    assert(read =~= issues);
}

} // verus!
