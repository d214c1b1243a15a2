//! The statements that are sent to the database.
//!
//! A statement has a text with placeholders, the values that are bound to them, and, where it
//! returns rows, the kinds of the columns that are read from each row.

use crate::status::{optional_text, InvocationStatus, COMPLETED, RUNNING};
use vstd::prelude::*;

verus! {

pub const CREATE_MACHINES: &'static str = "CREATE TABLE IF NOT EXISTS machines (
            hostname TEXT PRIMARY KEY
        );";

pub const CREATE_COMMITS: &'static str = "CREATE TABLE IF NOT EXISTS commits (
            sha1 TEXT PRIMARY KEY,
            date TEXT NOT NULL,
            message TEXT NOT NULL
        );";

pub const CREATE_INVOCATIONS: &'static str = "CREATE TABLE IF NOT EXISTS invocations (
            uuid TEXT PRIMARY KEY,
            commit_sha1 TEXT NOT NULL,
            machine_hostname TEXT NOT NULL,
            reason TEXT,
            tag TEXT,
            branch TEXT,
            status TEXT NOT NULL,
            failure_reason TEXT,
            max_workloads INTEGER NOT NULL,
            FOREIGN KEY (commit_sha1) REFERENCES commits(sha1),
            FOREIGN KEY (machine_hostname) REFERENCES machines(hostname)
        );";

pub const CREATE_WORKLOADS: &'static str = "CREATE TABLE IF NOT EXISTS workloads (
            uuid TEXT PRIMARY KEY,
            name TEXT NOT NULL,
            invocation_uuid TEXT NOT NULL,
            max_runs INTEGER NOT NULL,
            FOREIGN KEY (invocation_uuid) REFERENCES invocations(uuid)
        );";

pub const CREATE_RUNS: &'static str = "CREATE TABLE IF NOT EXISTS runs (
            uuid TEXT PRIMARY KEY,
            workload_invocation_uuid TEXT NOT NULL,
            FOREIGN KEY (workload_invocation_uuid) REFERENCES workloads(uuid)
        );";

pub const CREATE_DATA: &'static str = "CREATE TABLE IF NOT EXISTS data (
            span TEXT NOT NULL,
            self_time INTEGER NOT NULL,
            time INTEGER NOT NULL,
            call_count INTEGER NOT NULL,
            run_uuid TEXT NOT NULL,
            FOREIGN KEY (run_uuid) REFERENCES runs(uuid)
        );";

pub const INSERT_MACHINE: &'static str = "INSERT OR IGNORE INTO machines (hostname) VALUES (?)";

pub const LIST_MACHINES: &'static str = "SELECT * from machines LIMIT ? OFFSET ?";

pub const COUNT_MACHINES: &'static str = "SELECT COUNT(hostname) from machines";

pub const FIND_MACHINE: &'static str = "SELECT * FROM machines where hostname = ?";

pub const INSERT_COMMIT: &'static str = "INSERT OR IGNORE INTO commits (sha1, date, message) VALUES (?, ?, ?)";

pub const INSERT_INVOCATION: &'static str = "INSERT INTO
        invocations (uuid, commit_sha1, branch, tag, status, max_workloads, machine_hostname, reason)
        VALUES (?, ?, ?, ?, ?, ?, ?, ?)";

pub const INVOCATION_STATUS: &'static str = "SELECT status, failure_reason FROM invocations WHERE uuid = ?";

pub const DEADLINE_STATUS: &'static str = "SELECT status, reason FROM invocations WHERE uuid = ?";

pub const SET_STATUS: &'static str = "UPDATE invocations SET status = ? WHERE uuid = ?";

pub const SET_FAILURE: &'static str = "UPDATE invocations SET status = ?, failure_reason = ? WHERE uuid = ?";

pub const RUNNING_INVOCATIONS: &'static str = "SELECT uuid FROM invocations WHERE status = ?";

pub const INSERT_WORKLOAD: &'static str = "INSERT INTO workloads (uuid, name, max_runs, invocation_uuid) VALUES (?, ?, ?, ?)";

pub const FIND_WORKLOAD: &'static str = "SELECT max_runs, invocation_uuid FROM workloads WHERE uuid = ?";

pub const INSERT_RUN: &'static str = "INSERT INTO runs (uuid, workload_invocation_uuid) VALUES (?, ?)";

pub const INSERT_DATA: &'static str = "INSERT INTO data (span, run_uuid, self_time, time, call_count) VALUES (?, ?, ?, ?, ?)";

pub const COUNT_RUNS: &'static str = "SELECT COUNT(uuid) FROM runs WHERE workload_invocation_uuid = ?";

pub const COUNT_WORKLOADS_OF: &'static str = "SELECT COUNT(uuid) FROM workloads WHERE invocation_uuid = ?";

pub const MAX_WORKLOADS: &'static str = "SELECT max_workloads FROM invocations WHERE uuid = ?";

pub const LATEST_WORKLOAD: &'static str = "SELECT uuid, name, max_runs FROM workloads WHERE invocation_uuid = ? ORDER BY uuid DESC LIMIT ?";

pub const LIST_INVOCATIONS: &'static str = "SELECT
    uuid,
    commit_sha1,
    machine_hostname,
    reason,
    tag,
    branch,
    status,
    failure_reason,
    max_workloads
    FROM invocations
    LIMIT ?
    OFFSET ?";

pub const COUNT_INVOCATIONS: &'static str = "SELECT COUNT(uuid) from invocations";

pub const FIND_INVOCATION: &'static str = "SELECT commit_sha1, machine_hostname, reason, branch, tag, status, failure_reason, max_workloads
        FROM invocation
        WHERE uuid = ?";

pub const LATEST_INVOCATIONS: &'static str = "SELECT uuid, commit_sha1, machine_hostname, reason, tag, branch, status, failure_reason, max_workloads FROM invocations
    ORDER BY invocations.uuid DESC
    LIMIT ?";

pub const LIST_WORKLOADS: &'static str = "SELECT * from workloads LIMIT ? OFFSET ?";

pub const COUNT_WORKLOADS: &'static str = "SELECT COUNT(uuid) from workloads";

pub const LATEST_COMPLETED: &'static str = "SELECT workloads.name, commits.sha1, commits.message, invocations.reason, invocations.branch FROM invocations
    INNER JOIN workloads ON invocations.uuid = workloads.invocation_uuid
    INNER JOIN commits ON invocations.commit_sha1 = commits.sha1
    WHERE invocations.status = ?
    ORDER BY invocations.uuid DESC
    LIMIT ?";

pub const COMMIT_DATA: &'static str = "SELECT data.span, data.self_time, data.time, data.call_count FROM data
    INNER JOIN runs ON data.run_uuid = runs.uuid
    INNER JOIN workloads ON runs.workload_invocation_uuid = workloads.uuid
    INNER JOIN invocations ON workloads.invocation_uuid = invocations.uuid
    WHERE workloads.name = ?
    AND invocations.commit_sha1 = ?
    AND invocations.status = ?";

pub const SPAN_DATA: &'static str = "SELECT data.self_time, data.time, data.call_count FROM data
    INNER JOIN runs ON data.run_uuid = runs.uuid
    INNER JOIN workloads ON runs.workload_invocation_uuid = workloads.uuid
    INNER JOIN invocations ON workloads.invocation_uuid = invocations.uuid
    WHERE data.span = ?
    AND workloads.name = ?
    AND invocations.commit_sha1 = ?
    AND invocations.status = ?";

pub const LATEST_COMMITS: &'static str = "SELECT commits.sha1, commits.date, commits.message FROM workloads
            INNER JOIN invocations ON workloads.invocation_uuid = invocations.uuid
            INNER JOIN commits ON commits.sha1 = invocations.commit_sha1
            WHERE workloads.name = ?
            AND commits.sha1 != ?
            AND invocations.status = ?
            ORDER BY commits.date DESC
            LIMIT ?";

pub const TAGGED_COMMIT: &'static str = "SELECT commits.sha1 FROM commits
        INNER JOIN workloads ON invocations.uuid = workloads.invocation_uuid
        INNER JOIN invocations ON commits.sha1 = invocations.commit_sha1
    WHERE workloads.name = ? AND invocations.tag = ? AND invocations.status = ?
    GROUP BY commits.sha1
    ORDER BY commits.date DESC
    LIMIT 1";

pub const COMMIT_DATE: &'static str = "SELECT commits.date FROM commits
        INNER JOIN invocations ON commits.sha1 = invocations.commit_sha1
        WHERE invocations.branch = ?
        AND commits.sha1 = ?
        AND invocations.status = ?";

pub const BRANCH_COMMITS_BEFORE: &'static str = "SELECT commits.sha1, commits.date, commits.message FROM invocations
        INNER JOIN workloads ON invocations.uuid = workloads.invocation_uuid
        INNER JOIN commits ON invocations.commit_sha1 = commits.sha1
        WHERE workloads.name = ? AND invocations.branch = ? AND commits.date < ? AND invocations.status = ?
        GROUP BY commits.sha1
        ORDER BY commits.date DESC
        LIMIT ?";

pub const BRANCH_COMMITS: &'static str = "SELECT commits.sha1 FROM commits
        INNER JOIN workloads ON invocations.uuid = workloads.invocation_uuid
        INNER JOIN invocations ON commits.sha1 = invocations.commit_sha1
        WHERE workloads.name = ? AND invocations.branch = ? AND invocations.status = ?
        GROUP BY commits.sha1
        ORDER BY commits.date DESC
        LIMIT ?";

/// A value in the database.
pub enum Value {
    Text(String),
    OptionalText(Option<String>),
    Unsigned(u32),
    Signed(i64),
}

/// A value, with its text as a sequence of characters.
#[verifier::ext_equal]
pub enum ValueView {
    Text(Seq<char>),
    OptionalText(Option<Seq<char>>),
    Unsigned(u32),
    Signed(i64),
}

impl View for Value {
    type V = ValueView;

    open spec fn view(&self) -> ValueView {
        match self {
            Value::Text(text) => ValueView::Text(text@),
            Value::OptionalText(text) => ValueView::OptionalText(optional_text(*text)),
            Value::Unsigned(n) => ValueView::Unsigned(*n),
            Value::Signed(n) => ValueView::Signed(*n),
        }
    }
}

/// The values of a list.
pub open spec fn values(list: Seq<Value>) -> Seq<ValueView> {
    list.map_values(|value: Value| value@)
}

/// The kinds of columns.
#[derive(Debug, Clone, Copy, PartialEq, Eq, Structural)]
pub enum Column {
    Text,
    OptionalText,
    Unsigned,
    Signed,
}

impl Value {
    /// The kind of column that the value can stand in.
    pub open spec fn kind(&self) -> Column {
        match self {
            Value::Text(_) => Column::Text,
            Value::OptionalText(_) => Column::OptionalText,
            Value::Unsigned(_) => Column::Unsigned,
            Value::Signed(_) => Column::Signed,
        }
    }

    /// Tells whether the value can stand in a column.
    pub fn is_of(&self, column: Column) -> (fits: bool)
        ensures
            fits == (self.kind() == column),
    {
        match (self, column) {
            (Value::Text(_), Column::Text) => true,
            (Value::OptionalText(_), Column::OptionalText) => true,
            (Value::Unsigned(_), Column::Unsigned) => true,
            (Value::Signed(_), Column::Signed) => true,
            _ => false,
        }
    }
}

/// A row of a result.
pub struct Row {
    pub cells: Vec<Value>,
}

impl Row {
    /// The row has the columns that are read from it.
    pub open spec fn fits(&self, columns: Seq<Column>) -> bool {
        &&& self.cells.len() == columns.len()
        &&& forall|i: int|
            0 <= i < columns.len() ==> (#[trigger] self.cells[i]).kind() == columns[i]
    }

    /// Tells whether the row has the columns that are read from it.
    pub fn has(&self, columns: &Vec<Column>) -> (fits: bool)
        ensures
            fits == self.fits(columns@),
    {
        if self.cells.len() != columns.len() {
            return false;
        }
        let mut i: usize = 0;
        while i < columns.len()
            invariant
                i <= columns.len(),
                self.cells.len() == columns.len(),
                forall|j: int| 0 <= j < i ==> (#[trigger] self.cells[j]).kind() == columns[j],
            decreases columns.len() - i,
        {
            if !self.cells[i].is_of(columns[i]) {
                return false;
            }
            i += 1;
        }
        true
    }

    /// The text of a column that always has one.
    pub open spec fn spec_text(&self, i: int) -> String {
        self.cells[i]->Text_0
    }

    /// The text of a column that may have none.
    pub open spec fn spec_optional_text(&self, i: int) -> Option<String> {
        self.cells[i]->OptionalText_0
    }

    /// The number of a column of unsigned numbers.
    pub open spec fn spec_unsigned(&self, i: int) -> u32 {
        self.cells[i]->Unsigned_0
    }

    /// The number of a column of signed numbers.
    pub open spec fn spec_signed(&self, i: int) -> i64 {
        self.cells[i]->Signed_0
    }

    /// The text of a column that always has one.
    pub fn text(&self, i: usize) -> (text: String)
        requires
            i < self.cells.len(),
            self.cells[i as int] is Text,
        ensures
            text == self.spec_text(i as int),
    {
        match &self.cells[i] {
            Value::Text(text) => text.clone(),
            _ => String::new(),
        }
    }

    /// The text of a column that may have none.
    pub fn optional_text(&self, i: usize) -> (text: Option<String>)
        requires
            i < self.cells.len(),
            self.cells[i as int] is OptionalText,
        ensures
            text == self.spec_optional_text(i as int),
    {
        match &self.cells[i] {
            Value::OptionalText(text) => text.clone(),
            _ => None,
        }
    }

    /// The number of a column of unsigned numbers.
    pub fn unsigned(&self, i: usize) -> (n: u32)
        requires
            i < self.cells.len(),
            self.cells[i as int] is Unsigned,
        ensures
            n == self.spec_unsigned(i as int),
    {
        match &self.cells[i] {
            Value::Unsigned(n) => *n,
            _ => 0,
        }
    }

    /// The number of a column of signed numbers.
    pub fn signed(&self, i: usize) -> (n: i64)
        requires
            i < self.cells.len(),
            self.cells[i as int] is Signed,
        ensures
            n == self.spec_signed(i as int),
    {
        match &self.cells[i] {
            Value::Signed(n) => *n,
            _ => 0,
        }
    }
}

/// The tables of the database.
#[derive(Debug, Clone, Copy, PartialEq, Eq, Structural)]
pub enum Table {
    Machines,
    Commits,
    Invocations,
    Workloads,
    Runs,
    Data,
}

/// A statement with the values that are bound to it.
#[allow(inconsistent_fields)]
pub enum Query {
    /// Creates one of the tables, if it is missing.
    CreateTable { table: Table },
    /// Records a machine, unless it is known.
    InsertMachine { hostname: String },
    /// A part of the machines.
    ListMachines { limit: u32, offset: u32 },
    /// The number of machines.
    CountMachines,
    /// A machine by its name.
    FindMachine { hostname: String },
    /// Records a commit, unless it is known.
    InsertCommit { sha1: String, date: String, message: String },
    /// Records a running invocation.
    InsertInvocation { uuid: String, commit_sha1: String, branch: Option<String>, tag: Option<String>, max_workloads: u32, machine_hostname: String, reason: Option<String> },
    /// The status of an invocation and the reason of its failure.
    InvocationStatus { uuid: String },
    /// The status of an invocation and the reason that it was started for.
    DeadlineStatus { uuid: String },
    /// Gives an invocation a status.
    SetStatus { status: InvocationStatus, uuid: String },
    /// Gives an invocation a status and the reason of its failure.
    SetFailure { status: InvocationStatus, uuid: String },
    /// The invocations that are running.
    RunningInvocations,
    /// Records a workload.
    InsertWorkload { uuid: String, name: String, max_runs: u32, invocation_uuid: String },
    /// The number of runs of a workload, and its invocation.
    FindWorkload { uuid: String },
    /// Records a run.
    InsertRun { uuid: String, workload_uuid: String },
    /// Records what was measured of one span in a run.
    InsertData { span: String, run_uuid: String, self_time: i64, time: i64, call_count: i64 },
    /// The number of runs of a workload.
    CountRuns { workload_uuid: String },
    /// The number of workloads of an invocation.
    CountWorkloadsOf { invocation_uuid: String },
    /// The number of workloads that an invocation will have.
    MaxWorkloads { invocation_uuid: String },
    /// The workload of an invocation that was started last.
    LatestWorkload { invocation_uuid: String },
    /// A part of the invocations.
    ListInvocations { limit: u32, offset: u32 },
    /// The number of invocations.
    CountInvocations,
    /// An invocation by its identifier.
    FindInvocation { uuid: String },
    /// The invocations that were started last.
    LatestInvocations { count: u32 },
    /// A part of the workloads.
    ListWorkloads { limit: u32, offset: u32 },
    /// The number of workloads.
    CountWorkloads,
    /// The workloads of the invocations that completed last.
    LatestCompleted { count: u32 },
    /// What was measured of a workload on a commit.
    CommitData { workload_name: String, commit_sha1: String },
    /// What was measured of a span of a workload on a commit.
    SpanData { span: String, workload_name: String, commit_sha1: String },
    /// The latest commits on which a workload completed, but for one.
    LatestCommits { workload_name: String, before: String, count: u32 },
    /// The latest commit with a tag on which a workload completed.
    TaggedCommit { workload_name: String, tag: String },
    /// The date of a commit of a branch.
    CommitDate { branch: String, sha1: String },
    /// The latest commits of a branch before a date on which a workload completed.
    BranchCommitsBefore { workload_name: String, branch: String, date: String, count: u32 },
    /// The latest commits of a branch on which a workload completed.
    BranchCommits { workload_name: String, branch: String, count: u32 },
}

impl Query {
    /// The text of the statement.
    pub open spec fn sql_text(&self) -> Seq<char> {
        match self {
            Query::CreateTable { table } => match table {
                Table::Machines => CREATE_MACHINES@,
                Table::Commits => CREATE_COMMITS@,
                Table::Invocations => CREATE_INVOCATIONS@,
                Table::Workloads => CREATE_WORKLOADS@,
                Table::Runs => CREATE_RUNS@,
                Table::Data => CREATE_DATA@,
            },
            Query::InsertMachine { .. } => INSERT_MACHINE@,
            Query::ListMachines { .. } => LIST_MACHINES@,
            Query::CountMachines => COUNT_MACHINES@,
            Query::FindMachine { .. } => FIND_MACHINE@,
            Query::InsertCommit { .. } => INSERT_COMMIT@,
            Query::InsertInvocation { .. } => INSERT_INVOCATION@,
            Query::InvocationStatus { .. } => INVOCATION_STATUS@,
            Query::DeadlineStatus { .. } => DEADLINE_STATUS@,
            Query::SetStatus { .. } => SET_STATUS@,
            Query::SetFailure { .. } => SET_FAILURE@,
            Query::RunningInvocations => RUNNING_INVOCATIONS@,
            Query::InsertWorkload { .. } => INSERT_WORKLOAD@,
            Query::FindWorkload { .. } => FIND_WORKLOAD@,
            Query::InsertRun { .. } => INSERT_RUN@,
            Query::InsertData { .. } => INSERT_DATA@,
            Query::CountRuns { .. } => COUNT_RUNS@,
            Query::CountWorkloadsOf { .. } => COUNT_WORKLOADS_OF@,
            Query::MaxWorkloads { .. } => MAX_WORKLOADS@,
            Query::LatestWorkload { .. } => LATEST_WORKLOAD@,
            Query::ListInvocations { .. } => LIST_INVOCATIONS@,
            Query::CountInvocations => COUNT_INVOCATIONS@,
            Query::FindInvocation { .. } => FIND_INVOCATION@,
            Query::LatestInvocations { .. } => LATEST_INVOCATIONS@,
            Query::ListWorkloads { .. } => LIST_WORKLOADS@,
            Query::CountWorkloads => COUNT_WORKLOADS@,
            Query::LatestCompleted { .. } => LATEST_COMPLETED@,
            Query::CommitData { .. } => COMMIT_DATA@,
            Query::SpanData { .. } => SPAN_DATA@,
            Query::LatestCommits { .. } => LATEST_COMMITS@,
            Query::TaggedCommit { .. } => TAGGED_COMMIT@,
            Query::CommitDate { .. } => COMMIT_DATE@,
            Query::BranchCommitsBefore { .. } => BRANCH_COMMITS_BEFORE@,
            Query::BranchCommits { .. } => BRANCH_COMMITS@,
        }
    }

    /// The text of the statement.
    pub fn sql(&self) -> (text: &'static str)
        ensures
            text@ == self.sql_text(),
    {
        match self {
            Query::CreateTable { table } => match table {
                Table::Machines => CREATE_MACHINES,
                Table::Commits => CREATE_COMMITS,
                Table::Invocations => CREATE_INVOCATIONS,
                Table::Workloads => CREATE_WORKLOADS,
                Table::Runs => CREATE_RUNS,
                Table::Data => CREATE_DATA,
            },
            Query::InsertMachine { .. } => INSERT_MACHINE,
            Query::ListMachines { .. } => LIST_MACHINES,
            Query::CountMachines => COUNT_MACHINES,
            Query::FindMachine { .. } => FIND_MACHINE,
            Query::InsertCommit { .. } => INSERT_COMMIT,
            Query::InsertInvocation { .. } => INSERT_INVOCATION,
            Query::InvocationStatus { .. } => INVOCATION_STATUS,
            Query::DeadlineStatus { .. } => DEADLINE_STATUS,
            Query::SetStatus { .. } => SET_STATUS,
            Query::SetFailure { .. } => SET_FAILURE,
            Query::RunningInvocations => RUNNING_INVOCATIONS,
            Query::InsertWorkload { .. } => INSERT_WORKLOAD,
            Query::FindWorkload { .. } => FIND_WORKLOAD,
            Query::InsertRun { .. } => INSERT_RUN,
            Query::InsertData { .. } => INSERT_DATA,
            Query::CountRuns { .. } => COUNT_RUNS,
            Query::CountWorkloadsOf { .. } => COUNT_WORKLOADS_OF,
            Query::MaxWorkloads { .. } => MAX_WORKLOADS,
            Query::LatestWorkload { .. } => LATEST_WORKLOAD,
            Query::ListInvocations { .. } => LIST_INVOCATIONS,
            Query::CountInvocations => COUNT_INVOCATIONS,
            Query::FindInvocation { .. } => FIND_INVOCATION,
            Query::LatestInvocations { .. } => LATEST_INVOCATIONS,
            Query::ListWorkloads { .. } => LIST_WORKLOADS,
            Query::CountWorkloads => COUNT_WORKLOADS,
            Query::LatestCompleted { .. } => LATEST_COMPLETED,
            Query::CommitData { .. } => COMMIT_DATA,
            Query::SpanData { .. } => SPAN_DATA,
            Query::LatestCommits { .. } => LATEST_COMMITS,
            Query::TaggedCommit { .. } => TAGGED_COMMIT,
            Query::CommitDate { .. } => COMMIT_DATE,
            Query::BranchCommitsBefore { .. } => BRANCH_COMMITS_BEFORE,
            Query::BranchCommits { .. } => BRANCH_COMMITS,
        }
    }

    /// The values that are bound to the placeholders of the text, in their order.
    pub open spec fn binds(&self) -> Seq<ValueView> {
        match self {
            Query::CreateTable { .. } => Seq::empty(),
            Query::InsertMachine { hostname } => seq![ValueView::Text(hostname@)],
            Query::ListMachines { limit, offset } => seq![ValueView::Unsigned(*limit), ValueView::Unsigned(*offset)],
            Query::CountMachines => Seq::empty(),
            Query::FindMachine { hostname } => seq![ValueView::Text(hostname@)],
            Query::InsertCommit { sha1, date, message } => seq![ValueView::Text(sha1@), ValueView::Text(date@), ValueView::Text(message@)],
            Query::InsertInvocation { uuid, commit_sha1, branch, tag, max_workloads, machine_hostname, reason } => seq![ValueView::Text(uuid@), ValueView::Text(commit_sha1@), ValueView::OptionalText(optional_text(*branch)), ValueView::OptionalText(optional_text(*tag)), ValueView::Text(RUNNING@), ValueView::Unsigned(*max_workloads), ValueView::Text(machine_hostname@), ValueView::OptionalText(optional_text(*reason))],
            Query::InvocationStatus { uuid } => seq![ValueView::Text(uuid@)],
            Query::DeadlineStatus { uuid } => seq![ValueView::Text(uuid@)],
            Query::SetStatus { status, uuid } => seq![ValueView::Text(status@.db_text()), ValueView::Text(uuid@)],
            Query::SetFailure { status, uuid } => seq![ValueView::Text(status@.db_text()), ValueView::OptionalText(status@.failure()), ValueView::Text(uuid@)],
            Query::RunningInvocations => seq![ValueView::Text(RUNNING@)],
            Query::InsertWorkload { uuid, name, max_runs, invocation_uuid } => seq![ValueView::Text(uuid@), ValueView::Text(name@), ValueView::Unsigned(*max_runs), ValueView::Text(invocation_uuid@)],
            Query::FindWorkload { uuid } => seq![ValueView::Text(uuid@)],
            Query::InsertRun { uuid, workload_uuid } => seq![ValueView::Text(uuid@), ValueView::Text(workload_uuid@)],
            Query::InsertData { span, run_uuid, self_time, time, call_count } => seq![ValueView::Text(span@), ValueView::Text(run_uuid@), ValueView::Signed(*self_time), ValueView::Signed(*time), ValueView::Signed(*call_count)],
            Query::CountRuns { workload_uuid } => seq![ValueView::Text(workload_uuid@)],
            Query::CountWorkloadsOf { invocation_uuid } => seq![ValueView::Text(invocation_uuid@)],
            Query::MaxWorkloads { invocation_uuid } => seq![ValueView::Text(invocation_uuid@)],
            Query::LatestWorkload { invocation_uuid } => seq![ValueView::Text(invocation_uuid@), ValueView::Unsigned(1)],
            Query::ListInvocations { limit, offset } => seq![ValueView::Unsigned(*limit), ValueView::Unsigned(*offset)],
            Query::CountInvocations => Seq::empty(),
            Query::FindInvocation { uuid } => seq![ValueView::Text(uuid@)],
            Query::LatestInvocations { count } => seq![ValueView::Unsigned(*count)],
            Query::ListWorkloads { limit, offset } => seq![ValueView::Unsigned(*limit), ValueView::Unsigned(*offset)],
            Query::CountWorkloads => Seq::empty(),
            Query::LatestCompleted { count } => seq![ValueView::Text(COMPLETED@), ValueView::Unsigned(*count)],
            Query::CommitData { workload_name, commit_sha1 } => seq![ValueView::Text(workload_name@), ValueView::Text(commit_sha1@), ValueView::Text(COMPLETED@)],
            Query::SpanData { span, workload_name, commit_sha1 } => seq![ValueView::Text(span@), ValueView::Text(workload_name@), ValueView::Text(commit_sha1@), ValueView::Text(COMPLETED@)],
            Query::LatestCommits { workload_name, before, count } => seq![ValueView::Text(workload_name@), ValueView::Text(before@), ValueView::Text(COMPLETED@), ValueView::Unsigned(*count)],
            Query::TaggedCommit { workload_name, tag } => seq![ValueView::Text(workload_name@), ValueView::Text(tag@), ValueView::Text(COMPLETED@)],
            Query::CommitDate { branch, sha1 } => seq![ValueView::Text(branch@), ValueView::Text(sha1@), ValueView::Text(COMPLETED@)],
            Query::BranchCommitsBefore { workload_name, branch, date, count } => seq![ValueView::Text(workload_name@), ValueView::Text(branch@), ValueView::Text(date@), ValueView::Text(COMPLETED@), ValueView::Unsigned(*count)],
            Query::BranchCommits { workload_name, branch, count } => seq![ValueView::Text(workload_name@), ValueView::Text(branch@), ValueView::Text(COMPLETED@), ValueView::Unsigned(*count)],
        }
    }

    /// The values that are bound to the placeholders of the text, in their order.
    pub fn params(&self) -> (params: Vec<Value>)
        ensures
            values(params@) == self.binds(),
    {
        let params: Vec<Value> = match self {
            Query::CreateTable { .. } => Vec::new(),
            Query::InsertMachine { hostname } => vec![Value::Text(hostname.clone())],
            Query::ListMachines { limit, offset } => vec![Value::Unsigned(*limit), Value::Unsigned(*offset)],
            Query::CountMachines => Vec::new(),
            Query::FindMachine { hostname } => vec![Value::Text(hostname.clone())],
            Query::InsertCommit { sha1, date, message } => vec![Value::Text(sha1.clone()), Value::Text(date.clone()), Value::Text(message.clone())],
            Query::InsertInvocation { uuid, commit_sha1, branch, tag, max_workloads, machine_hostname, reason } => vec![Value::Text(uuid.clone()), Value::Text(commit_sha1.clone()), Value::OptionalText(branch.clone()), Value::OptionalText(tag.clone()), Value::Text(RUNNING.to_string()), Value::Unsigned(*max_workloads), Value::Text(machine_hostname.clone()), Value::OptionalText(reason.clone())],
            Query::InvocationStatus { uuid } => vec![Value::Text(uuid.clone())],
            Query::DeadlineStatus { uuid } => vec![Value::Text(uuid.clone())],
            Query::SetStatus { status, uuid } => vec![Value::Text(status.to_db_status().to_string()), Value::Text(uuid.clone())],
            Query::SetFailure { status, uuid } => vec![Value::Text(status.to_db_status().to_string()), Value::OptionalText(owned(status.reason())), Value::Text(uuid.clone())],
            Query::RunningInvocations => vec![Value::Text(RUNNING.to_string())],
            Query::InsertWorkload { uuid, name, max_runs, invocation_uuid } => vec![Value::Text(uuid.clone()), Value::Text(name.clone()), Value::Unsigned(*max_runs), Value::Text(invocation_uuid.clone())],
            Query::FindWorkload { uuid } => vec![Value::Text(uuid.clone())],
            Query::InsertRun { uuid, workload_uuid } => vec![Value::Text(uuid.clone()), Value::Text(workload_uuid.clone())],
            Query::InsertData { span, run_uuid, self_time, time, call_count } => vec![Value::Text(span.clone()), Value::Text(run_uuid.clone()), Value::Signed(*self_time), Value::Signed(*time), Value::Signed(*call_count)],
            Query::CountRuns { workload_uuid } => vec![Value::Text(workload_uuid.clone())],
            Query::CountWorkloadsOf { invocation_uuid } => vec![Value::Text(invocation_uuid.clone())],
            Query::MaxWorkloads { invocation_uuid } => vec![Value::Text(invocation_uuid.clone())],
            Query::LatestWorkload { invocation_uuid } => vec![Value::Text(invocation_uuid.clone()), Value::Unsigned(1)],
            Query::ListInvocations { limit, offset } => vec![Value::Unsigned(*limit), Value::Unsigned(*offset)],
            Query::CountInvocations => Vec::new(),
            Query::FindInvocation { uuid } => vec![Value::Text(uuid.clone())],
            Query::LatestInvocations { count } => vec![Value::Unsigned(*count)],
            Query::ListWorkloads { limit, offset } => vec![Value::Unsigned(*limit), Value::Unsigned(*offset)],
            Query::CountWorkloads => Vec::new(),
            Query::LatestCompleted { count } => vec![Value::Text(COMPLETED.to_string()), Value::Unsigned(*count)],
            Query::CommitData { workload_name, commit_sha1 } => vec![Value::Text(workload_name.clone()), Value::Text(commit_sha1.clone()), Value::Text(COMPLETED.to_string())],
            Query::SpanData { span, workload_name, commit_sha1 } => vec![Value::Text(span.clone()), Value::Text(workload_name.clone()), Value::Text(commit_sha1.clone()), Value::Text(COMPLETED.to_string())],
            Query::LatestCommits { workload_name, before, count } => vec![Value::Text(workload_name.clone()), Value::Text(before.clone()), Value::Text(COMPLETED.to_string()), Value::Unsigned(*count)],
            Query::TaggedCommit { workload_name, tag } => vec![Value::Text(workload_name.clone()), Value::Text(tag.clone()), Value::Text(COMPLETED.to_string())],
            Query::CommitDate { branch, sha1 } => vec![Value::Text(branch.clone()), Value::Text(sha1.clone()), Value::Text(COMPLETED.to_string())],
            Query::BranchCommitsBefore { workload_name, branch, date, count } => vec![Value::Text(workload_name.clone()), Value::Text(branch.clone()), Value::Text(date.clone()), Value::Text(COMPLETED.to_string()), Value::Unsigned(*count)],
            Query::BranchCommits { workload_name, branch, count } => vec![Value::Text(workload_name.clone()), Value::Text(branch.clone()), Value::Text(COMPLETED.to_string()), Value::Unsigned(*count)],
        };
        assert(values(params@) =~= self.binds());
        params
    }

    /// The kinds of the columns that are read from a row of the result.
    pub open spec fn spec_columns(&self) -> Seq<Column> {
        match self {
            Query::CreateTable { .. } => Seq::empty(),
            Query::InsertMachine { .. } => Seq::empty(),
            Query::ListMachines { .. } => seq![Column::Text],
            Query::CountMachines => seq![Column::Signed],
            Query::FindMachine { .. } => seq![Column::Text],
            Query::InsertCommit { .. } => Seq::empty(),
            Query::InsertInvocation { .. } => Seq::empty(),
            Query::InvocationStatus { .. } => seq![Column::Text, Column::OptionalText],
            Query::DeadlineStatus { .. } => seq![Column::Text, Column::OptionalText],
            Query::SetStatus { .. } => Seq::empty(),
            Query::SetFailure { .. } => Seq::empty(),
            Query::RunningInvocations => seq![Column::Text],
            Query::InsertWorkload { .. } => Seq::empty(),
            Query::FindWorkload { .. } => seq![Column::Unsigned, Column::Text],
            Query::InsertRun { .. } => Seq::empty(),
            Query::InsertData { .. } => Seq::empty(),
            Query::CountRuns { .. } => seq![Column::Unsigned],
            Query::CountWorkloadsOf { .. } => seq![Column::Unsigned],
            Query::MaxWorkloads { .. } => seq![Column::Unsigned],
            Query::LatestWorkload { .. } => seq![Column::Text, Column::Text, Column::Unsigned],
            Query::ListInvocations { .. } => seq![Column::Text, Column::Text, Column::Text, Column::OptionalText, Column::OptionalText, Column::OptionalText, Column::Text, Column::OptionalText, Column::Unsigned],
            Query::CountInvocations => seq![Column::Signed],
            Query::FindInvocation { .. } => seq![Column::Text, Column::Text, Column::OptionalText, Column::OptionalText, Column::OptionalText, Column::Text, Column::OptionalText, Column::Unsigned],
            Query::LatestInvocations { .. } => seq![Column::Text, Column::Text, Column::Text, Column::OptionalText, Column::OptionalText, Column::OptionalText, Column::Text, Column::OptionalText, Column::Unsigned],
            Query::ListWorkloads { .. } => seq![Column::Text, Column::Text, Column::Text],
            Query::CountWorkloads => seq![Column::Signed],
            Query::LatestCompleted { .. } => seq![Column::Text, Column::Text, Column::Text, Column::OptionalText, Column::OptionalText],
            Query::CommitData { .. } => seq![Column::Text, Column::Signed, Column::Signed, Column::Signed],
            Query::SpanData { .. } => seq![Column::Signed, Column::Signed, Column::Signed],
            Query::LatestCommits { .. } => seq![Column::Text],
            Query::TaggedCommit { .. } => seq![Column::Text],
            Query::CommitDate { .. } => seq![Column::Text],
            Query::BranchCommitsBefore { .. } => seq![Column::Text],
            Query::BranchCommits { .. } => seq![Column::Text],
        }
    }

    /// The kinds of the columns that are read from a row of the result.
    pub fn columns(&self) -> (columns: Vec<Column>)
        ensures
            columns@ == self.spec_columns(),
    {
        let columns: Vec<Column> = match self {
            Query::CreateTable { .. } => Vec::new(),
            Query::InsertMachine { .. } => Vec::new(),
            Query::ListMachines { .. } => vec![Column::Text],
            Query::CountMachines => vec![Column::Signed],
            Query::FindMachine { .. } => vec![Column::Text],
            Query::InsertCommit { .. } => Vec::new(),
            Query::InsertInvocation { .. } => Vec::new(),
            Query::InvocationStatus { .. } => vec![Column::Text, Column::OptionalText],
            Query::DeadlineStatus { .. } => vec![Column::Text, Column::OptionalText],
            Query::SetStatus { .. } => Vec::new(),
            Query::SetFailure { .. } => Vec::new(),
            Query::RunningInvocations => vec![Column::Text],
            Query::InsertWorkload { .. } => Vec::new(),
            Query::FindWorkload { .. } => vec![Column::Unsigned, Column::Text],
            Query::InsertRun { .. } => Vec::new(),
            Query::InsertData { .. } => Vec::new(),
            Query::CountRuns { .. } => vec![Column::Unsigned],
            Query::CountWorkloadsOf { .. } => vec![Column::Unsigned],
            Query::MaxWorkloads { .. } => vec![Column::Unsigned],
            Query::LatestWorkload { .. } => vec![Column::Text, Column::Text, Column::Unsigned],
            Query::ListInvocations { .. } => vec![Column::Text, Column::Text, Column::Text, Column::OptionalText, Column::OptionalText, Column::OptionalText, Column::Text, Column::OptionalText, Column::Unsigned],
            Query::CountInvocations => vec![Column::Signed],
            Query::FindInvocation { .. } => vec![Column::Text, Column::Text, Column::OptionalText, Column::OptionalText, Column::OptionalText, Column::Text, Column::OptionalText, Column::Unsigned],
            Query::LatestInvocations { .. } => vec![Column::Text, Column::Text, Column::Text, Column::OptionalText, Column::OptionalText, Column::OptionalText, Column::Text, Column::OptionalText, Column::Unsigned],
            Query::ListWorkloads { .. } => vec![Column::Text, Column::Text, Column::Text],
            Query::CountWorkloads => vec![Column::Signed],
            Query::LatestCompleted { .. } => vec![Column::Text, Column::Text, Column::Text, Column::OptionalText, Column::OptionalText],
            Query::CommitData { .. } => vec![Column::Text, Column::Signed, Column::Signed, Column::Signed],
            Query::SpanData { .. } => vec![Column::Signed, Column::Signed, Column::Signed],
            Query::LatestCommits { .. } => vec![Column::Text],
            Query::TaggedCommit { .. } => vec![Column::Text],
            Query::CommitDate { .. } => vec![Column::Text],
            Query::BranchCommitsBefore { .. } => vec![Column::Text],
            Query::BranchCommits { .. } => vec![Column::Text],
        };
        assert(columns@ =~= self.spec_columns());
        columns
    }
}

/// An optional string slice as an optional string.
fn owned(text: Option<&str>) -> (owned: Option<String>)
    ensures
        match text {
            Some(s) => owned matches Some(o) && o@ == s@,
            None => owned is None,
        },
{
    match text {
        Some(s) => Some(s.to_string()),
        None => None,
    }
}

/// Recording a machine names its host, and changes nothing if it is known.
pub proof fn machine_is_inserted(hostname: String)
    ensures
        (Query::InsertMachine { hostname }).sql_text() == "INSERT OR IGNORE INTO machines (hostname) VALUES (?)"@,
        (Query::InsertMachine { hostname }).binds() == seq![
            ValueView::Text(hostname@),
        ],
{
}

/// A part of the machines is as long as the limit, after as many as the offset.
pub proof fn machines_are_listed(limit: u32, offset: u32)
    ensures
        (Query::ListMachines { limit, offset }).sql_text() == "SELECT * from machines LIMIT "@ + "?"@ + " OFFSET "@ + "?"@,
        (Query::ListMachines { limit, offset }).binds() == seq![
            ValueView::Unsigned(limit),
            ValueView::Unsigned(offset),
        ],
{
    reveal_strlit("SELECT * from machines LIMIT ? OFFSET ?");
    reveal_strlit("SELECT * from machines LIMIT ");
    reveal_strlit(" OFFSET ");
    reveal_strlit("?");
    assert((Query::ListMachines { limit, offset }).sql_text() =~= "SELECT * from machines LIMIT "@ + "?"@ + " OFFSET "@ + "?"@);
}

/// All machines are counted.
pub proof fn machines_are_counted()
    ensures
        Query::CountMachines.sql_text() == "SELECT COUNT(hostname) from machines"@,
        Query::CountMachines.binds() == Seq::<ValueView>::empty(),
{
}

/// A machine is looked up by its name.
pub proof fn machine_is_found_by_its_name(hostname: String)
    ensures
        (Query::FindMachine { hostname }).sql_text() == "SELECT * FROM machines where hostname = "@ + "?"@,
        (Query::FindMachine { hostname }).binds() == seq![
            ValueView::Text(hostname@),
        ],
{
    reveal_strlit("SELECT * FROM machines where hostname = ?");
    reveal_strlit("SELECT * FROM machines where hostname = ");
    reveal_strlit("?");
    assert((Query::FindMachine { hostname }).sql_text() =~= "SELECT * FROM machines where hostname = "@ + "?"@);
}

/// Recording a commit gives it its hash, its date and its message, and changes nothing if it is
/// known.
pub proof fn commit_is_inserted(sha1: String, date: String, message: String)
    ensures
        (Query::InsertCommit { sha1, date, message }).sql_text() == "INSERT OR IGNORE INTO commits (sha1, date, message) VALUES (?, ?, ?)"@,
        (Query::InsertCommit { sha1, date, message }).binds() == seq![
            ValueView::Text(sha1@),
            ValueView::Text(date@),
            ValueView::Text(message@),
        ],
{
}

/// Recording an invocation gives every column its own value, and the status is that of a running
/// one.
pub proof fn invocation_is_inserted(uuid: String, commit_sha1: String, branch: Option<String>, tag: Option<String>, max_workloads: u32, machine_hostname: String, reason: Option<String>)
    ensures
        (Query::InsertInvocation { uuid, commit_sha1, branch, tag, max_workloads, machine_hostname, reason }).sql_text() == "INSERT INTO
        invocations (uuid, commit_sha1, branch, tag, status, max_workloads, machine_hostname, reason)
        VALUES (?, ?, ?, ?, ?, ?, ?, ?)"@,
        (Query::InsertInvocation { uuid, commit_sha1, branch, tag, max_workloads, machine_hostname, reason }).binds() == seq![
            ValueView::Text(uuid@),
            ValueView::Text(commit_sha1@),
            ValueView::OptionalText(match branch {
                Some(s) => Some(s@),
                None => None,
            }),
            ValueView::OptionalText(match tag {
                Some(s) => Some(s@),
                None => None,
            }),
            ValueView::Text("running"@),
            ValueView::Unsigned(max_workloads),
            ValueView::Text(machine_hostname@),
            ValueView::OptionalText(match reason {
                Some(s) => Some(s@),
                None => None,
            }),
        ],
{
}

/// The status of an invocation is looked up with the reason of its failure.
pub proof fn status_is_looked_up(uuid: String)
    ensures
        (Query::InvocationStatus { uuid }).sql_text() == "SELECT status, failure_reason FROM invocations WHERE uuid = "@ + "?"@,
        (Query::InvocationStatus { uuid }).binds() == seq![
            ValueView::Text(uuid@),
        ],
{
    reveal_strlit("SELECT status, failure_reason FROM invocations WHERE uuid = ?");
    reveal_strlit("SELECT status, failure_reason FROM invocations WHERE uuid = ");
    reveal_strlit("?");
    assert((Query::InvocationStatus { uuid }).sql_text() =~= "SELECT status, failure_reason FROM invocations WHERE uuid = "@ + "?"@);
}

/// At its deadline, an invocation is looked up by its identifier.
pub proof fn status_is_looked_up_at_the_deadline(uuid: String)
    ensures
        (Query::DeadlineStatus { uuid }).sql_text() == "SELECT status, reason FROM invocations WHERE uuid = "@ + "?"@,
        (Query::DeadlineStatus { uuid }).binds() == seq![
            ValueView::Text(uuid@),
        ],
{
    reveal_strlit("SELECT status, reason FROM invocations WHERE uuid = ?");
    reveal_strlit("SELECT status, reason FROM invocations WHERE uuid = ");
    reveal_strlit("?");
    assert((Query::DeadlineStatus { uuid }).sql_text() =~= "SELECT status, reason FROM invocations WHERE uuid = "@ + "?"@);
}

/// Of one invocation the status is set, and nothing else.
pub proof fn status_is_set(status: InvocationStatus, uuid: String)
    ensures
        (Query::SetStatus { status, uuid }).sql_text() == "UPDATE invocations SET status = "@ + "?"@ + " WHERE uuid = "@ + "?"@,
        (Query::SetStatus { status, uuid }).binds() == seq![
            ValueView::Text(match status {
                InvocationStatus::Running => "running"@,
                InvocationStatus::Failed(_) => "failed"@,
                InvocationStatus::Completed => "completed"@,
                InvocationStatus::Canceled => "canceled"@,
                InvocationStatus::Timeout => "timeout"@,
            }),
            ValueView::Text(uuid@),
        ],
{
    reveal_strlit("UPDATE invocations SET status = ? WHERE uuid = ?");
    reveal_strlit("UPDATE invocations SET status = ");
    reveal_strlit(" WHERE uuid = ");
    reveal_strlit("?");
    assert((Query::SetStatus { status, uuid }).sql_text() =~= "UPDATE invocations SET status = "@ + "?"@ + " WHERE uuid = "@ + "?"@);
}

/// Of one invocation the status is set with the reason of its failure.
pub proof fn failure_is_set(status: InvocationStatus, uuid: String)
    ensures
        (Query::SetFailure { status, uuid }).sql_text() == "UPDATE invocations SET status = "@ + "?"@ + ", failure_reason = "@ + "?"@ + " WHERE uuid = "@ + "?"@,
        (Query::SetFailure { status, uuid }).binds() == seq![
            ValueView::Text(match status {
                InvocationStatus::Running => "running"@,
                InvocationStatus::Failed(_) => "failed"@,
                InvocationStatus::Completed => "completed"@,
                InvocationStatus::Canceled => "canceled"@,
                InvocationStatus::Timeout => "timeout"@,
            }),
            ValueView::OptionalText(match status {
                InvocationStatus::Failed(reason) => Some(reason@),
                _ => None,
            }),
            ValueView::Text(uuid@),
        ],
{
    reveal_strlit("UPDATE invocations SET status = ?, failure_reason = ? WHERE uuid = ?");
    reveal_strlit("UPDATE invocations SET status = ");
    reveal_strlit(", failure_reason = ");
    reveal_strlit(" WHERE uuid = ");
    reveal_strlit("?");
    assert((Query::SetFailure { status, uuid }).sql_text() =~= "UPDATE invocations SET status = "@ + "?"@ + ", failure_reason = "@ + "?"@ + " WHERE uuid = "@ + "?"@);
}

/// The invocations that are running are found by their status.
pub proof fn running_invocations_are_found()
    ensures
        Query::RunningInvocations.sql_text() == "SELECT uuid FROM invocations WHERE status = "@ + "?"@,
        Query::RunningInvocations.binds() == seq![
            ValueView::Text("running"@),
        ],
{
    reveal_strlit("SELECT uuid FROM invocations WHERE status = ?");
    reveal_strlit("SELECT uuid FROM invocations WHERE status = ");
    reveal_strlit("?");
    assert(Query::RunningInvocations.sql_text() =~= "SELECT uuid FROM invocations WHERE status = "@ + "?"@);
}

/// Recording a workload gives every column its own value.
pub proof fn workload_is_inserted(uuid: String, name: String, max_runs: u32, invocation_uuid: String)
    ensures
        (Query::InsertWorkload { uuid, name, max_runs, invocation_uuid }).sql_text() == "INSERT INTO workloads (uuid, name, max_runs, invocation_uuid) VALUES (?, ?, ?, ?)"@,
        (Query::InsertWorkload { uuid, name, max_runs, invocation_uuid }).binds() == seq![
            ValueView::Text(uuid@),
            ValueView::Text(name@),
            ValueView::Unsigned(max_runs),
            ValueView::Text(invocation_uuid@),
        ],
{
}

/// A workload is looked up by its identifier, with its number of runs and its invocation.
pub proof fn workload_is_found(uuid: String)
    ensures
        (Query::FindWorkload { uuid }).sql_text() == "SELECT max_runs, invocation_uuid FROM workloads WHERE uuid = "@ + "?"@,
        (Query::FindWorkload { uuid }).binds() == seq![
            ValueView::Text(uuid@),
        ],
{
    reveal_strlit("SELECT max_runs, invocation_uuid FROM workloads WHERE uuid = ?");
    reveal_strlit("SELECT max_runs, invocation_uuid FROM workloads WHERE uuid = ");
    reveal_strlit("?");
    assert((Query::FindWorkload { uuid }).sql_text() =~= "SELECT max_runs, invocation_uuid FROM workloads WHERE uuid = "@ + "?"@);
}

/// Recording a run gives it its identifier and its workload.
pub proof fn run_is_inserted(uuid: String, workload_uuid: String)
    ensures
        (Query::InsertRun { uuid, workload_uuid }).sql_text() == "INSERT INTO runs (uuid, workload_invocation_uuid) VALUES (?, ?)"@,
        (Query::InsertRun { uuid, workload_uuid }).binds() == seq![
            ValueView::Text(uuid@),
            ValueView::Text(workload_uuid@),
        ],
{
}

/// Recording a measurement gives every column its own value.
pub proof fn measurement_is_inserted(span: String, run_uuid: String, self_time: i64, time: i64, call_count: i64)
    ensures
        (Query::InsertData { span, run_uuid, self_time, time, call_count }).sql_text() == "INSERT INTO data (span, run_uuid, self_time, time, call_count) VALUES (?, ?, ?, ?, ?)"@,
        (Query::InsertData { span, run_uuid, self_time, time, call_count }).binds() == seq![
            ValueView::Text(span@),
            ValueView::Text(run_uuid@),
            ValueView::Signed(self_time),
            ValueView::Signed(time),
            ValueView::Signed(call_count),
        ],
{
}

/// The runs of one workload are counted.
pub proof fn runs_are_counted(workload_uuid: String)
    ensures
        (Query::CountRuns { workload_uuid }).sql_text() == "SELECT COUNT(uuid) FROM runs WHERE workload_invocation_uuid = "@ + "?"@,
        (Query::CountRuns { workload_uuid }).binds() == seq![
            ValueView::Text(workload_uuid@),
        ],
{
    reveal_strlit("SELECT COUNT(uuid) FROM runs WHERE workload_invocation_uuid = ?");
    reveal_strlit("SELECT COUNT(uuid) FROM runs WHERE workload_invocation_uuid = ");
    reveal_strlit("?");
    assert((Query::CountRuns { workload_uuid }).sql_text() =~= "SELECT COUNT(uuid) FROM runs WHERE workload_invocation_uuid = "@ + "?"@);
}

/// The workloads of one invocation are counted.
pub proof fn workloads_of_an_invocation_are_counted(invocation_uuid: String)
    ensures
        (Query::CountWorkloadsOf { invocation_uuid }).sql_text() == "SELECT COUNT(uuid) FROM workloads WHERE invocation_uuid = "@ + "?"@,
        (Query::CountWorkloadsOf { invocation_uuid }).binds() == seq![
            ValueView::Text(invocation_uuid@),
        ],
{
    reveal_strlit("SELECT COUNT(uuid) FROM workloads WHERE invocation_uuid = ?");
    reveal_strlit("SELECT COUNT(uuid) FROM workloads WHERE invocation_uuid = ");
    reveal_strlit("?");
    assert((Query::CountWorkloadsOf { invocation_uuid }).sql_text() =~= "SELECT COUNT(uuid) FROM workloads WHERE invocation_uuid = "@ + "?"@);
}

/// The number of workloads that one invocation will have is looked up.
pub proof fn number_of_workloads_is_looked_up(invocation_uuid: String)
    ensures
        (Query::MaxWorkloads { invocation_uuid }).sql_text() == "SELECT max_workloads FROM invocations WHERE uuid = "@ + "?"@,
        (Query::MaxWorkloads { invocation_uuid }).binds() == seq![
            ValueView::Text(invocation_uuid@),
        ],
{
    reveal_strlit("SELECT max_workloads FROM invocations WHERE uuid = ?");
    reveal_strlit("SELECT max_workloads FROM invocations WHERE uuid = ");
    reveal_strlit("?");
    assert((Query::MaxWorkloads { invocation_uuid }).sql_text() =~= "SELECT max_workloads FROM invocations WHERE uuid = "@ + "?"@);
}

/// Of the workloads of one invocation the last by its identifier is found, and no other.
pub proof fn latest_workload_is_found(invocation_uuid: String)
    ensures
        (Query::LatestWorkload { invocation_uuid }).sql_text() == "SELECT uuid, name, max_runs FROM workloads WHERE invocation_uuid = "@ + "?"@ + " ORDER BY uuid DESC LIMIT "@ + "?"@,
        (Query::LatestWorkload { invocation_uuid }).binds() == seq![
            ValueView::Text(invocation_uuid@),
            ValueView::Unsigned(1),
        ],
{
    reveal_strlit("SELECT uuid, name, max_runs FROM workloads WHERE invocation_uuid = ? ORDER BY uuid DESC LIMIT ?");
    reveal_strlit("SELECT uuid, name, max_runs FROM workloads WHERE invocation_uuid = ");
    reveal_strlit(" ORDER BY uuid DESC LIMIT ");
    reveal_strlit("?");
    assert((Query::LatestWorkload { invocation_uuid }).sql_text() =~= "SELECT uuid, name, max_runs FROM workloads WHERE invocation_uuid = "@ + "?"@ + " ORDER BY uuid DESC LIMIT "@ + "?"@);
}

/// A part of the invocations is as long as the limit, after as many as the offset.
pub proof fn invocations_are_listed(limit: u32, offset: u32)
    ensures
        (Query::ListInvocations { limit, offset }).sql_text() == "SELECT
    uuid,
    commit_sha1,
    machine_hostname,
    reason,
    tag,
    branch,
    status,
    failure_reason,
    max_workloads
    FROM invocations
    LIMIT "@ + "?"@ + "
    OFFSET "@ + "?"@,
        (Query::ListInvocations { limit, offset }).binds() == seq![
            ValueView::Unsigned(limit),
            ValueView::Unsigned(offset),
        ],
{
    reveal_strlit("SELECT
    uuid,
    commit_sha1,
    machine_hostname,
    reason,
    tag,
    branch,
    status,
    failure_reason,
    max_workloads
    FROM invocations
    LIMIT ?
    OFFSET ?");
    reveal_strlit("SELECT
    uuid,
    commit_sha1,
    machine_hostname,
    reason,
    tag,
    branch,
    status,
    failure_reason,
    max_workloads
    FROM invocations
    LIMIT ");
    reveal_strlit("
    OFFSET ");
    reveal_strlit("?");
    assert((Query::ListInvocations { limit, offset }).sql_text() =~= "SELECT
    uuid,
    commit_sha1,
    machine_hostname,
    reason,
    tag,
    branch,
    status,
    failure_reason,
    max_workloads
    FROM invocations
    LIMIT "@ + "?"@ + "
    OFFSET "@ + "?"@);
}

/// All invocations are counted.
pub proof fn invocations_are_counted()
    ensures
        Query::CountInvocations.sql_text() == "SELECT COUNT(uuid) from invocations"@,
        Query::CountInvocations.binds() == Seq::<ValueView>::empty(),
{
}

/// An invocation is looked up by its identifier.
pub proof fn invocation_is_found(uuid: String)
    ensures
        (Query::FindInvocation { uuid }).sql_text() == "SELECT commit_sha1, machine_hostname, reason, branch, tag, status, failure_reason, max_workloads
        FROM invocation
        WHERE uuid = "@ + "?"@,
        (Query::FindInvocation { uuid }).binds() == seq![
            ValueView::Text(uuid@),
        ],
{
    reveal_strlit("SELECT commit_sha1, machine_hostname, reason, branch, tag, status, failure_reason, max_workloads
        FROM invocation
        WHERE uuid = ?");
    reveal_strlit("SELECT commit_sha1, machine_hostname, reason, branch, tag, status, failure_reason, max_workloads
        FROM invocation
        WHERE uuid = ");
    reveal_strlit("?");
    assert((Query::FindInvocation { uuid }).sql_text() =~= "SELECT commit_sha1, machine_hostname, reason, branch, tag, status, failure_reason, max_workloads
        FROM invocation
        WHERE uuid = "@ + "?"@);
}

/// The latest invocations are those with the last identifiers.
pub proof fn latest_invocations_are_listed(count: u32)
    ensures
        (Query::LatestInvocations { count }).sql_text() == "SELECT uuid, commit_sha1, machine_hostname, reason, tag, branch, status, failure_reason, max_workloads FROM invocations
    ORDER BY invocations.uuid DESC
    LIMIT "@ + "?"@,
        (Query::LatestInvocations { count }).binds() == seq![
            ValueView::Unsigned(count),
        ],
{
    reveal_strlit("SELECT uuid, commit_sha1, machine_hostname, reason, tag, branch, status, failure_reason, max_workloads FROM invocations
    ORDER BY invocations.uuid DESC
    LIMIT ?");
    reveal_strlit("SELECT uuid, commit_sha1, machine_hostname, reason, tag, branch, status, failure_reason, max_workloads FROM invocations
    ORDER BY invocations.uuid DESC
    LIMIT ");
    reveal_strlit("?");
    assert((Query::LatestInvocations { count }).sql_text() =~= "SELECT uuid, commit_sha1, machine_hostname, reason, tag, branch, status, failure_reason, max_workloads FROM invocations
    ORDER BY invocations.uuid DESC
    LIMIT "@ + "?"@);
}

/// A part of the workloads is as long as the limit, after as many as the offset.
pub proof fn workloads_are_listed(limit: u32, offset: u32)
    ensures
        (Query::ListWorkloads { limit, offset }).sql_text() == "SELECT * from workloads LIMIT "@ + "?"@ + " OFFSET "@ + "?"@,
        (Query::ListWorkloads { limit, offset }).binds() == seq![
            ValueView::Unsigned(limit),
            ValueView::Unsigned(offset),
        ],
{
    reveal_strlit("SELECT * from workloads LIMIT ? OFFSET ?");
    reveal_strlit("SELECT * from workloads LIMIT ");
    reveal_strlit(" OFFSET ");
    reveal_strlit("?");
    assert((Query::ListWorkloads { limit, offset }).sql_text() =~= "SELECT * from workloads LIMIT "@ + "?"@ + " OFFSET "@ + "?"@);
}

/// All workloads are counted.
pub proof fn workloads_are_counted()
    ensures
        Query::CountWorkloads.sql_text() == "SELECT COUNT(uuid) from workloads"@,
        Query::CountWorkloads.binds() == Seq::<ValueView>::empty(),
{
}

/// The latest workloads are those of completed invocations, the last by their identifiers first.
pub proof fn latest_completed_are_listed(count: u32)
    ensures
        (Query::LatestCompleted { count }).sql_text() == "SELECT workloads.name, commits.sha1, commits.message, invocations.reason, invocations.branch FROM invocations
    INNER JOIN workloads ON invocations.uuid = workloads.invocation_uuid
    INNER JOIN commits ON invocations.commit_sha1 = commits.sha1
    WHERE invocations.status = "@ + "?"@ + "
    ORDER BY invocations.uuid DESC
    LIMIT "@ + "?"@,
        (Query::LatestCompleted { count }).binds() == seq![
            ValueView::Text("completed"@),
            ValueView::Unsigned(count),
        ],
{
    reveal_strlit("SELECT workloads.name, commits.sha1, commits.message, invocations.reason, invocations.branch FROM invocations
    INNER JOIN workloads ON invocations.uuid = workloads.invocation_uuid
    INNER JOIN commits ON invocations.commit_sha1 = commits.sha1
    WHERE invocations.status = ?
    ORDER BY invocations.uuid DESC
    LIMIT ?");
    reveal_strlit("SELECT workloads.name, commits.sha1, commits.message, invocations.reason, invocations.branch FROM invocations
    INNER JOIN workloads ON invocations.uuid = workloads.invocation_uuid
    INNER JOIN commits ON invocations.commit_sha1 = commits.sha1
    WHERE invocations.status = ");
    reveal_strlit("
    ORDER BY invocations.uuid DESC
    LIMIT ");
    reveal_strlit("?");
    assert((Query::LatestCompleted { count }).sql_text() =~= "SELECT workloads.name, commits.sha1, commits.message, invocations.reason, invocations.branch FROM invocations
    INNER JOIN workloads ON invocations.uuid = workloads.invocation_uuid
    INNER JOIN commits ON invocations.commit_sha1 = commits.sha1
    WHERE invocations.status = "@ + "?"@ + "
    ORDER BY invocations.uuid DESC
    LIMIT "@ + "?"@);
}

/// The measurements of a commit are those of one workload, on that commit, in completed
/// invocations.
pub proof fn commit_data_is_selected(workload_name: String, commit_sha1: String)
    ensures
        (Query::CommitData { workload_name, commit_sha1 }).sql_text() == "SELECT data.span, data.self_time, data.time, data.call_count FROM data
    INNER JOIN runs ON data.run_uuid = runs.uuid
    INNER JOIN workloads ON runs.workload_invocation_uuid = workloads.uuid
    INNER JOIN invocations ON workloads.invocation_uuid = invocations.uuid
    WHERE workloads.name = "@ + "?"@ + "
    AND invocations.commit_sha1 = "@ + "?"@ + "
    AND invocations.status = "@ + "?"@,
        (Query::CommitData { workload_name, commit_sha1 }).binds() == seq![
            ValueView::Text(workload_name@),
            ValueView::Text(commit_sha1@),
            ValueView::Text("completed"@),
        ],
{
    reveal_strlit("SELECT data.span, data.self_time, data.time, data.call_count FROM data
    INNER JOIN runs ON data.run_uuid = runs.uuid
    INNER JOIN workloads ON runs.workload_invocation_uuid = workloads.uuid
    INNER JOIN invocations ON workloads.invocation_uuid = invocations.uuid
    WHERE workloads.name = ?
    AND invocations.commit_sha1 = ?
    AND invocations.status = ?");
    reveal_strlit("SELECT data.span, data.self_time, data.time, data.call_count FROM data
    INNER JOIN runs ON data.run_uuid = runs.uuid
    INNER JOIN workloads ON runs.workload_invocation_uuid = workloads.uuid
    INNER JOIN invocations ON workloads.invocation_uuid = invocations.uuid
    WHERE workloads.name = ");
    reveal_strlit("
    AND invocations.commit_sha1 = ");
    reveal_strlit("
    AND invocations.status = ");
    reveal_strlit("?");
    assert((Query::CommitData { workload_name, commit_sha1 }).sql_text() =~= "SELECT data.span, data.self_time, data.time, data.call_count FROM data
    INNER JOIN runs ON data.run_uuid = runs.uuid
    INNER JOIN workloads ON runs.workload_invocation_uuid = workloads.uuid
    INNER JOIN invocations ON workloads.invocation_uuid = invocations.uuid
    WHERE workloads.name = "@ + "?"@ + "
    AND invocations.commit_sha1 = "@ + "?"@ + "
    AND invocations.status = "@ + "?"@);
}

/// The measurements of a span are those of one workload, on one commit, in completed invocations.
pub proof fn span_data_is_selected(span: String, workload_name: String, commit_sha1: String)
    ensures
        (Query::SpanData { span, workload_name, commit_sha1 }).sql_text() == "SELECT data.self_time, data.time, data.call_count FROM data
    INNER JOIN runs ON data.run_uuid = runs.uuid
    INNER JOIN workloads ON runs.workload_invocation_uuid = workloads.uuid
    INNER JOIN invocations ON workloads.invocation_uuid = invocations.uuid
    WHERE data.span = "@ + "?"@ + "
    AND workloads.name = "@ + "?"@ + "
    AND invocations.commit_sha1 = "@ + "?"@ + "
    AND invocations.status = "@ + "?"@,
        (Query::SpanData { span, workload_name, commit_sha1 }).binds() == seq![
            ValueView::Text(span@),
            ValueView::Text(workload_name@),
            ValueView::Text(commit_sha1@),
            ValueView::Text("completed"@),
        ],
{
    reveal_strlit("SELECT data.self_time, data.time, data.call_count FROM data
    INNER JOIN runs ON data.run_uuid = runs.uuid
    INNER JOIN workloads ON runs.workload_invocation_uuid = workloads.uuid
    INNER JOIN invocations ON workloads.invocation_uuid = invocations.uuid
    WHERE data.span = ?
    AND workloads.name = ?
    AND invocations.commit_sha1 = ?
    AND invocations.status = ?");
    reveal_strlit("SELECT data.self_time, data.time, data.call_count FROM data
    INNER JOIN runs ON data.run_uuid = runs.uuid
    INNER JOIN workloads ON runs.workload_invocation_uuid = workloads.uuid
    INNER JOIN invocations ON workloads.invocation_uuid = invocations.uuid
    WHERE data.span = ");
    reveal_strlit("
    AND workloads.name = ");
    reveal_strlit("
    AND invocations.commit_sha1 = ");
    reveal_strlit("
    AND invocations.status = ");
    reveal_strlit("?");
    assert((Query::SpanData { span, workload_name, commit_sha1 }).sql_text() =~= "SELECT data.self_time, data.time, data.call_count FROM data
    INNER JOIN runs ON data.run_uuid = runs.uuid
    INNER JOIN workloads ON runs.workload_invocation_uuid = workloads.uuid
    INNER JOIN invocations ON workloads.invocation_uuid = invocations.uuid
    WHERE data.span = "@ + "?"@ + "
    AND workloads.name = "@ + "?"@ + "
    AND invocations.commit_sha1 = "@ + "?"@ + "
    AND invocations.status = "@ + "?"@);
}

/// The latest commits of a workload are other than the given one, completed, and the latest by date
/// first.
pub proof fn latest_commits_are_selected(workload_name: String, before: String, count: u32)
    ensures
        (Query::LatestCommits { workload_name, before, count }).sql_text() == "SELECT commits.sha1, commits.date, commits.message FROM workloads
            INNER JOIN invocations ON workloads.invocation_uuid = invocations.uuid
            INNER JOIN commits ON commits.sha1 = invocations.commit_sha1
            WHERE workloads.name = "@ + "?"@ + "
            AND commits.sha1 != "@ + "?"@ + "
            AND invocations.status = "@ + "?"@ + "
            ORDER BY commits.date DESC
            LIMIT "@ + "?"@,
        (Query::LatestCommits { workload_name, before, count }).binds() == seq![
            ValueView::Text(workload_name@),
            ValueView::Text(before@),
            ValueView::Text("completed"@),
            ValueView::Unsigned(count),
        ],
{
    reveal_strlit("SELECT commits.sha1, commits.date, commits.message FROM workloads
            INNER JOIN invocations ON workloads.invocation_uuid = invocations.uuid
            INNER JOIN commits ON commits.sha1 = invocations.commit_sha1
            WHERE workloads.name = ?
            AND commits.sha1 != ?
            AND invocations.status = ?
            ORDER BY commits.date DESC
            LIMIT ?");
    reveal_strlit("SELECT commits.sha1, commits.date, commits.message FROM workloads
            INNER JOIN invocations ON workloads.invocation_uuid = invocations.uuid
            INNER JOIN commits ON commits.sha1 = invocations.commit_sha1
            WHERE workloads.name = ");
    reveal_strlit("
            AND commits.sha1 != ");
    reveal_strlit("
            AND invocations.status = ");
    reveal_strlit("
            ORDER BY commits.date DESC
            LIMIT ");
    reveal_strlit("?");
    assert((Query::LatestCommits { workload_name, before, count }).sql_text() =~= "SELECT commits.sha1, commits.date, commits.message FROM workloads
            INNER JOIN invocations ON workloads.invocation_uuid = invocations.uuid
            INNER JOIN commits ON commits.sha1 = invocations.commit_sha1
            WHERE workloads.name = "@ + "?"@ + "
            AND commits.sha1 != "@ + "?"@ + "
            AND invocations.status = "@ + "?"@ + "
            ORDER BY commits.date DESC
            LIMIT "@ + "?"@);
}

/// The commit of a tag is the latest by date on which the workload completed under that tag.
pub proof fn tagged_commit_is_selected(workload_name: String, tag: String)
    ensures
        (Query::TaggedCommit { workload_name, tag }).sql_text() == "SELECT commits.sha1 FROM commits
        INNER JOIN workloads ON invocations.uuid = workloads.invocation_uuid
        INNER JOIN invocations ON commits.sha1 = invocations.commit_sha1
    WHERE workloads.name = "@ + "?"@ + " AND invocations.tag = "@ + "?"@ + " AND invocations.status = "@ + "?"@ + "
    GROUP BY commits.sha1
    ORDER BY commits.date DESC
    LIMIT 1"@,
        (Query::TaggedCommit { workload_name, tag }).binds() == seq![
            ValueView::Text(workload_name@),
            ValueView::Text(tag@),
            ValueView::Text("completed"@),
        ],
{
    reveal_strlit("SELECT commits.sha1 FROM commits
        INNER JOIN workloads ON invocations.uuid = workloads.invocation_uuid
        INNER JOIN invocations ON commits.sha1 = invocations.commit_sha1
    WHERE workloads.name = ? AND invocations.tag = ? AND invocations.status = ?
    GROUP BY commits.sha1
    ORDER BY commits.date DESC
    LIMIT 1");
    reveal_strlit("SELECT commits.sha1 FROM commits
        INNER JOIN workloads ON invocations.uuid = workloads.invocation_uuid
        INNER JOIN invocations ON commits.sha1 = invocations.commit_sha1
    WHERE workloads.name = ");
    reveal_strlit(" AND invocations.tag = ");
    reveal_strlit(" AND invocations.status = ");
    reveal_strlit("
    GROUP BY commits.sha1
    ORDER BY commits.date DESC
    LIMIT 1");
    reveal_strlit("?");
    assert((Query::TaggedCommit { workload_name, tag }).sql_text() =~= "SELECT commits.sha1 FROM commits
        INNER JOIN workloads ON invocations.uuid = workloads.invocation_uuid
        INNER JOIN invocations ON commits.sha1 = invocations.commit_sha1
    WHERE workloads.name = "@ + "?"@ + " AND invocations.tag = "@ + "?"@ + " AND invocations.status = "@ + "?"@ + "
    GROUP BY commits.sha1
    ORDER BY commits.date DESC
    LIMIT 1"@);
}

/// The date of a commit is looked up on its branch, in completed invocations.
pub proof fn commit_date_is_selected(branch: String, sha1: String)
    ensures
        (Query::CommitDate { branch, sha1 }).sql_text() == "SELECT commits.date FROM commits
        INNER JOIN invocations ON commits.sha1 = invocations.commit_sha1
        WHERE invocations.branch = "@ + "?"@ + "
        AND commits.sha1 = "@ + "?"@ + "
        AND invocations.status = "@ + "?"@,
        (Query::CommitDate { branch, sha1 }).binds() == seq![
            ValueView::Text(branch@),
            ValueView::Text(sha1@),
            ValueView::Text("completed"@),
        ],
{
    reveal_strlit("SELECT commits.date FROM commits
        INNER JOIN invocations ON commits.sha1 = invocations.commit_sha1
        WHERE invocations.branch = ?
        AND commits.sha1 = ?
        AND invocations.status = ?");
    reveal_strlit("SELECT commits.date FROM commits
        INNER JOIN invocations ON commits.sha1 = invocations.commit_sha1
        WHERE invocations.branch = ");
    reveal_strlit("
        AND commits.sha1 = ");
    reveal_strlit("
        AND invocations.status = ");
    reveal_strlit("?");
    assert((Query::CommitDate { branch, sha1 }).sql_text() =~= "SELECT commits.date FROM commits
        INNER JOIN invocations ON commits.sha1 = invocations.commit_sha1
        WHERE invocations.branch = "@ + "?"@ + "
        AND commits.sha1 = "@ + "?"@ + "
        AND invocations.status = "@ + "?"@);
}

/// The commits of a branch before a date are those on which the workload completed, the latest
/// first.
pub proof fn earlier_branch_commits_are_selected(workload_name: String, branch: String, date: String, count: u32)
    ensures
        (Query::BranchCommitsBefore { workload_name, branch, date, count }).sql_text() == "SELECT commits.sha1, commits.date, commits.message FROM invocations
        INNER JOIN workloads ON invocations.uuid = workloads.invocation_uuid
        INNER JOIN commits ON invocations.commit_sha1 = commits.sha1
        WHERE workloads.name = "@ + "?"@ + " AND invocations.branch = "@ + "?"@ + " AND commits.date < "@ + "?"@ + " AND invocations.status = "@ + "?"@ + "
        GROUP BY commits.sha1
        ORDER BY commits.date DESC
        LIMIT "@ + "?"@,
        (Query::BranchCommitsBefore { workload_name, branch, date, count }).binds() == seq![
            ValueView::Text(workload_name@),
            ValueView::Text(branch@),
            ValueView::Text(date@),
            ValueView::Text("completed"@),
            ValueView::Unsigned(count),
        ],
{
    reveal_strlit("SELECT commits.sha1, commits.date, commits.message FROM invocations
        INNER JOIN workloads ON invocations.uuid = workloads.invocation_uuid
        INNER JOIN commits ON invocations.commit_sha1 = commits.sha1
        WHERE workloads.name = ? AND invocations.branch = ? AND commits.date < ? AND invocations.status = ?
        GROUP BY commits.sha1
        ORDER BY commits.date DESC
        LIMIT ?");
    reveal_strlit("SELECT commits.sha1, commits.date, commits.message FROM invocations
        INNER JOIN workloads ON invocations.uuid = workloads.invocation_uuid
        INNER JOIN commits ON invocations.commit_sha1 = commits.sha1
        WHERE workloads.name = ");
    reveal_strlit(" AND invocations.branch = ");
    reveal_strlit(" AND commits.date < ");
    reveal_strlit(" AND invocations.status = ");
    reveal_strlit("
        GROUP BY commits.sha1
        ORDER BY commits.date DESC
        LIMIT ");
    reveal_strlit("?");
    assert((Query::BranchCommitsBefore { workload_name, branch, date, count }).sql_text() =~= "SELECT commits.sha1, commits.date, commits.message FROM invocations
        INNER JOIN workloads ON invocations.uuid = workloads.invocation_uuid
        INNER JOIN commits ON invocations.commit_sha1 = commits.sha1
        WHERE workloads.name = "@ + "?"@ + " AND invocations.branch = "@ + "?"@ + " AND commits.date < "@ + "?"@ + " AND invocations.status = "@ + "?"@ + "
        GROUP BY commits.sha1
        ORDER BY commits.date DESC
        LIMIT "@ + "?"@);
}

/// The commits of a branch are those on which the workload completed, the latest first.
pub proof fn branch_commits_are_selected(workload_name: String, branch: String, count: u32)
    ensures
        (Query::BranchCommits { workload_name, branch, count }).sql_text() == "SELECT commits.sha1 FROM commits
        INNER JOIN workloads ON invocations.uuid = workloads.invocation_uuid
        INNER JOIN invocations ON commits.sha1 = invocations.commit_sha1
        WHERE workloads.name = "@ + "?"@ + " AND invocations.branch = "@ + "?"@ + " AND invocations.status = "@ + "?"@ + "
        GROUP BY commits.sha1
        ORDER BY commits.date DESC
        LIMIT "@ + "?"@,
        (Query::BranchCommits { workload_name, branch, count }).binds() == seq![
            ValueView::Text(workload_name@),
            ValueView::Text(branch@),
            ValueView::Text("completed"@),
            ValueView::Unsigned(count),
        ],
{
    reveal_strlit("SELECT commits.sha1 FROM commits
        INNER JOIN workloads ON invocations.uuid = workloads.invocation_uuid
        INNER JOIN invocations ON commits.sha1 = invocations.commit_sha1
        WHERE workloads.name = ? AND invocations.branch = ? AND invocations.status = ?
        GROUP BY commits.sha1
        ORDER BY commits.date DESC
        LIMIT ?");
    reveal_strlit("SELECT commits.sha1 FROM commits
        INNER JOIN workloads ON invocations.uuid = workloads.invocation_uuid
        INNER JOIN invocations ON commits.sha1 = invocations.commit_sha1
        WHERE workloads.name = ");
    reveal_strlit(" AND invocations.branch = ");
    reveal_strlit(" AND invocations.status = ");
    reveal_strlit("
        GROUP BY commits.sha1
        ORDER BY commits.date DESC
        LIMIT ");
    reveal_strlit("?");
    assert((Query::BranchCommits { workload_name, branch, count }).sql_text() =~= "SELECT commits.sha1 FROM commits
        INNER JOIN workloads ON invocations.uuid = workloads.invocation_uuid
        INNER JOIN invocations ON commits.sha1 = invocations.commit_sha1
        WHERE workloads.name = "@ + "?"@ + " AND invocations.branch = "@ + "?"@ + " AND invocations.status = "@ + "?"@ + "
        GROUP BY commits.sha1
        ORDER BY commits.date DESC
        LIMIT "@ + "?"@);
}

/// The tables, with their columns and what their rows refer to. A table that is there is not
/// created again.
pub proof fn tables_have_their_columns(table: Table)
    ensures
        (Query::CreateTable { table }).sql_text() == (match table {
            Table::Machines => "CREATE TABLE IF NOT EXISTS machines (
            hostname TEXT PRIMARY KEY
        );"@,
            Table::Commits => "CREATE TABLE IF NOT EXISTS commits (
            sha1 TEXT PRIMARY KEY,
            date TEXT NOT NULL,
            message TEXT NOT NULL
        );"@,
            Table::Invocations => "CREATE TABLE IF NOT EXISTS invocations (
            uuid TEXT PRIMARY KEY,
            commit_sha1 TEXT NOT NULL,
            machine_hostname TEXT NOT NULL,
            reason TEXT,
            tag TEXT,
            branch TEXT,
            status TEXT NOT NULL,
            failure_reason TEXT,
            max_workloads INTEGER NOT NULL,
            FOREIGN KEY (commit_sha1) REFERENCES commits(sha1),
            FOREIGN KEY (machine_hostname) REFERENCES machines(hostname)
        );"@,
            Table::Workloads => "CREATE TABLE IF NOT EXISTS workloads (
            uuid TEXT PRIMARY KEY,
            name TEXT NOT NULL,
            invocation_uuid TEXT NOT NULL,
            max_runs INTEGER NOT NULL,
            FOREIGN KEY (invocation_uuid) REFERENCES invocations(uuid)
        );"@,
            Table::Runs => "CREATE TABLE IF NOT EXISTS runs (
            uuid TEXT PRIMARY KEY,
            workload_invocation_uuid TEXT NOT NULL,
            FOREIGN KEY (workload_invocation_uuid) REFERENCES workloads(uuid)
        );"@,
            Table::Data => "CREATE TABLE IF NOT EXISTS data (
            span TEXT NOT NULL,
            self_time INTEGER NOT NULL,
            time INTEGER NOT NULL,
            call_count INTEGER NOT NULL,
            run_uuid TEXT NOT NULL,
            FOREIGN KEY (run_uuid) REFERENCES runs(uuid)
        );"@,
        }),
        (Query::CreateTable { table }).binds() == Seq::<ValueView>::empty(),
{
}

/// Which rows a statement gives: how many columns they have, and which of them hold a text, a text
/// that may be missing, a count or another number. What only changes the database gives none.
pub proof fn rows_have_the_columns_selected(query: Query, row: Row)
    ensures
        ({
            ||| query is ListMachines
            ||| query is FindMachine
            ||| query is RunningInvocations
            ||| query is LatestCommits
            ||| query is TaggedCommit
            ||| query is CommitDate
            ||| query is BranchCommitsBefore
            ||| query is BranchCommits
        }) ==> (row.fits(query.spec_columns()) <==> {
            &&& row.cells@.len() == 1
            &&& row.cells@[0] is Text
        }),
        ({
            ||| query is CountMachines
            ||| query is CountInvocations
            ||| query is CountWorkloads
        }) ==> (row.fits(query.spec_columns()) <==> {
            &&& row.cells@.len() == 1
            &&& row.cells@[0] is Signed
        }),
        ({
            ||| query is CountRuns
            ||| query is CountWorkloadsOf
            ||| query is MaxWorkloads
        }) ==> (row.fits(query.spec_columns()) <==> {
            &&& row.cells@.len() == 1
            &&& row.cells@[0] is Unsigned
        }),
        ({
            ||| query is InvocationStatus
            ||| query is DeadlineStatus
        }) ==> (row.fits(query.spec_columns()) <==> {
            &&& row.cells@.len() == 2
            &&& row.cells@[0] is Text
            &&& row.cells@[1] is OptionalText
        }),
        query is FindWorkload ==> (row.fits(query.spec_columns()) <==> {
            &&& row.cells@.len() == 2
            &&& row.cells@[0] is Unsigned
            &&& row.cells@[1] is Text
        }),
        query is LatestWorkload ==> (row.fits(query.spec_columns()) <==> {
            &&& row.cells@.len() == 3
            &&& row.cells@[0] is Text
            &&& row.cells@[1] is Text
            &&& row.cells@[2] is Unsigned
        }),
        ({
            ||| query is ListInvocations
            ||| query is LatestInvocations
        }) ==> (row.fits(query.spec_columns()) <==> {
            &&& row.cells@.len() == 9
            &&& row.cells@[0] is Text
            &&& row.cells@[1] is Text
            &&& row.cells@[2] is Text
            &&& row.cells@[3] is OptionalText
            &&& row.cells@[4] is OptionalText
            &&& row.cells@[5] is OptionalText
            &&& row.cells@[6] is Text
            &&& row.cells@[7] is OptionalText
            &&& row.cells@[8] is Unsigned
        }),
        query is FindInvocation ==> (row.fits(query.spec_columns()) <==> {
            &&& row.cells@.len() == 8
            &&& row.cells@[0] is Text
            &&& row.cells@[1] is Text
            &&& row.cells@[2] is OptionalText
            &&& row.cells@[3] is OptionalText
            &&& row.cells@[4] is OptionalText
            &&& row.cells@[5] is Text
            &&& row.cells@[6] is OptionalText
            &&& row.cells@[7] is Unsigned
        }),
        query is ListWorkloads ==> (row.fits(query.spec_columns()) <==> {
            &&& row.cells@.len() == 3
            &&& row.cells@[0] is Text
            &&& row.cells@[1] is Text
            &&& row.cells@[2] is Text
        }),
        query is LatestCompleted ==> (row.fits(query.spec_columns()) <==> {
            &&& row.cells@.len() == 5
            &&& row.cells@[0] is Text
            &&& row.cells@[1] is Text
            &&& row.cells@[2] is Text
            &&& row.cells@[3] is OptionalText
            &&& row.cells@[4] is OptionalText
        }),
        query is CommitData ==> (row.fits(query.spec_columns()) <==> {
            &&& row.cells@.len() == 4
            &&& row.cells@[0] is Text
            &&& row.cells@[1] is Signed
            &&& row.cells@[2] is Signed
            &&& row.cells@[3] is Signed
        }),
        query is SpanData ==> (row.fits(query.spec_columns()) <==> {
            &&& row.cells@.len() == 3
            &&& row.cells@[0] is Signed
            &&& row.cells@[1] is Signed
            &&& row.cells@[2] is Signed
        }),
        ({
            ||| query is CreateTable
            ||| query is InsertMachine
            ||| query is InsertCommit
            ||| query is InsertInvocation
            ||| query is SetStatus
            ||| query is SetFailure
            ||| query is InsertWorkload
            ||| query is InsertRun
            ||| query is InsertData
        }) ==> (row.fits(query.spec_columns()) <==> {
            &&& row.cells@.len() == 0
        }),
{
    let columns = query.spec_columns();
    if row.cells@.len() == columns.len() {
        assert forall|i: int| 0 <= i < columns.len() implies {
            &&& row.cells@[i] is Text <==> (#[trigger] row.cells[i]).kind() == Column::Text
            &&& row.cells@[i] is OptionalText <==> row.cells[i].kind() == Column::OptionalText
            &&& row.cells@[i] is Unsigned <==> row.cells[i].kind() == Column::Unsigned
            &&& row.cells@[i] is Signed <==> row.cells[i].kind() == Column::Signed
        } by {}
        if row.fits(columns) {
            assert forall|i: int| 0 <= i < columns.len() implies row.cells@[i].kind()
                == #[trigger] columns[i] by {
                assert(row.cells[i].kind() == columns[i]);
            }
        }
    }
}

/// A value is bound as what it is.
pub proof fn values_are_bound_as_they_are(value: Value)
    ensures
        value matches Value::Text(text) ==> value@ == ValueView::Text(text@),
        value matches Value::OptionalText(Some(text)) ==> value@ == ValueView::OptionalText(
            Some(text@),
        ),
        value matches Value::OptionalText(None) ==> value@ == ValueView::OptionalText(None),
        value matches Value::Unsigned(n) ==> value@ == ValueView::Unsigned(n),
        value matches Value::Signed(n) ==> value@ == ValueView::Signed(n),
{
}

} // verus!
