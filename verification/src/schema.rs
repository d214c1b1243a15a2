//! Setting up the database.

use crate::error::Failure;
use crate::flow::{Flow, Reply, Request};
use crate::query::{Query, Row, Table};
use vstd::prelude::*;

verus! {

/// The tables in the order in which they are created: every table comes after those that it
/// refers to.
pub open spec fn table_order() -> Seq<Table> {
    seq![
        Table::Machines,
        Table::Commits,
        Table::Invocations,
        Table::Workloads,
        Table::Runs,
        Table::Data,
    ]
}

/// A row of `table` refers to a row of `other`.
pub open spec fn refers_to(table: Table, other: Table) -> bool {
    match table {
        Table::Machines => false,
        Table::Commits => false,
        Table::Invocations => other == Table::Commits || other == Table::Machines,
        Table::Workloads => other == Table::Invocations,
        Table::Runs => other == Table::Workloads,
        Table::Data => other == Table::Runs,
    }
}

impl Table {
    /// The table that is created next.
    pub open spec fn successor(self) -> Option<Table> {
        match self {
            Table::Machines => Some(Table::Commits),
            Table::Commits => Some(Table::Invocations),
            Table::Invocations => Some(Table::Workloads),
            Table::Workloads => Some(Table::Runs),
            Table::Runs => Some(Table::Data),
            Table::Data => None,
        }
    }

    /// The number of tables that are created from this one on.
    pub open spec fn tables_left(self) -> nat {
        match self {
            Table::Machines => 6,
            Table::Commits => 5,
            Table::Invocations => 4,
            Table::Workloads => 3,
            Table::Runs => 2,
            Table::Data => 1,
        }
    }

    /// What is being done while the table is created.
    pub open spec fn creating(self) -> Seq<char> {
        match self {
            Table::Machines => "creating machines table"@,
            Table::Commits => "creating commits table"@,
            Table::Invocations => "creating invocations table"@,
            Table::Workloads => "creating workloads table"@,
            Table::Runs => "creating runs table"@,
            Table::Data => "creating data table"@,
        }
    }

    /// The table that is created next.
    pub fn next(&self) -> (next: Option<Table>)
        ensures
            next == self.successor(),
    {
        match self {
            Table::Machines => Some(Table::Commits),
            Table::Commits => Some(Table::Invocations),
            Table::Invocations => Some(Table::Workloads),
            Table::Workloads => Some(Table::Runs),
            Table::Runs => Some(Table::Data),
            Table::Data => None,
        }
    }

    /// What is being done while the table is created.
    fn context(&self) -> (context: &'static str)
        ensures
            context@ == self.creating(),
    {
        match self {
            Table::Machines => "creating machines table",
            Table::Commits => "creating commits table",
            Table::Invocations => "creating invocations table",
            Table::Workloads => "creating workloads table",
            Table::Runs => "creating runs table",
            Table::Data => "creating data table",
        }
    }
}

/// Creating the tables that are missing.
pub enum CreateTables {
    Creating(Table),
    Finished(Result<(), Failure>),
}

/// How setting up the database begins.
pub open spec fn setting_up_starts(flow: CreateTables) -> bool {
    flow == CreateTables::Creating(table_order()[0])
}

/// Creates the tables that are missing, one after another.
pub fn create_tables() -> (flow: CreateTables)
    ensures
        setting_up_starts(flow),
{
    CreateTables::Creating(Table::Machines)
}

impl Flow for CreateTables {
    type Output = Result<(), Failure>;

    open spec fn pending(&self) -> Option<Request> {
        match self {
            CreateTables::Creating(table) => Some(
                Request::Execute(Query::CreateTable { table: *table }),
            ),
            CreateTables::Finished(_) => None,
        }
    }

    open spec fn result(&self) -> Option<Result<(), Failure>> {
        match self {
            CreateTables::Finished(outcome) => Some(*outcome),
            _ => None,
        }
    }

    open spec fn leads_to(self, reply: Reply, next: Self) -> bool {
        match (self, reply) {
            (CreateTables::Creating(table), Reply::Failed(error)) => {
                &&& next matches CreateTables::Finished(Err(e))
                &&& e@ == seq![table.creating()] + error@
            },
            (CreateTables::Creating(table), _) => match table.successor() {
                Some(t) => next == CreateTables::Creating(t),
                None => next == CreateTables::Finished(Ok(())),
            },
            _ => next == self,
        }
    }

    open spec fn distance(&self) -> (nat, nat, nat) {
        match self {
            CreateTables::Creating(table) => (table.tables_left(), 0, 0),
            CreateTables::Finished(_) => (0, 0, 0),
        }
    }

    proof fn waits_or_ended(&self) {
    }

    proof fn gets_closer(self, reply: Reply, next: Self) {
    }

    fn request(&self) -> (request: Option<Request>) {
        match self {
            CreateTables::Creating(table) => Some(
                Request::Execute(Query::CreateTable { table: *table }),
            ),
            CreateTables::Finished(_) => None,
        }
    }

    fn resume(self, reply: Reply) -> (next: Self) {
        match (self, reply) {
            (CreateTables::Creating(table), Reply::Failed(error)) => CreateTables::Finished(
                Err(error.context(table.context())),
            ),
            (CreateTables::Creating(table), _) => match table.next() {
                Some(t) => CreateTables::Creating(t),
                None => CreateTables::Finished(Ok(())),
            },
            (flow, _) => flow,
        }
    }

    fn finish(self) -> (output: Result<(), Failure>) {
        match self {
            CreateTables::Finished(outcome) => outcome,
            _ => vstd::pervasive::unreached(),
        }
    }
}

/// Every table is created, each once, and none before a table that it refers to.
pub proof fn tables_follow_what_they_refer_to(table: Table, other: Table)
    ensures
        exists|i: int| 0 <= i < table_order().len() && #[trigger] table_order()[i] == table,
        table_order().no_duplicates(),
        forall|i: int|
            0 <= i < table_order().len() - 1 ==> (#[trigger] table_order()[i]).successor() == Some(
                table_order()[i + 1],
            ),
        table_order().last().successor() is None,
        refers_to(table, other) ==> table_order().index_of(other) < table_order().index_of(table),
{
    let order = table_order();
    assert(order[0] == Table::Machines && order[1] == Table::Commits);
    assert(order[2] == Table::Invocations && order[3] == Table::Workloads);
    assert(order[4] == Table::Runs && order[5] == Table::Data);
    assert(order.no_duplicates());
    assert(order.contains(table) && order.contains(other));
}

/// How every statement that creates a table begins.
pub const IF_MISSING: &'static str = "CREATE TABLE IF NOT EXISTS ";

/// Setting up the database only creates tables, and only those that are missing: no statement of
/// it changes a table that is there.
pub proof fn only_missing_tables_are_created(flow: CreateTables)
    requires
        flow.pending() is Some,
    ensures
        flow.pending() matches Some(Request::Execute(query)) && {
            &&& query is CreateTable
            &&& query.sql_text().len() > IF_MISSING@.len()
            &&& query.sql_text().take(IF_MISSING@.len() as int) == IF_MISSING@
            &&& query.binds().len() == 0
        },
{
    reveal_strlit("CREATE TABLE IF NOT EXISTS ");
    if let CreateTables::Creating(table) = flow {
        match table {
            Table::Machines => reveal_strlit("CREATE TABLE IF NOT EXISTS machines (
            hostname TEXT PRIMARY KEY
        );"),
            Table::Commits => reveal_strlit("CREATE TABLE IF NOT EXISTS commits (
            sha1 TEXT PRIMARY KEY,
            date TEXT NOT NULL,
            message TEXT NOT NULL
        );"),
            Table::Invocations => reveal_strlit("CREATE TABLE IF NOT EXISTS invocations (
            uuid TEXT PRIMARY KEY,
            commit_sha1 TEXT NOT NULL,
            machine_hostname TEXT NOT NULL,
            reason TEXT,
            tag TEXT,
            branch TEXT,
            status TEXT NOT NULL,
            failure_reason TEXT,
            max_workloads INTEGER NOT NULL,
            FOREIGN KEY (commit_sha1) REFERENCES commits(sha1),
            FOREIGN KEY (machine_hostname) REFERENCES machines(hostname)
        );"),
            Table::Workloads => reveal_strlit("CREATE TABLE IF NOT EXISTS workloads (
            uuid TEXT PRIMARY KEY,
            name TEXT NOT NULL,
            invocation_uuid TEXT NOT NULL,
            max_runs INTEGER NOT NULL,
            FOREIGN KEY (invocation_uuid) REFERENCES invocations(uuid)
        );"),
            Table::Runs => reveal_strlit("CREATE TABLE IF NOT EXISTS runs (
            uuid TEXT PRIMARY KEY,
            workload_invocation_uuid TEXT NOT NULL,
            FOREIGN KEY (workload_invocation_uuid) REFERENCES workloads(uuid)
        );"),
            Table::Data => reveal_strlit("CREATE TABLE IF NOT EXISTS data (
            span TEXT NOT NULL,
            self_time INTEGER NOT NULL,
            time INTEGER NOT NULL,
            call_count INTEGER NOT NULL,
            run_uuid TEXT NOT NULL,
            FOREIGN KEY (run_uuid) REFERENCES runs(uuid)
        );"),
        }
        let text = (Query::CreateTable { table }).sql_text();
        assert(text.take(IF_MISSING@.len() as int) =~= IF_MISSING@);
    }
}

/// The tables of a database, each with its rows, after one was created that may be there: as it is
/// created only if it is missing, a table that is there stays as it is, and a new one is empty.
pub open spec fn with_table(tables: Map<Table, Seq<Row>>, table: Table) -> Map<Table, Seq<Row>> {
    if tables.contains_key(table) {
        tables
    } else {
        tables.insert(table, Seq::empty())
    }
}

/// The tables of a database after those of a list were created, one after another.
pub open spec fn with_tables(tables: Map<Table, Seq<Row>>, created: Seq<Table>) -> Map<
    Table,
    Seq<Row>,
>
    decreases created.len(),
{
    if created.len() == 0 {
        tables
    } else {
        with_table(with_tables(tables, created.drop_last()), created.last())
    }
}

/// The tables of a database that has come to a step of its setting up, if it had `tables` at the
/// beginning and no statement failed.
pub open spec fn tables_at(tables: Map<Table, Seq<Row>>, flow: CreateTables) -> Map<
    Table,
    Seq<Row>,
> {
    match flow {
        CreateTables::Creating(table) => with_tables(
            tables,
            table_order().take(6 - table.tables_left()),
        ),
        CreateTables::Finished(_) => with_tables(tables, table_order()),
    }
}

/// Every step of setting up a database creates the table that it names, beginning with the
/// database as it is found.
pub proof fn setting_up_creates_in_order(
    tables: Map<Table, Seq<Row>>,
    table: Table,
    rows: u64,
    next: CreateTables,
)
    requires
        CreateTables::Creating(table).leads_to(Reply::Executed(rows), next),
    ensures
        tables_at(tables, CreateTables::Creating(table_order()[0])) == tables,
        tables_at(tables, next) == with_table(
            tables_at(tables, CreateTables::Creating(table)),
            table,
        ),
{
    let order = table_order();
    let done = 6 - table.tables_left();
    assert(order.take(0) =~= Seq::empty());
    assert(order.take(6) =~= order);
    assert(order.take(done + 1).drop_last() =~= order.take(done));
    assert(order.take(done + 1).last() == table);
}

/// Creating tables keeps the rows of those that are there.
proof fn creating_keeps_rows(tables: Map<Table, Seq<Row>>, created: Seq<Table>, table: Table)
    ensures
        with_tables(tables, created).contains_key(table) <==> tables.contains_key(table)
            || created.contains(table),
        with_tables(tables, created).contains_key(table) ==> with_tables(tables, created)[table]
            == (if tables.contains_key(table) {
            tables[table]
        } else {
            Seq::empty()
        }),
    decreases created.len(),
{
    if created.len() > 0 {
        let shorter = created.drop_last();
        creating_keeps_rows(tables, shorter, table);
        if created.contains(table) {
            let i = choose|i: int| 0 <= i < created.len() && created[i] == table;
            if i < shorter.len() {
                assert(shorter[i] == table);
            }
        }
        if shorter.contains(table) {
            let i = choose|i: int| 0 <= i < shorter.len() && shorter[i] == table;
            assert(created[i] == table);
        }
        assert(created[created.len() - 1] == created.last());
    }
}

/// Once a database is set up it has all tables. Those that it had before hold the rows that they
/// held, and the others are empty; so setting it up again changes nothing.
pub proof fn setting_up_keeps_every_row(tables: Map<Table, Seq<Row>>, table: Table)
    ensures
        with_tables(tables, table_order()).contains_key(table),
        with_tables(tables, table_order())[table] == (if tables.contains_key(table) {
            tables[table]
        } else {
            Seq::empty()
        }),
        with_tables(with_tables(tables, table_order()), table_order()) == with_tables(
            tables,
            table_order(),
        ),
{
    let once = with_tables(tables, table_order());
    let twice = with_tables(once, table_order());
    assert forall|t: Table|
        #![trigger twice.contains_key(t)]
        #![trigger once.contains_key(t)]
        {
            &&& once.contains_key(t)
            &&& twice.contains_key(t)
            &&& twice[t] == once[t]
        } by {
        tables_follow_what_they_refer_to(t, t);
        assert(table_order().contains(t));
        creating_keeps_rows(tables, table_order(), t);
        creating_keeps_rows(once, table_order(), t);
    }
    assert(twice =~= once);
    creating_keeps_rows(tables, table_order(), table);
    assert(once.contains_key(table));
}

/// Setting up creates the six tables, the machines first and the measurements last, and has then
/// succeeded; or it ends with the first failure, which says what table it was.
pub proof fn six_tables_are_created(
    states: Seq<CreateTables>,
    replies: Seq<Reply>,
)
    requires
        crate::flow::is_talk(states, replies),
        setting_up_starts(states[0]),
    ensures
        states[0].pending() == Some(Request::Execute(Query::CreateTable { table: Table::Machines })),
        replies.len() > 0 ==> (replies[0] matches Reply::Failed(error) ==> {
            &&& states[1].result() matches Some(Err(e))
            &&& e@ == seq!["creating machines table"@] + error@
        }),
        replies.len() > 0 && replies[0] is Executed ==> states[1].pending() == Some(
            Request::Execute(Query::CreateTable { table: Table::Commits }),
        ),
        replies.len() > 1 && replies[0] is Executed ==> (replies[1] matches Reply::Failed(error)
            ==> {
            &&& states[2].result() matches Some(Err(e))
            &&& e@ == seq!["creating commits table"@] + error@
        }),
        replies.len() > 1 && replies[0] is Executed && replies[1] is Executed
            ==> states[2].pending() == Some(
            Request::Execute(Query::CreateTable { table: Table::Invocations }),
        ),
        replies.len() > 2 && replies[0] is Executed && replies[1] is Executed ==> (
        replies[2] matches Reply::Failed(error) ==> {
            &&& states[3].result() matches Some(Err(e))
            &&& e@ == seq!["creating invocations table"@] + error@
        }),
        replies.len() > 2 && replies[0] is Executed && replies[1] is Executed
            && replies[2] is Executed ==> states[3].pending() == Some(
            Request::Execute(Query::CreateTable { table: Table::Workloads }),
        ),
        replies.len() > 3 && replies[0] is Executed && replies[1] is Executed
            && replies[2] is Executed ==> (replies[3] matches Reply::Failed(error) ==> {
            &&& states[4].result() matches Some(Err(e))
            &&& e@ == seq!["creating workloads table"@] + error@
        }),
        replies.len() > 3 && replies[0] is Executed && replies[1] is Executed
            && replies[2] is Executed && replies[3] is Executed ==> states[4].pending() == Some(
            Request::Execute(Query::CreateTable { table: Table::Runs }),
        ),
        replies.len() > 4 && replies[0] is Executed && replies[1] is Executed
            && replies[2] is Executed && replies[3] is Executed ==> (
        replies[4] matches Reply::Failed(error) ==> {
            &&& states[5].result() matches Some(Err(e))
            &&& e@ == seq!["creating runs table"@] + error@
        }),
        replies.len() > 4 && replies[0] is Executed && replies[1] is Executed
            && replies[2] is Executed && replies[3] is Executed && replies[4] is Executed
            ==> states[5].pending() == Some(
            Request::Execute(Query::CreateTable { table: Table::Data }),
        ),
        replies.len() > 5 && replies[0] is Executed && replies[1] is Executed
            && replies[2] is Executed && replies[3] is Executed && replies[4] is Executed ==> {
            &&& replies[5] matches Reply::Failed(error) ==> {
                &&& states[6].result() matches Some(Err(e))
                &&& e@ == seq!["creating data table"@] + error@
            }
            &&& replies[5] is Executed ==> {
                &&& states[6].result() matches Some(Ok(_))
                &&& states[6].pending() is None
            }
        },
{
    if replies.len() > 0 {
        assert(crate::flow::went_on(states, replies, 0));
    }
    if replies.len() > 1 {
        assert(crate::flow::went_on(states, replies, 1));
    }
    if replies.len() > 2 {
        assert(crate::flow::went_on(states, replies, 2));
    }
    if replies.len() > 3 {
        assert(crate::flow::went_on(states, replies, 3));
    }
    if replies.len() > 4 {
        assert(crate::flow::went_on(states, replies, 4));
    }
    if replies.len() > 5 {
        assert(crate::flow::went_on(states, replies, 5));
    }
}

} // verus!
