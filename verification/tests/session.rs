use lenso_postgres_kit::history::LedgerRow;
use lenso_postgres_kit::session::{
    Bind, Outcome, Progress, Reply, Request, RequestKind, Session, Workflow,
};
use lenso_postgres_kit::sqlx::Error;
use lenso_postgres_kit::{
    Migration, PostgresKitError, SchemaOperator, SchemaPlan, SetupOutcome, UpgradeOutcome,
};

const V1: &[Migration] = &[Migration {
    version: 1,
    name: "create-counters",
    sql: "CREATE TABLE counters (name text PRIMARY KEY, value bigint NOT NULL)",
}];
const V2: &[Migration] = &[
    Migration {
        version: 1,
        name: "create-counters",
        sql: "CREATE TABLE counters (name text PRIMARY KEY, value bigint NOT NULL)",
    },
    Migration {
        version: 2,
        name: "add-updated-at",
        sql: "ALTER TABLE counters ADD COLUMN updated_at timestamptz;\n\
         UPDATE counters SET updated_at = transaction_timestamp();\n\
         ALTER TABLE counters ALTER COLUMN updated_at SET NOT NULL",
    },
];
const DRIFTED_V1: &[Migration] = &[Migration {
    version: 1,
    name: "create-counters",
    sql: "CREATE TABLE counters (name text PRIMARY KEY, value integer NOT NULL)",
}];
const BROKEN_SETUP: &[Migration] = &[
    Migration {
        version: 1,
        name: "create-markers",
        sql: "CREATE TABLE markers (id bigint PRIMARY KEY)",
    },
    Migration {
        version: 2,
        name: "broken-statement",
        sql: "CREATE TABLE incomplete (",
    },
];

#[derive(Clone, Default)]
struct Contents {
    owner: Option<String>,
    ledger: Option<Vec<(i64, String, String)>>,
    scripts: Vec<String>,
}

/// A database that holds one schema and remembers what it was asked.
#[derive(Default)]
struct Stand {
    committed: Contents,
    working: Contents,
    asked: Vec<(&'static str, RequestKind, String)>,
}

fn text_of(bind: &Bind) -> String {
    match bind {
        Bind::Text(value) => value.clone(),
        Bind::Number(_) => panic!("a text was expected"),
    }
}

impl Stand {
    fn answer(&mut self, request: &Request) -> Reply {
        self.asked
            .push((request.operation, request.kind, request.sql.clone()));
        match request.kind {
            RequestKind::Acquire | RequestKind::Begin => {
                self.working = self.committed.clone();
                Reply::Done
            }
            RequestKind::Commit => {
                self.committed = self.working.clone();
                Reply::Done
            }
            RequestKind::FetchOptionalText => Reply::OptionalText(self.working.owner.clone()),
            RequestKind::FetchText => Reply::Text("module_role".to_owned()),
            RequestKind::FetchFlag => Reply::Flag(self.working.ledger.is_some()),
            RequestKind::FetchRows => Reply::Rows(
                self.working
                    .ledger
                    .clone()
                    .unwrap()
                    .into_iter()
                    .map(|(version, name, checksum)| LedgerRow {
                        version: Ok(version),
                        name: Ok(name),
                        checksum: Ok(checksum),
                    })
                    .collect(),
            ),
            RequestKind::Execute if request.binds.len() == 3 => {
                let version = match &request.binds[0] {
                    Bind::Number(version) => *version,
                    Bind::Text(_) => panic!("a number was expected"),
                };
                let entry = (version, text_of(&request.binds[1]), text_of(&request.binds[2]));
                self.working.ledger.as_mut().unwrap().push(entry);
                Reply::Done
            }
            RequestKind::Execute => Reply::Done,
            RequestKind::ExecuteScript => {
                if request.sql == "CREATE TABLE incomplete (" {
                    return Reply::Failed(Error::Protocol("syntax error".to_owned()));
                }
                match request.operation {
                    "create owned schema" => self.working.owner = Some("module_role".to_owned()),
                    "create migration ledger" => self.working.ledger = Some(vec![]),
                    _ => self.working.scripts.push(request.sql.clone()),
                }
                Reply::Done
            }
        }
    }

    fn drive(&mut self, mut session: Session) -> Result<Outcome, PostgresKitError> {
        loop {
            let reply = self.answer(&session.request());
            match session.advance(reply) {
                Progress::Continue(next) => session = next,
                Progress::Finished(result) => return result,
            }
        }
    }

    fn run(
        &mut self,
        workflow: Workflow,
        migrations: &'static [Migration],
    ) -> Result<Outcome, PostgresKitError> {
        self.drive(Session::begin(workflow, plan(migrations)))
    }
}

fn plan(migrations: &'static [Migration]) -> SchemaPlan {
    SchemaPlan::new("counters_module", migrations).unwrap()
}

fn next(session: Session, reply: Reply) -> Session {
    match session.advance(reply) {
        Progress::Continue(session) => session,
        Progress::Finished(_) => panic!("the session should go on"),
    }
}

fn end(session: Session, reply: Reply) -> Result<Outcome, PostgresKitError> {
    match session.advance(reply) {
        Progress::Continue(_) => panic!("the session should end"),
        Progress::Finished(result) => result,
    }
}

fn setup_outcome(result: Result<Outcome, PostgresKitError>) -> SetupOutcome {
    match result {
        Ok(Outcome::Setup(outcome)) => outcome,
        _ => panic!("setup should have succeeded"),
    }
}

fn upgrade_outcome(result: Result<Outcome, PostgresKitError>) -> UpgradeOutcome {
    match result {
        Ok(Outcome::Upgrade(outcome)) => outcome,
        _ => panic!("upgrade should have succeeded"),
    }
}

#[test]
fn setup_creates_the_complete_plan_in_order() {
    let mut stand = Stand::default();
    assert_eq!(
        setup_outcome(stand.run(Workflow::Setup, V2)),
        SetupOutcome::Created {
            version: 2,
            applied: 2
        }
    );
    let asked: Vec<(&str, RequestKind, &str)> = stand
        .asked
        .iter()
        .map(|(operation, kind, sql)| (*operation, *kind, sql.as_str()))
        .collect();
    assert_eq!(
        asked,
        vec![
            ("acquire setup connection", RequestKind::Acquire, ""),
            ("begin setup transaction", RequestKind::Begin, ""),
            (
                "lock owned schema",
                RequestKind::Execute,
                "SELECT pg_advisory_xact_lock(\nhashtextextended(current_database() || ':' || $1, 0)\n)"
            ),
            (
                "inspect schema ownership",
                RequestKind::FetchOptionalText,
                "SELECT roles.rolname::text\nFROM pg_namespace AS namespaces\nJOIN pg_roles AS roles ON roles.oid = namespaces.nspowner\nWHERE namespaces.nspname = $1"
            ),
            (
                "create owned schema",
                RequestKind::ExecuteScript,
                "CREATE SCHEMA \"counters_module\""
            ),
            (
                "create migration ledger",
                RequestKind::ExecuteScript,
                "CREATE TABLE \"counters_module\".\"_lenso_schema_migrations\" (\nversion bigint PRIMARY KEY CHECK (version > 0),\nname text NOT NULL,\nchecksum text NOT NULL,\napplied_at timestamptz NOT NULL DEFAULT transaction_timestamp()\n)"
            ),
            (
                "select owned schema",
                RequestKind::ExecuteScript,
                "SET LOCAL search_path TO \"counters_module\", pg_catalog"
            ),
            ("apply owned migration", RequestKind::ExecuteScript, V2[0].sql()),
            (
                "record owned migration",
                RequestKind::Execute,
                "INSERT INTO \"counters_module\".\"_lenso_schema_migrations\" (version, name, checksum) VALUES ($1, $2, $3)"
            ),
            ("apply owned migration", RequestKind::ExecuteScript, V2[1].sql()),
            (
                "record owned migration",
                RequestKind::Execute,
                "INSERT INTO \"counters_module\".\"_lenso_schema_migrations\" (version, name, checksum) VALUES ($1, $2, $3)"
            ),
            ("commit schema setup", RequestKind::Commit, ""),
        ]
    );
    assert_eq!(
        stand.committed.ledger,
        Some(vec![
            (1, "create-counters".to_owned(), V2[0].checksum()),
            (2, "add-updated-at".to_owned(), V2[1].checksum()),
        ])
    );
}

#[test]
fn setup_is_idempotent() {
    let mut stand = Stand::default();
    assert_eq!(
        setup_outcome(stand.run(Workflow::Setup, V1)),
        SetupOutcome::Created {
            version: 1,
            applied: 1
        }
    );
    assert_eq!(
        setup_outcome(stand.run(Workflow::Setup, V1)),
        SetupOutcome::AlreadyCurrent { version: 1 }
    );
    assert_eq!(
        upgrade_outcome(stand.run(Workflow::Upgrade, V1)),
        UpgradeOutcome::AlreadyCurrent { version: 1 }
    );
    assert!(matches!(stand.run(Workflow::Prepare, V1), Ok(Outcome::Prepared(_))));
    assert_eq!(stand.committed.ledger.unwrap().len(), 1);
}

#[test]
fn pending_migrations_wait_for_an_explicit_upgrade() {
    let mut stand = Stand::default();
    stand.run(Workflow::Setup, V1).unwrap();
    let before = stand.committed.scripts.clone();
    for workflow in [Workflow::Prepare, Workflow::Setup] {
        assert!(matches!(
            stand.run(workflow, V2),
            Err(PostgresKitError::UpgradeRequired {
                current: 1,
                expected: 2,
                ..
            })
        ));
    }
    assert_eq!(stand.committed.scripts, before);
    assert_eq!(
        upgrade_outcome(stand.run(Workflow::Upgrade, V2)),
        UpgradeOutcome::Applied {
            from: 1,
            to: 2,
            applied: 1
        }
    );
    assert!(matches!(stand.run(Workflow::Prepare, V2), Ok(Outcome::Prepared(_))));
    assert_eq!(
        stand.asked.iter().filter(|(_, _, sql)| sql == V2[0].sql()).count(),
        1
    );
}

#[test]
fn preparation_asks_only_for_reads() {
    let mut stand = Stand::default();
    stand.run(Workflow::Setup, V1).unwrap();
    stand.asked.clear();
    stand.run(Workflow::Prepare, V1).unwrap();
    let operations: Vec<&str> = stand.asked.iter().map(|(operation, _, _)| *operation).collect();
    assert_eq!(
        operations,
        vec![
            "acquire verification connection",
            "inspect schema ownership",
            "inspect current database role",
            "inspect migration ledger",
            "read migration ledger",
        ]
    );
    assert!(stand.asked[1..].iter().all(|(_, _, sql)| sql.starts_with("SELECT ")));
    assert_eq!(
        stand.asked[4].2,
        "SELECT version, name, checksum FROM \"counters_module\".\"_lenso_schema_migrations\" ORDER BY version"
    );
}

#[test]
fn drifted_checksums_are_refused_by_every_workflow() {
    let mut stand = Stand::default();
    stand.run(Workflow::Setup, V1).unwrap();
    for workflow in [Workflow::Prepare, Workflow::Setup, Workflow::Upgrade] {
        assert!(matches!(
            stand.run(workflow, DRIFTED_V1),
            Err(PostgresKitError::HistoryDiverged { version: 1, .. })
        ));
    }
}

#[test]
fn unmanaged_schemas_are_refused_by_every_workflow() {
    let mut stand = Stand::default();
    stand.committed.owner = Some("module_role".to_owned());
    for workflow in [Workflow::Prepare, Workflow::Setup, Workflow::Upgrade] {
        assert!(matches!(
            stand.run(workflow, V1),
            Err(PostgresKitError::UnmanagedSchema { schema }) if schema == "counters_module"
        ));
    }
    assert!(stand.committed.ledger.is_none());
}

#[test]
fn foreign_schemas_are_refused_by_every_workflow() {
    let mut stand = Stand::default();
    stand.committed.owner = Some("someone_else".to_owned());
    for workflow in [Workflow::Prepare, Workflow::Setup, Workflow::Upgrade] {
        assert!(matches!(
            stand.run(workflow, V1),
            Err(PostgresKitError::OwnershipMismatch { schema, owner, current_role })
                if schema == "counters_module" && owner == "someone_else" && current_role == "module_role"
        ));
    }
}

#[test]
fn missing_schemas_require_setup() {
    let mut stand = Stand::default();
    for workflow in [Workflow::Prepare, Workflow::Upgrade] {
        assert!(matches!(
            stand.run(workflow, V1),
            Err(PostgresKitError::SetupRequired { schema }) if schema == "counters_module"
        ));
    }
}

#[test]
fn a_failed_setup_commits_nothing() {
    let mut stand = Stand::default();
    assert!(matches!(
        stand.run(Workflow::Setup, BROKEN_SETUP),
        Err(PostgresKitError::Database {
            operation: "apply owned migration",
            ..
        })
    ));
    assert!(stand.committed.owner.is_none());
    assert!(stand.asked.iter().all(|(_, kind, _)| *kind != RequestKind::Commit));
}

#[test]
fn upgrade_leaves_the_ledger_that_setup_leaves() {
    let mut upgraded = Stand::default();
    upgraded.run(Workflow::Setup, V1).unwrap();
    upgraded.run(Workflow::Upgrade, V2).unwrap();
    let mut fresh = Stand::default();
    fresh.run(Workflow::Setup, V2).unwrap();
    assert_eq!(upgraded.committed.ledger, fresh.committed.ledger);
    assert_eq!(upgraded.committed.ledger.unwrap().len(), 2);
}

#[test]
fn each_script_runs_once_and_nothing_else_does() {
    let mut stand = Stand::default();
    stand.run(Workflow::Setup, V2).unwrap();
    let select = "SET LOCAL search_path TO \"counters_module\", pg_catalog";
    assert_eq!(stand.committed.scripts, vec![select, V2[0].sql(), V2[1].sql()]);
    let mut stand = Stand::default();
    stand.run(Workflow::Setup, V1).unwrap();
    stand.committed.scripts.clear();
    stand.run(Workflow::Upgrade, V2).unwrap();
    assert_eq!(stand.committed.scripts, vec![select, V2[1].sql()]);
}

#[test]
fn refused_and_current_runs_ask_for_no_change() {
    let mut stand = Stand::default();
    stand.run(Workflow::Setup, V1).unwrap();
    stand.asked.clear();
    for workflow in [Workflow::Prepare, Workflow::Setup, Workflow::Upgrade] {
        stand.run(workflow, V1).unwrap();
        assert!(stand.run(workflow, DRIFTED_V1).is_err());
    }
    stand.committed.owner = Some("someone_else".to_owned());
    for workflow in [Workflow::Prepare, Workflow::Setup, Workflow::Upgrade] {
        assert!(stand.run(workflow, V2).is_err());
    }
    assert!(stand.asked.iter().all(|(_, kind, sql)| {
        matches!(kind, RequestKind::Acquire | RequestKind::Begin) || sql.starts_with("SELECT ")
    }));
}

#[test]
fn a_failed_commit_is_an_error() {
    let session = Session::begin(Workflow::Setup, plan(V1));
    let mut session = next(next(next(session, Reply::Done), Reply::Done), Reply::Done);
    session = next(session, Reply::OptionalText(None));
    while session.request().kind != RequestKind::Commit {
        session = next(session, Reply::Done);
    }
    assert!(matches!(
        end(session, Reply::Failed(Error::PoolClosed)),
        Err(PostgresKitError::Database {
            operation: "commit schema setup",
            ..
        })
    ));
}

#[test]
fn an_older_module_refuses_a_newer_schema() {
    let mut stand = Stand::default();
    stand.run(Workflow::Setup, V2).unwrap();
    for workflow in [Workflow::Prepare, Workflow::Setup, Workflow::Upgrade] {
        assert!(matches!(
            stand.run(workflow, V1),
            Err(PostgresKitError::SchemaAhead {
                actual: 2,
                expected: 1,
                ..
            })
        ));
    }
}

#[test]
fn every_failure_names_its_operation() {
    let session = Session::begin(Workflow::Upgrade, plan(V1));
    assert!(matches!(
        end(session, Reply::Failed(Error::PoolClosed)),
        Err(PostgresKitError::Database {
            operation: "acquire upgrade connection",
            source: Error::PoolClosed
        })
    ));
    let session = next(Session::begin(Workflow::Upgrade, plan(V1)), Reply::Done);
    assert!(matches!(
        end(session, Reply::Failed(Error::PoolClosed)),
        Err(PostgresKitError::Database {
            operation: "begin upgrade transaction",
            ..
        })
    ));
}

#[test]
fn a_reply_that_was_not_asked_for_changes_nothing() {
    let session = next(Session::begin(Workflow::Prepare, plan(V1)), Reply::Flag(true));
    assert_eq!(session.request().kind, RequestKind::Acquire);
    let session = next(session, Reply::Done);
    let session = next(session, Reply::Text("role".to_owned()));
    assert_eq!(session.request().operation, "inspect schema ownership");
}

#[test]
fn given_checksums_are_recorded() {
    let session = Session::with_checksums(Workflow::Setup, plan(V1), vec!["abc".to_owned()]);
    let mut session = next(next(next(session, Reply::Done), Reply::Done), Reply::Done);
    session = next(session, Reply::OptionalText(None));
    for _ in 0..4 {
        session = next(session, Reply::Done);
    }
    let request = session.request();
    assert_eq!(request.operation, "record owned migration");
    assert!(matches!(request.binds[0], Bind::Number(1)));
    assert_eq!(text_of(&request.binds[1]), "create-counters");
    assert_eq!(text_of(&request.binds[2]), "abc");
}

#[test]
fn inspections_name_the_schema_and_the_ledger() {
    let session = next(Session::begin(Workflow::Prepare, plan(V1)), Reply::Done);
    let request = session.request();
    assert_eq!(request.binds.len(), 1);
    assert_eq!(text_of(&request.binds[0]), "counters_module");
    let session = next(session, Reply::OptionalText(Some("r".to_owned())));
    assert!(session.request().binds.is_empty());
    let session = next(session, Reply::Text("r".to_owned()));
    let request = session.request();
    assert_eq!(text_of(&request.binds[0]), "counters_module");
    assert_eq!(text_of(&request.binds[1]), "_lenso_schema_migrations");
}

#[test]
fn operators_start_setup_and_upgrade() {
    let mut stand = Stand::default();
    let operator = SchemaOperator::connected(plan(V1), 7u32);
    assert_eq!(*operator.pool(), 7);
    assert_eq!(operator.plan().schema(), "counters_module");
    assert_eq!(
        setup_outcome(stand.drive(operator.setup_session())),
        SetupOutcome::Created {
            version: 1,
            applied: 1
        }
    );
    assert_eq!(
        upgrade_outcome(stand.drive(operator.upgrade_session())),
        UpgradeOutcome::AlreadyCurrent { version: 1 }
    );
}

#[test]
fn a_run_makes_a_bounded_number_of_requests() {
    let mut stand = Stand::default();
    stand.run(Workflow::Setup, V1).unwrap();
    assert_eq!(stand.asked.len(), 10);
    stand.asked.clear();
    stand.run(Workflow::Upgrade, V2).unwrap();
    assert_eq!(stand.asked.len(), 11);
    assert!(stand.asked.len() <= 2 * V2.len() + 11);
    assert_eq!(stand.asked[10].0, "commit schema upgrade");
}
