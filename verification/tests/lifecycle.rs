use lenso_postgres_kit::sqlx::postgres::{PgConnectOptions, PgPoolOptions};
use lenso_postgres_kit::statements::{qualified_table, quote_identifier};
use lenso_postgres_kit::history::LedgerRow;
use lenso_postgres_kit::session::{Outcome, Progress, Reply, Session, Verification, Workflow};
use lenso_postgres_kit::{Migration, OwnedPostgres, PoolSettings, PostgresKitError, SchemaPlan};

const V1: &[Migration] = &[Migration {
    version: 1,
    name: "create-counters",
    sql: "SELECT 1",
}];

fn plan() -> SchemaPlan {
    SchemaPlan::new("counters_module", V1).unwrap()
}

fn prepare(rows: Vec<LedgerRow>) -> Result<Verification, PostgresKitError> {
    let mut session = Session::begin(Workflow::Prepare, plan());
    for reply in [
        Reply::Done,
        Reply::OptionalText(Some("module_role".to_owned())),
        Reply::Text("module_role".to_owned()),
        Reply::Flag(true),
        Reply::Rows(rows),
    ] {
        session = match session.advance(reply) {
            Progress::Continue(next) => next,
            Progress::Finished(Ok(Outcome::Prepared(verification))) => return Ok(verification),
            Progress::Finished(Ok(_)) => panic!("preparation ends with a verification"),
            Progress::Finished(Err(error)) => return Err(error),
        };
    }
    panic!("preparation ends with the ledger rows")
}

fn current_rows() -> Vec<LedgerRow> {
    vec![LedgerRow {
        version: Ok(1),
        name: Ok("create-counters".to_owned()),
        checksum: Ok(V1[0].checksum()),
    }]
}

#[test]
fn a_verified_pool_is_exposed() {
    let owned = OwnedPostgres::verified(prepare(current_rows()).unwrap(), 11u32);
    assert_eq!(owned.schema(), "counters_module");
    assert_eq!(owned.schema_version(), 1);
    assert_eq!(owned.plan().migrations().len(), 1);
    assert_eq!(*owned.pool(), 11);
    let copy = owned.clone();
    assert_eq!(copy.schema(), "counters_module");
    assert_eq!(*copy.pool(), 11);
}

#[test]
fn a_refused_schema_has_no_verification() {
    assert!(matches!(
        prepare(vec![]),
        Err(PostgresKitError::UpgradeRequired {
            current: 0,
            expected: 1,
            ..
        })
    ));
    let mut drifted = current_rows();
    drifted[0].checksum = Ok("drifted".to_owned());
    assert!(matches!(
        prepare(drifted),
        Err(PostgresKitError::HistoryDiverged { version: 1, .. })
    ));
}

#[test]
fn a_postgres_pool_can_be_owned() {
    let runtime = tokio::runtime::Builder::new_current_thread().build().unwrap();
    let _context = runtime.enter();
    let pool = PgPoolOptions::new()
        .max_connections(3)
        .connect_lazy_with(PgConnectOptions::new());
    let owned = OwnedPostgres::verified(prepare(current_rows()).unwrap(), pool);
    assert_eq!(owned.pool().options().get_max_connections(), 3);
}

#[test]
fn pools_are_scoped_by_their_settings() {
    let runtime = PoolSettings::runtime(&plan());
    assert_eq!(
        runtime.options,
        vec![
            ("search_path", "counters_module,pg_catalog".to_owned()),
            ("application_name", "lenso-postgres-kit".to_owned()),
        ]
    );
    assert_eq!(runtime.max_connections, None);
    assert_eq!(runtime.operation, "connect runtime pool");
    let operator = PoolSettings::operator();
    assert_eq!(
        operator.options,
        vec![("application_name", "lenso-postgres-kit-operator".to_owned())]
    );
    assert_eq!(operator.max_connections, Some(1));
    assert_eq!(operator.operation, "connect operator pool");
}

#[test]
fn identifiers_are_quoted() {
    assert_eq!(quote_identifier("orders"), "\"orders\"");
    assert_eq!(qualified_table("orders", "items"), "\"orders\".\"items\"");
}
