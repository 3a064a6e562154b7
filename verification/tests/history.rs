use lenso_postgres_kit::history::{
    check_history, decode_ledger, validate_history, AppliedMigration, LedgerRow,
};
use lenso_postgres_kit::sqlx::Error;
use lenso_postgres_kit::{Migration, PlanError, PostgresKitError, SchemaPlan};

const V1: &[Migration] = &[Migration {
    version: 1,
    name: "create-counters",
    sql: "CREATE TABLE counters (name text PRIMARY KEY, value bigint NOT NULL)",
}];

const V2: &[Migration] = &[
    Migration {
        version: 1,
        name: "create-counters",
        sql: "CREATE TABLE counters (name text PRIMARY KEY, value bigint NOT NULL)",
    },
    Migration {
        version: 2,
        name: "add-updated-at",
        sql: "ALTER TABLE counters ADD COLUMN updated_at timestamptz",
    },
];

fn plan(migrations: &'static [Migration]) -> SchemaPlan {
    SchemaPlan::new("counters_module", migrations).unwrap()
}

fn entry(migration: &Migration) -> AppliedMigration {
    AppliedMigration {
        version: migration.version(),
        name: migration.name().to_owned(),
        checksum: migration.checksum(),
    }
}

fn row(version: i64, name: &str, checksum: &str) -> LedgerRow {
    LedgerRow {
        version: Ok(version),
        name: Ok(name.to_owned()),
        checksum: Ok(checksum.to_owned()),
    }
}

#[test]
fn complete_and_partial_histories_are_accepted() {
    let newest = plan(V2);
    assert_eq!(validate_history(&newest, &[]).unwrap(), 0);
    assert_eq!(validate_history(&newest, &[entry(&V2[0])]).unwrap(), 1);
    let all = [entry(&V2[0]), entry(&V2[1])];
    assert_eq!(validate_history(&newest, &all).unwrap(), 2);
}

#[test]
fn drift_in_any_column_diverges() {
    let newest = plan(V2);
    let mut renamed = [entry(&V2[0]), entry(&V2[1])];
    renamed[1].name = "add-updated".to_owned();
    let mut edited = [entry(&V2[0]), entry(&V2[1])];
    edited[1].checksum = V2[0].checksum();
    for applied in [renamed, edited] {
        assert!(matches!(
            validate_history(&newest, &applied),
            Err(PostgresKitError::HistoryDiverged { version: 2, schema }) if schema == "counters_module"
        ));
    }
    let mut zero = [entry(&V2[0])];
    zero[0].version = 0;
    assert!(matches!(
        validate_history(&newest, &zero),
        Err(PostgresKitError::HistoryDiverged { version: 0, .. })
    ));
    assert!(matches!(
        validate_history(&newest, &[entry(&V2[1])]),
        Err(PostgresKitError::HistoryDiverged { version: 2, .. })
    ));
}

#[test]
fn a_newer_history_is_ahead_even_where_it_has_drifted() {
    let mut applied = [entry(&V2[0]), entry(&V2[1])];
    applied[0].checksum = "drifted".to_owned();
    assert!(matches!(
        validate_history(&plan(V1), &applied),
        Err(PostgresKitError::SchemaAhead {
            actual: 2,
            expected: 1,
            ..
        })
    ));
}

#[test]
fn a_surplus_entry_diverges() {
    let applied = [entry(&V1[0]), entry(&V1[0])];
    assert!(matches!(
        validate_history(&plan(V1), &applied),
        Err(PostgresKitError::HistoryDiverged { version: 1, schema }) if schema == "counters_module"
    ));
    let mut zero = [entry(&V2[0]), entry(&V2[1]), entry(&V2[0])];
    zero[2].version = 0;
    assert!(matches!(
        validate_history(&plan(V2), &zero),
        Err(PostgresKitError::HistoryDiverged { version: 0, .. })
    ));
}

#[test]
fn given_checksums_decide() {
    let oldest = plan(V1);
    let applied = [AppliedMigration {
        version: 1,
        name: "create-counters".to_owned(),
        checksum: "abc".to_owned(),
    }];
    assert_eq!(check_history(&oldest, &["abc".to_owned()], &applied).unwrap(), 1);
    assert!(check_history(&oldest, &["abd".to_owned()], &applied).is_err());
}

#[test]
fn rows_decode_in_order() {
    let decoded = decode_ledger("orders", vec![row(1, "a", "x"), row(i64::MAX, "b", "y")]).unwrap();
    assert_eq!(decoded.len(), 2);
    assert_eq!(decoded[0].version, 1);
    assert_eq!(decoded[0].name, "a");
    assert_eq!(decoded[0].checksum, "x");
    assert_eq!(decoded[1].version, 9_223_372_036_854_775_807);
    assert_eq!(decoded[1].name, "b");
    assert_eq!(decoded[1].checksum, "y");
    assert!(decode_ledger("orders", vec![]).unwrap().is_empty());
}

#[test]
fn a_negative_version_diverges_from_the_start() {
    let mut unreadable = row(-1, "a", "x");
    unreadable.name = Err(Error::RowNotFound);
    assert!(matches!(
        decode_ledger("orders", vec![row(1, "a", "x"), unreadable]),
        Err(PostgresKitError::HistoryDiverged { version: 0, schema }) if schema == "orders"
    ));
}

#[test]
fn unreadable_columns_name_their_operation() {
    let mut version = row(1, "a", "x");
    version.version = Err(Error::RowNotFound);
    let mut name = row(1, "a", "x");
    name.name = Err(Error::PoolClosed);
    name.checksum = Err(Error::RowNotFound);
    let mut checksum = row(1, "a", "x");
    checksum.checksum = Err(Error::RowNotFound);
    assert!(matches!(
        decode_ledger("orders", vec![version]),
        Err(PostgresKitError::Database {
            operation: "decode migration version",
            source: Error::RowNotFound
        })
    ));
    assert!(matches!(
        decode_ledger("orders", vec![name]),
        Err(PostgresKitError::Database {
            operation: "decode migration name",
            source: Error::PoolClosed
        })
    ));
    assert!(matches!(
        decode_ledger("orders", vec![checksum]),
        Err(PostgresKitError::Database {
            operation: "decode migration checksum",
            ..
        })
    ));
}

#[test]
fn kit_errors_have_messages() {
    let schema = || "orders".to_owned();
    let messages = [
        (
            PostgresKitError::from(PlanError::EmptyMigrations),
            "schema plan must contain at least one migration",
        ),
        (
            PostgresKitError::database("lock owned schema", Error::RowNotFound),
            "PostgreSQL operation `lock owned schema` failed",
        ),
        (
            PostgresKitError::UnmanagedSchema { schema: schema() },
            "schema `orders` exists without the Lenso migration ledger",
        ),
        (
            PostgresKitError::OwnershipMismatch {
                schema: schema(),
                owner: "alice".to_owned(),
                current_role: "bob".to_owned(),
            },
            "schema `orders` is owned by `alice`, not current role `bob`",
        ),
        (
            PostgresKitError::SetupRequired { schema: schema() },
            "schema `orders` has not been set up",
        ),
        (
            PostgresKitError::UpgradeRequired {
                schema: schema(),
                current: 1,
                expected: 12,
            },
            "schema `orders` is at version 1; explicit upgrade to 12 is required",
        ),
        (
            PostgresKitError::HistoryDiverged {
                schema: schema(),
                version: 3,
            },
            "schema `orders` migration history diverged at version 3",
        ),
        (
            PostgresKitError::SchemaAhead {
                schema: schema(),
                actual: 4,
                expected: 3,
            },
            "schema `orders` is at version 4, newer than supported version 3",
        ),
    ];
    for (error, message) in messages {
        assert_eq!(error.message(), message);
    }
}

#[test]
fn appended_migrations_keep_the_earlier_checksums() {
    assert_eq!(plan(V1).checksums()[..], plan(V2).checksums()[..1]);
}
