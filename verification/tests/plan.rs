use lenso_postgres_kit::plan::validate_migrations;
use lenso_postgres_kit::{Migration, PlanError, SchemaPlan};

const VALID: &[Migration] = &[
    Migration {
        version: 1,
        name: "create-items",
        sql: "CREATE TABLE items (id bigint PRIMARY KEY)",
    },
    Migration {
        version: 2,
        name: "add-label",
        sql: "ALTER TABLE items ADD COLUMN label text",
    },
];

fn single(version: u64, name: &'static str, sql: &'static str) -> &'static [Migration] {
    Box::leak(Box::new([Migration::new(version, name, sql)]))
}

fn error_of(schema: &str, migrations: &'static [Migration]) -> PlanError {
    match SchemaPlan::new(schema, migrations) {
        Ok(_) => panic!("the plan should be refused"),
        Err(error) => error,
    }
}

#[test]
fn accepts_a_contiguous_owned_plan() {
    let plan = SchemaPlan::new("orders_module", VALID).unwrap();
    assert_eq!(plan.schema(), "orders_module");
    assert_eq!(plan.current_version(), 2);
    assert!(!VALID[0].checksum().is_empty());
}

#[test]
fn rejects_shared_or_unsafe_schema_names() {
    for name in [
        "",
        "public",
        "pg_catalog",
        "Orders",
        "orders-module",
        "1orders",
    ] {
        assert!(matches!(
            SchemaPlan::new(name, VALID),
            Err(PlanError::InvalidSchemaName { .. })
        ));
    }
}

#[test]
fn rejects_non_contiguous_migrations() {
    const GAP: &[Migration] = &[
        Migration {
            version: 1,
            name: "create-items",
            sql: "SELECT 1",
        },
        Migration {
            version: 3,
            name: "skip-two",
            sql: "SELECT 3",
        },
    ];
    assert!(matches!(
        SchemaPlan::new("orders", GAP),
        Err(PlanError::NonContiguousVersion {
            expected: 2,
            actual: 3,
            ..
        })
    ));
}

#[test]
fn migration_getters_return_what_was_declared() {
    let migration = Migration::new(7, "rename-label", "SELECT 7");
    assert_eq!(migration.version(), 7);
    assert_eq!(migration.name(), "rename-label");
    assert_eq!(migration.sql(), "SELECT 7");
    assert!(migration.fits_digest());
}

#[test]
fn schema_names_are_limited_in_length_and_alphabet() {
    let longest = "a".repeat(63);
    assert_eq!(SchemaPlan::new(&longest, VALID).unwrap().schema(), longest);
    for name in ["a", "a_", "z9_9", "publics", "pg", "pgs", "information_schema2"] {
        assert_eq!(SchemaPlan::new(name, VALID).unwrap().schema(), name);
    }
    for name in [
        "a".repeat(64).as_str(),
        "information_schema",
        "pg_",
        "_orders",
        "orders module",
        "ordérs",
        "orders\"",
        "é",
    ] {
        assert_eq!(
            error_of(name, VALID),
            PlanError::InvalidSchemaName {
                schema: name.into()
            }
        );
    }
}

#[test]
fn a_bad_schema_name_is_reported_before_bad_migrations() {
    assert!(matches!(
        error_of("public", &[]),
        PlanError::InvalidSchemaName { .. }
    ));
    assert_eq!(error_of("orders", &[]), PlanError::EmptyMigrations);
}

#[test]
fn versions_start_at_one() {
    assert_eq!(
        error_of("orders", single(0, "create-items", "SELECT 1")),
        PlanError::NonContiguousVersion {
            name: "create-items",
            expected: 1,
            actual: 0
        }
    );
    assert_eq!(
        error_of("orders", single(u64::MAX, "create-items", "SELECT 1")),
        PlanError::NonContiguousVersion {
            name: "create-items",
            expected: 1,
            actual: u64::MAX
        }
    );
}

#[test]
fn migration_names_are_limited_in_length_and_alphabet() {
    let longest: &'static str = Box::leak("m".repeat(128).into_boxed_str());
    assert!(SchemaPlan::new("orders", single(1, longest, "SELECT 1")).is_ok());
    assert!(SchemaPlan::new("orders", single(1, "m-1_x", "SELECT 1")).is_ok());
    let too_long: &'static str = Box::leak("m".repeat(129).into_boxed_str());
    for name in [too_long, "", "Create", "1st", "-x", "create items", "créer", "a\0"] {
        assert_eq!(
            error_of("orders", single(1, name, "SELECT 1")),
            PlanError::InvalidMigrationName { version: 1, name }
        );
    }
}

#[test]
fn blank_sql_is_refused() {
    for sql in ["", " ", "\n\t \r", "\u{a0}\u{2003}\u{3000}"] {
        assert_eq!(
            error_of("orders", single(1, "create-items", sql)),
            PlanError::EmptyMigrationSql { version: 1 }
        );
    }
    assert!(SchemaPlan::new("orders", single(1, "create-items", " ; ")).is_ok());
    assert!(SchemaPlan::new("orders", single(1, "create-items", "\u{200b}")).is_ok());
}

#[test]
fn the_first_faulty_migration_is_reported() {
    const FAULTY: &[Migration] = &[
        Migration {
            version: 1,
            name: "ok",
            sql: "SELECT 1",
        },
        Migration {
            version: 2,
            name: "Bad",
            sql: "",
        },
        Migration {
            version: 9,
            name: "ok",
            sql: "SELECT 1",
        },
    ];
    assert_eq!(
        error_of("orders", FAULTY),
        PlanError::InvalidMigrationName {
            version: 2,
            name: "Bad"
        }
    );
}

#[test]
fn clones_describe_the_same_plan() {
    let plan = SchemaPlan::new("orders", VALID).unwrap();
    let copy = plan.clone();
    assert_eq!(copy.schema(), "orders");
    assert_eq!(copy.current_version(), 2);
    assert_eq!(copy.migrations().len(), 2);
    assert_eq!(copy.checksums(), plan.checksums());
    assert!(copy.fits_digest());
}

#[test]
fn plan_errors_have_messages() {
    let messages = [
        (
            error_of("public", VALID),
            "invalid owned schema name `public`",
        ),
        (
            PlanError::EmptyMigrations,
            "schema plan must contain at least one migration",
        ),
        (
            PlanError::NonContiguousVersion {
                name: "skip-two",
                expected: 2,
                actual: 30,
            },
            "migration `skip-two` has version 30; expected 2",
        ),
        (
            PlanError::InvalidMigrationName {
                version: 10,
                name: "Bad",
            },
            "migration version 10 has invalid name `Bad`",
        ),
        (
            PlanError::EmptyMigrationSql { version: 0 },
            "migration version 0 has empty SQL",
        ),
        (
            PlanError::MigrationVersionTooLarge { version: u64::MAX },
            "migration version 18446744073709551615 exceeds PostgreSQL bigint range",
        ),
    ];
    for (error, message) in messages {
        assert_eq!(error.message(), message);
    }
}

#[test]
fn appending_and_cutting_keep_a_list_valid() {
    let longer = [VALID[0], VALID[1], Migration::new(3, "add-note", "SELECT 3")];
    assert_eq!(validate_migrations(&longer), Ok(()));
    for count in 1..=longer.len() {
        assert_eq!(validate_migrations(&longer[..count]), Ok(()));
    }
    assert_eq!(validate_migrations(&longer[..0]), Err(PlanError::EmptyMigrations));
}
