//! Errors and outcomes of the schema lifecycle.

use vstd::prelude::*;

use crate::plan::{PlanError, PlanErrorView};
use crate::text;

verus! {

/// `sqlx_core::error::Error`, carried through unread.
#[verifier::external_type_specification]
#[verifier::external_body]
pub struct ExSqlxError(sqlx_core::error::Error);

/// A `PostgreSQL` schema lifecycle operation failed without applying a fallback.
#[derive(Debug)]
pub enum PostgresKitError {
    /// The authored schema plan is invalid.
    InvalidPlan(PlanError),
    /// Connection setup or a database operation failed.
    Database { operation: &'static str, source: sqlx_core::error::Error },
    /// The schema exists, but was not created by this lifecycle protocol.
    UnmanagedSchema { schema: String },
    /// The configured database role does not own the Module schema.
    OwnershipMismatch { schema: String, owner: String, current_role: String },
    /// Runtime preparation requires an explicit setup operation first.
    SetupRequired { schema: String },
    /// Runtime preparation never applies pending migrations.
    UpgradeRequired { schema: String, current: u64, expected: u64 },
    /// Applied migration history no longer matches the immutable authored plan.
    HistoryDiverged { schema: String, version: u64 },
    /// The database is newer than the linked Module implementation.
    SchemaAhead { schema: String, actual: u64, expected: u64 },
}

/// A [`PostgresKitError`] with its texts as character sequences.
#[verifier::ext_equal]
pub enum ErrorView {
    InvalidPlan(PlanErrorView),
    Database { operation: Seq<char>, source: sqlx_core::error::Error },
    UnmanagedSchema { schema: Seq<char> },
    OwnershipMismatch { schema: Seq<char>, owner: Seq<char>, current_role: Seq<char> },
    SetupRequired { schema: Seq<char> },
    UpgradeRequired { schema: Seq<char>, current: u64, expected: u64 },
    HistoryDiverged { schema: Seq<char>, version: u64 },
    SchemaAhead { schema: Seq<char>, actual: u64, expected: u64 },
}

impl View for PostgresKitError {
    type V = ErrorView;

    open spec fn view(&self) -> ErrorView {
        match *self {
            PostgresKitError::InvalidPlan(error) => ErrorView::InvalidPlan(error@),
            PostgresKitError::Database { operation, source } => ErrorView::Database {
                operation: operation@,
                source,
            },
            PostgresKitError::UnmanagedSchema { schema } => ErrorView::UnmanagedSchema {
                schema: schema@,
            },
            PostgresKitError::OwnershipMismatch { schema, owner, current_role } => {
                ErrorView::OwnershipMismatch {
                    schema: schema@,
                    owner: owner@,
                    current_role: current_role@,
                }
            },
            PostgresKitError::SetupRequired { schema } => ErrorView::SetupRequired {
                schema: schema@,
            },
            PostgresKitError::UpgradeRequired { schema, current, expected } => {
                ErrorView::UpgradeRequired { schema: schema@, current, expected }
            },
            PostgresKitError::HistoryDiverged { schema, version } => ErrorView::HistoryDiverged {
                schema: schema@,
                version,
            },
            PostgresKitError::SchemaAhead { schema, actual, expected } => ErrorView::SchemaAhead {
                schema: schema@,
                actual,
                expected,
            },
        }
    }
}

/// Result of explicitly setting up an owned schema.
#[derive(Clone, Copy, Debug, PartialEq, Eq, Structural)]
pub enum SetupOutcome {
    /// A new schema was created at the current authored version.
    Created { version: u64, applied: usize },
    /// The existing managed schema already matched the authored plan.
    AlreadyCurrent { version: u64 },
}

/// Result of explicitly upgrading an owned schema.
#[derive(Clone, Copy, Debug, PartialEq, Eq, Structural)]
pub enum UpgradeOutcome {
    /// Pending migrations were applied atomically.
    Applied { from: u64, to: u64, applied: usize },
    /// The existing managed schema already matched the authored plan.
    AlreadyCurrent { version: u64 },
}

impl vstd::std_specs::convert::FromSpecImpl<PlanError> for PostgresKitError {
    open spec fn obeys_from_spec() -> bool {
        true
    }

    open spec fn from_spec(error: PlanError) -> Self {
        PostgresKitError::InvalidPlan(error)
    }
}

impl From<PlanError> for PostgresKitError {
    fn from(error: PlanError) -> (wrapped: Self) {
        PostgresKitError::InvalidPlan(error)
    }
}

impl PlanErrorView {
    /// The text shown for the error.
    pub open spec fn message(self) -> Seq<char> {
        match self {
            PlanErrorView::InvalidSchemaName { schema } => "invalid owned schema name `"@ + schema
                + "`"@,
            PlanErrorView::EmptyMigrations => "schema plan must contain at least one migration"@,
            PlanErrorView::NonContiguousVersion { name, expected, actual } => "migration `"@ + name
                + "` has version "@ + text::decimal(actual as nat) + "; expected "@ + text::decimal(
                expected as nat,
            ),
            PlanErrorView::InvalidMigrationName { version, name } => "migration version "@
                + text::decimal(version as nat) + " has invalid name `"@ + name + "`"@,
            PlanErrorView::EmptyMigrationSql { version } => "migration version "@ + text::decimal(
                version as nat,
            ) + " has empty SQL"@,
            PlanErrorView::MigrationVersionTooLarge { version } => "migration version "@
                + text::decimal(version as nat) + " exceeds PostgreSQL bigint range"@,
        }
    }
}

impl PlanError {
    /// Returns the text shown for the error.
    pub fn message(&self) -> (message: String)
        ensures
            message@ == self@.message(),
    {
        let mut message = String::new();
        match self {
            PlanError::InvalidSchemaName { schema } => {
                message.append("invalid owned schema name `");
                message.append(schema);
                message.append("`");
            },
            PlanError::EmptyMigrations => {
                message.append("schema plan must contain at least one migration");
            },
            PlanError::NonContiguousVersion { name, expected, actual } => {
                message.append("migration `");
                message.append(name);
                message.append("` has version ");
                message.append(text::decimal_text(*actual).as_str());
                message.append("; expected ");
                message.append(text::decimal_text(*expected).as_str());
            },
            PlanError::InvalidMigrationName { version, name } => {
                message.append("migration version ");
                message.append(text::decimal_text(*version).as_str());
                message.append(" has invalid name `");
                message.append(name);
                message.append("`");
            },
            PlanError::EmptyMigrationSql { version } => {
                message.append("migration version ");
                message.append(text::decimal_text(*version).as_str());
                message.append(" has empty SQL");
            },
            PlanError::MigrationVersionTooLarge { version } => {
                message.append("migration version ");
                message.append(text::decimal_text(*version).as_str());
                message.append(" exceeds PostgreSQL bigint range");
            },
        }
        assert(message@ =~= self@.message());
        message
    }
}

impl ErrorView {
    /// The text shown for the error.
    pub open spec fn message(self) -> Seq<char> {
        match self {
            ErrorView::InvalidPlan(error) => error.message(),
            ErrorView::Database { operation, .. } => "PostgreSQL operation `"@ + operation
                + "` failed"@,
            ErrorView::UnmanagedSchema { schema } => "schema `"@ + schema
                + "` exists without the Lenso migration ledger"@,
            ErrorView::OwnershipMismatch { schema, owner, current_role } => "schema `"@ + schema
                + "` is owned by `"@ + owner + "`, not current role `"@ + current_role + "`"@,
            ErrorView::SetupRequired { schema } => "schema `"@ + schema + "` has not been set up"@,
            ErrorView::UpgradeRequired { schema, current, expected } => "schema `"@ + schema
                + "` is at version "@ + text::decimal(current as nat) + "; explicit upgrade to "@
                + text::decimal(expected as nat) + " is required"@,
            ErrorView::HistoryDiverged { schema, version } => "schema `"@ + schema
                + "` migration history diverged at version "@ + text::decimal(version as nat),
            ErrorView::SchemaAhead { schema, actual, expected } => "schema `"@ + schema
                + "` is at version "@ + text::decimal(actual as nat)
                + ", newer than supported version "@ + text::decimal(expected as nat),
        }
    }
}

impl PostgresKitError {
    /// Reports a failed database operation.
    pub fn database(operation: &'static str, source: sqlx_core::error::Error) -> (error: Self)
        ensures
            error == (PostgresKitError::Database { operation, source }),
            error@ == (ErrorView::Database { operation: operation@, source }),
    {
        Self::Database { operation, source }
    }

    /// Returns the text shown for the error.
    pub fn message(&self) -> (message: String)
        ensures
            message@ == self@.message(),
    {
        let mut message = String::new();
        match self {
            PostgresKitError::InvalidPlan(error) => {
                message = error.message();
            },
            PostgresKitError::Database { operation, .. } => {
                message.append("PostgreSQL operation `");
                message.append(operation);
                message.append("` failed");
            },
            PostgresKitError::UnmanagedSchema { schema } => {
                message.append("schema `");
                message.append(schema.as_str());
                message.append("` exists without the Lenso migration ledger");
            },
            PostgresKitError::OwnershipMismatch { schema, owner, current_role } => {
                message.append("schema `");
                message.append(schema.as_str());
                message.append("` is owned by `");
                message.append(owner.as_str());
                message.append("`, not current role `");
                message.append(current_role.as_str());
                message.append("`");
            },
            PostgresKitError::SetupRequired { schema } => {
                message.append("schema `");
                message.append(schema.as_str());
                message.append("` has not been set up");
            },
            PostgresKitError::UpgradeRequired { schema, current, expected } => {
                message.append("schema `");
                message.append(schema.as_str());
                message.append("` is at version ");
                message.append(text::decimal_text(*current).as_str());
                message.append("; explicit upgrade to ");
                message.append(text::decimal_text(*expected).as_str());
                message.append(" is required");
            },
            PostgresKitError::HistoryDiverged { schema, version } => {
                message.append("schema `");
                message.append(schema.as_str());
                message.append("` migration history diverged at version ");
                message.append(text::decimal_text(*version).as_str());
            },
            PostgresKitError::SchemaAhead { schema, actual, expected } => {
                message.append("schema `");
                message.append(schema.as_str());
                message.append("` is at version ");
                message.append(text::decimal_text(*actual).as_str());
                message.append(", newer than supported version ");
                message.append(text::decimal_text(*expected).as_str());
            },
        }
        assert(message@ =~= self@.message());
        message
    }
}

/// The model of an error keeps every field of the error, each in its place.
pub proof fn law_errors_keep_their_fields(error: PostgresKitError)
    ensures
        match error {
            PostgresKitError::InvalidPlan(plan) => error@ matches ErrorView::InvalidPlan(view)
                && view == plan@,
            PostgresKitError::Database { operation: o, source: s } => error@
                matches ErrorView::Database { operation, source } && operation == o@ && source
                == s,
            PostgresKitError::UnmanagedSchema { schema: s } => error@
                matches ErrorView::UnmanagedSchema { schema } && schema == s@,
            PostgresKitError::OwnershipMismatch { schema: s, owner: o, current_role: r } => error@
                matches ErrorView::OwnershipMismatch { schema, owner, current_role } && schema
                == s@ && owner == o@ && current_role == r@,
            PostgresKitError::SetupRequired { schema: s } => error@
                matches ErrorView::SetupRequired { schema } && schema == s@,
            PostgresKitError::UpgradeRequired { schema: s, current: c, expected: e } => error@
                matches ErrorView::UpgradeRequired { schema, current, expected } && schema == s@
                && current == c && expected == e,
            PostgresKitError::HistoryDiverged { schema: s, version: v } => error@
                matches ErrorView::HistoryDiverged { schema, version } && schema == s@ && version
                == v,
            PostgresKitError::SchemaAhead { schema: s, actual: a, expected: e } => error@
                matches ErrorView::SchemaAhead { schema, actual, expected } && schema == s@
                && actual == a && expected == e,
        },
{
}

/// A plan error becomes the error of an invalid plan and stays whole.
pub proof fn law_plan_errors_are_wrapped(error: PlanError)
    ensures
        <PostgresKitError as vstd::std_specs::convert::FromSpec<PlanError>>::obeys_from_spec(),
        <PostgresKitError as vstd::std_specs::convert::FromSpec<PlanError>>::from_spec(error)
            == PostgresKitError::InvalidPlan(error),
{
}

/// What the message of a plan error says, word for word, with every field whole and
/// every number in base ten.
pub proof fn law_plan_error_messages(
    name: Seq<char>,
    version: u64,
    expected: u64,
    schema: Seq<char>,
)
    ensures
        (PlanErrorView::InvalidSchemaName { schema }).message() == "invalid owned schema name `"@
            + schema + "`"@,
        PlanErrorView::EmptyMigrations.message()
            == "schema plan must contain at least one migration"@,
        (PlanErrorView::NonContiguousVersion { name, expected, actual: version }).message()
            == "migration `"@ + name + "` has version "@ + text::decimal(version as nat)
            + "; expected "@ + text::decimal(expected as nat),
        (PlanErrorView::InvalidMigrationName { version, name }).message()
            == "migration version "@ + text::decimal(version as nat) + " has invalid name `"@
            + name + "`"@,
        (PlanErrorView::EmptyMigrationSql { version }).message() == "migration version "@
            + text::decimal(version as nat) + " has empty SQL"@,
        (PlanErrorView::MigrationVersionTooLarge { version }).message() == "migration version "@
            + text::decimal(version as nat) + " exceeds PostgreSQL bigint range"@,
{
}

/// What the message of an error says, word for word, with every field whole and
/// every number in base ten. An invalid plan speaks through its own error.
pub proof fn law_error_messages(
    plan: PlanErrorView,
    source: sqlx_core::error::Error,
    schema: Seq<char>,
    name: Seq<char>,
    other: Seq<char>,
    version: u64,
    expected: u64,
)
    ensures
        ErrorView::InvalidPlan(plan).message() == plan.message(),
        (ErrorView::Database { operation: name, source }).message() == "PostgreSQL operation `"@
            + name + "` failed"@,
        (ErrorView::UnmanagedSchema { schema }).message() == "schema `"@ + schema
            + "` exists without the Lenso migration ledger"@,
        (ErrorView::OwnershipMismatch { schema, owner: name, current_role: other }).message()
            == "schema `"@ + schema + "` is owned by `"@ + name + "`, not current role `"@ + other
            + "`"@,
        (ErrorView::SetupRequired { schema }).message() == "schema `"@ + schema
            + "` has not been set up"@,
        (ErrorView::UpgradeRequired { schema, current: version, expected }).message()
            == "schema `"@ + schema + "` is at version "@ + text::decimal(version as nat)
            + "; explicit upgrade to "@ + text::decimal(expected as nat) + " is required"@,
        (ErrorView::HistoryDiverged { schema, version }).message() == "schema `"@ + schema
            + "` migration history diverged at version "@ + text::decimal(version as nat),
        (ErrorView::SchemaAhead { schema, actual: version, expected }).message() == "schema `"@
            + schema + "` is at version "@ + text::decimal(version as nat)
            + ", newer than supported version "@ + text::decimal(expected as nat),
{
}

} // verus!
