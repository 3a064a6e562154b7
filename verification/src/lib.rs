//! `PostgreSQL` lifecycle support for storage owned by one Lenso Plugin.
//!
//! This crate deliberately is not a shared State Plugin, SQL Capability, or
//! repository abstraction. A Plugin keeps ownership of its data model,
//! migrations, queries, and transaction boundaries. The kit only makes the
//! repetitive `PostgreSQL` schema lifecycle explicit and fail-closed.
//!
//! The library decides and a driver talks to the database: [`session::Session`]
//! says what to ask next, and each reply moves it on or ends it. [`plan`] and
//! [`history`] hold the rules for plans and for the migration ledger,
//! [`statements`] the SQL, and [`laws`] what holds of whole runs.

pub mod checksum;
pub mod error;
pub mod history;
pub mod laws;
pub mod lifecycle;
pub mod plan;
pub mod session;
pub mod sqlx;
pub mod statements;
pub mod text;

pub use error::{PostgresKitError, SetupOutcome, UpgradeOutcome};
pub use lifecycle::{OwnedPostgres, PoolSettings, SchemaOperator};
pub use plan::{Migration, PlanError, SchemaPlan};
