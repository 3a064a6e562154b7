//! The decisions of preparation, setup and upgrade, apart from the database that
//! they are about.
//!
//! A [`Session`] says what to ask of the database next. The reply moves it on to
//! the next request or ends it with a result. Nothing here talks to a database.

use vstd::prelude::*;

use crate::error::{ErrorView, PostgresKitError, SetupOutcome, UpgradeOutcome};
use crate::history;
use crate::history::{AppliedMigration, AppliedView, LedgerRow, RowView};
use crate::plan::{PlanView, SchemaPlan};
use crate::statements;
use crate::text;

verus! {

/// The three lifecycle workflows.
#[derive(Clone, Copy, Debug, PartialEq, Eq, Structural)]
pub enum Workflow {
    /// Runtime preparation: verifies the exact schema and changes nothing.
    Prepare,
    /// Creates a missing schema and applies the complete plan.
    Setup,
    /// Applies pending migrations to an existing managed schema.
    Upgrade,
}

/// How a request is put to the database.
#[derive(Clone, Copy, Debug, PartialEq, Eq, Structural)]
pub enum RequestKind {
    /// Take a connection from the pool.
    Acquire,
    /// Begin a transaction.
    Begin,
    /// Run a query for at most one text.
    FetchOptionalText,
    /// Run a query for one text.
    FetchText,
    /// Run a query for one truth value.
    FetchFlag,
    /// Run a query for ledger rows.
    FetchRows,
    /// Run one statement with its parameters.
    Execute,
    /// Run a script of statements without parameters.
    ExecuteScript,
    /// Commit the transaction.
    Commit,
}

/// A statement parameter.
pub enum Bind {
    Number(i64),
    Text(String),
}

/// A [`Bind`] with its text as a character sequence.
#[verifier::ext_equal]
pub enum BindView {
    Number(i64),
    Text(Seq<char>),
}

impl View for Bind {
    type V = BindView;

    open spec fn view(&self) -> BindView {
        match *self {
            Bind::Number(value) => BindView::Number(value),
            Bind::Text(value) => BindView::Text(value@),
        }
    }
}

/// What to ask of the database, and the operation to name if it fails.
pub struct Request {
    pub operation: &'static str,
    pub kind: RequestKind,
    pub sql: String,
    pub binds: Vec<Bind>,
}

/// A [`Request`] with its texts as character sequences.
#[verifier::ext_equal]
pub struct RequestView {
    pub operation: Seq<char>,
    pub kind: RequestKind,
    pub sql: Seq<char>,
    pub binds: Seq<BindView>,
}

impl View for Request {
    type V = RequestView;

    open spec fn view(&self) -> RequestView {
        RequestView {
            operation: self.operation@,
            kind: self.kind,
            sql: self.sql@,
            binds: self.binds@.map_values(|bind: Bind| bind@),
        }
    }
}

/// What came back from the database.
pub enum Reply {
    /// The request succeeded and has nothing to tell.
    Done,
    OptionalText(Option<String>),
    Text(String),
    Flag(bool),
    Rows(Vec<LedgerRow>),
    /// The request failed.
    Failed(sqlx_core::error::Error),
}

/// A [`Reply`] with its texts as character sequences.
#[verifier::ext_equal]
pub enum ReplyView {
    Done,
    OptionalText(Option<Seq<char>>),
    Text(Seq<char>),
    Flag(bool),
    Rows(Seq<RowView>),
    Failed(sqlx_core::error::Error),
}

impl View for Reply {
    type V = ReplyView;

    open spec fn view(&self) -> ReplyView {
        match *self {
            Reply::Done => ReplyView::Done,
            Reply::OptionalText(None) => ReplyView::OptionalText(None),
            Reply::OptionalText(Some(value)) => ReplyView::OptionalText(Some(value@)),
            Reply::Text(value) => ReplyView::Text(value@),
            Reply::Flag(value) => ReplyView::Flag(value),
            Reply::Rows(rows) => ReplyView::Rows(history::rows_view(rows@)),
            Reply::Failed(source) => ReplyView::Failed(source),
        }
    }
}

/// Tells that a preparation run found the schema exactly as its plan describes.
///
/// Only a [`Session`] hands one out, when its preparation run ends well.
pub struct Verification {
    plan: SchemaPlan,
}

impl View for Verification {
    type V = PlanView;

    /// The plan of the preparation run.
    closed spec fn view(&self) -> PlanView {
        self.plan@
    }
}

impl Verification {
    /// Gives up the verification for its plan.
    pub(crate) fn into_plan(self) -> (plan: SchemaPlan)
        ensures
            plan@ == self@,
    {
        self.plan
    }
}

/// How a workflow ends well.
pub enum Outcome {
    /// The schema is exactly the one that the plan describes.
    Prepared(Verification),
    Setup(SetupOutcome),
    Upgrade(UpgradeOutcome),
}

/// An [`Outcome`] with what the plan of a verification says.
#[verifier::ext_equal]
pub enum OutcomeView {
    Prepared(PlanView),
    Setup(SetupOutcome),
    Upgrade(UpgradeOutcome),
}

impl View for Outcome {
    type V = OutcomeView;

    open spec fn view(&self) -> OutcomeView {
        match *self {
            Outcome::Prepared(verification) => OutcomeView::Prepared(verification@),
            Outcome::Setup(outcome) => OutcomeView::Setup(outcome),
            Outcome::Upgrade(outcome) => OutcomeView::Upgrade(outcome),
        }
    }
}

/// Where a session stands: what it asks for next.
pub enum Stage {
    Connection,
    Transaction,
    Lock,
    Owner,
    Role { owner: String },
    LedgerPresence,
    LedgerRows,
    CreateSchema,
    CreateLedger,
    /// The first `skip` migrations are applied, and they reach version `from`.
    SelectSchema { from: u64, skip: usize },
    Apply { from: u64, skip: usize, index: usize },
    Record { from: u64, skip: usize, index: usize },
    Commit { from: u64, skip: usize },
}

/// A [`Stage`] with its text as a character sequence.
#[verifier::ext_equal]
pub enum StageView {
    Connection,
    Transaction,
    Lock,
    Owner,
    Role { owner: Seq<char> },
    LedgerPresence,
    LedgerRows,
    CreateSchema,
    CreateLedger,
    SelectSchema { from: u64, skip: nat },
    Apply { from: u64, skip: nat, index: nat },
    Record { from: u64, skip: nat, index: nat },
    Commit { from: u64, skip: nat },
}

impl View for Stage {
    type V = StageView;

    open spec fn view(&self) -> StageView {
        match *self {
            Stage::Connection => StageView::Connection,
            Stage::Transaction => StageView::Transaction,
            Stage::Lock => StageView::Lock,
            Stage::Owner => StageView::Owner,
            Stage::Role { owner } => StageView::Role { owner: owner@ },
            Stage::LedgerPresence => StageView::LedgerPresence,
            Stage::LedgerRows => StageView::LedgerRows,
            Stage::CreateSchema => StageView::CreateSchema,
            Stage::CreateLedger => StageView::CreateLedger,
            Stage::SelectSchema { from, skip } => StageView::SelectSchema {
                from,
                skip: skip as nat,
            },
            Stage::Apply { from, skip, index } => StageView::Apply {
                from,
                skip: skip as nat,
                index: index as nat,
            },
            Stage::Record { from, skip, index } => StageView::Record {
                from,
                skip: skip as nat,
                index: index as nat,
            },
            Stage::Commit { from, skip } => StageView::Commit { from, skip: skip as nat },
        }
    }
}

/// What a session knows: its workflow, its plan with the checksums of the
/// migrations, and where it stands.
#[verifier::ext_equal]
pub struct SessionView {
    pub workflow: Workflow,
    pub plan: PlanView,
    pub checksums: Seq<Seq<char>>,
    pub stage: StageView,
}

/// What a reply leads to.
#[verifier::ext_equal]
pub enum ProgressView {
    Continue(SessionView),
    Finished(Result<OutcomeView, ErrorView>),
}

impl SessionView {
    /// A session about to take its connection.
    pub open spec fn start(
        workflow: Workflow,
        plan: PlanView,
        checksums: Seq<Seq<char>>,
    ) -> SessionView {
        SessionView { workflow, plan, checksums, stage: StageView::Connection }
    }

    /// The plan is valid, every migration has its checksum, and the migrations
    /// that the stage counts are migrations of the plan.
    pub open spec fn is_valid(self) -> bool {
        &&& self.plan.is_valid()
        &&& self.checksums.len() == self.plan.migrations.len()
        &&& match self.stage {
            StageView::SelectSchema { skip, .. } => skip <= self.plan.migrations.len(),
            StageView::Apply { skip, index, .. } => skip <= index < self.plan.migrations.len(),
            StageView::Record { skip, index, .. } => skip <= index < self.plan.migrations.len(),
            StageView::Commit { skip, .. } => skip <= self.plan.migrations.len(),
            _ => true,
        }
    }

    /// The same session at another stage.
    pub open spec fn at(self, stage: StageView) -> SessionView {
        SessionView { stage, ..self }
    }

    /// What the session asks of the database.
    pub open spec fn request(self) -> RequestView {
        let schema = self.plan.schema;
        let none = Seq::<BindView>::empty();
        match self.stage {
            StageView::Connection => RequestView {
                operation: match self.workflow {
                    Workflow::Prepare => "acquire verification connection"@,
                    Workflow::Setup => "acquire setup connection"@,
                    Workflow::Upgrade => "acquire upgrade connection"@,
                },
                kind: RequestKind::Acquire,
                sql: ""@,
                binds: none,
            },
            StageView::Transaction => RequestView {
                operation: match self.workflow {
                    Workflow::Setup => "begin setup transaction"@,
                    _ => "begin upgrade transaction"@,
                },
                kind: RequestKind::Begin,
                sql: ""@,
                binds: none,
            },
            StageView::Lock => RequestView {
                operation: "lock owned schema"@,
                kind: RequestKind::Execute,
                sql: statements::LOCK_SCHEMA@,
                binds: seq![BindView::Text(schema)],
            },
            StageView::Owner => RequestView {
                operation: "inspect schema ownership"@,
                kind: RequestKind::FetchOptionalText,
                sql: statements::READ_OWNER@,
                binds: seq![BindView::Text(schema)],
            },
            StageView::Role { .. } => RequestView {
                operation: "inspect current database role"@,
                kind: RequestKind::FetchText,
                sql: statements::READ_ROLE@,
                binds: none,
            },
            StageView::LedgerPresence => RequestView {
                operation: "inspect migration ledger"@,
                kind: RequestKind::FetchFlag,
                sql: statements::READ_LEDGER_PRESENCE@,
                binds: seq![BindView::Text(schema), BindView::Text(statements::LEDGER_TABLE@)],
            },
            StageView::LedgerRows => RequestView {
                operation: "read migration ledger"@,
                kind: RequestKind::FetchRows,
                sql: statements::read_ledger_text(schema),
                binds: none,
            },
            StageView::CreateSchema => RequestView {
                operation: "create owned schema"@,
                kind: RequestKind::ExecuteScript,
                sql: statements::create_schema_text(schema),
                binds: none,
            },
            StageView::CreateLedger => RequestView {
                operation: "create migration ledger"@,
                kind: RequestKind::ExecuteScript,
                sql: statements::create_ledger_text(schema),
                binds: none,
            },
            StageView::SelectSchema { .. } => RequestView {
                operation: "select owned schema"@,
                kind: RequestKind::ExecuteScript,
                sql: statements::select_schema_text(schema),
                binds: none,
            },
            StageView::Apply { index, .. } => RequestView {
                operation: "apply owned migration"@,
                kind: RequestKind::ExecuteScript,
                sql: self.plan.migrations[index as int].sql@,
                binds: none,
            },
            StageView::Record { index, .. } => RequestView {
                operation: "record owned migration"@,
                kind: RequestKind::Execute,
                sql: statements::record_migration_text(schema),
                binds: seq![
                    BindView::Number(self.plan.migrations[index as int].version as i64),
                    BindView::Text(self.plan.migrations[index as int].name@),
                    BindView::Text(self.checksums[index as int]),
                ],
            },
            StageView::Commit { .. } => RequestView {
                operation: match self.workflow {
                    Workflow::Setup => "commit schema setup"@,
                    _ => "commit schema upgrade"@,
                },
                kind: RequestKind::Commit,
                sql: ""@,
                binds: none,
            },
        }
    }

    /// What a reply leads to. A failure ends every workflow at once. A reply of a
    /// kind that was not asked for leaves the session where it stands.
    pub open spec fn advance(self, reply: ReplyView) -> ProgressView {
        match (self.stage, reply) {
            (_, ReplyView::Failed(source)) => ProgressView::Finished(
                Err(ErrorView::Database { operation: self.request().operation, source }),
            ),
            (StageView::Connection, ReplyView::Done) => ProgressView::Continue(
                self.at(
                    if self.workflow == Workflow::Prepare {
                        StageView::Owner
                    } else {
                        StageView::Transaction
                    },
                ),
            ),
            (StageView::Transaction, ReplyView::Done) => ProgressView::Continue(
                self.at(StageView::Lock),
            ),
            (StageView::Lock, ReplyView::Done) => ProgressView::Continue(
                self.at(StageView::Owner),
            ),
            (StageView::Owner, ReplyView::OptionalText(None)) => if self.workflow
                == Workflow::Setup {
                ProgressView::Continue(self.at(StageView::CreateSchema))
            } else {
                ProgressView::Finished(
                    Err(ErrorView::SetupRequired { schema: self.plan.schema }),
                )
            },
            (StageView::Owner, ReplyView::OptionalText(Some(owner))) => ProgressView::Continue(
                self.at(StageView::Role { owner }),
            ),
            (StageView::Role { owner }, ReplyView::Text(current_role)) => if owner
                == current_role {
                ProgressView::Continue(self.at(StageView::LedgerPresence))
            } else {
                ProgressView::Finished(
                    Err(
                        ErrorView::OwnershipMismatch {
                            schema: self.plan.schema,
                            owner,
                            current_role,
                        },
                    ),
                )
            },
            (StageView::LedgerPresence, ReplyView::Flag(present)) => if present {
                ProgressView::Continue(self.at(StageView::LedgerRows))
            } else {
                ProgressView::Finished(
                    Err(ErrorView::UnmanagedSchema { schema: self.plan.schema }),
                )
            },
            (StageView::LedgerRows, ReplyView::Rows(rows)) => match history::decoded_rows(
                rows,
                self.plan.schema,
            ) {
                Err(error) => ProgressView::Finished(Err(error)),
                Ok(applied) => self.judge(applied),
            },
            (StageView::CreateSchema, ReplyView::Done) => ProgressView::Continue(
                self.at(StageView::CreateLedger),
            ),
            (StageView::CreateLedger, ReplyView::Done) => ProgressView::Continue(
                self.at(StageView::SelectSchema { from: 0, skip: 0 }),
            ),
            (StageView::SelectSchema { from, skip }, ReplyView::Done) => ProgressView::Continue(
                self.next_migration(from, skip, skip),
            ),
            (StageView::Apply { from, skip, index }, ReplyView::Done) => ProgressView::Continue(
                self.at(StageView::Record { from, skip, index }),
            ),
            (StageView::Record { from, skip, index }, ReplyView::Done) => ProgressView::Continue(
                self.next_migration(from, skip, index + 1),
            ),
            (StageView::Commit { from, skip }, ReplyView::Done) => ProgressView::Finished(
                Ok(self.applied_outcome(from, skip)),
            ),
            _ => ProgressView::Continue(self),
        }
    }

    /// What follows from the applied history of a managed schema.
    pub open spec fn judge(self, applied: Seq<AppliedView>) -> ProgressView {
        match self.plan.verdict(self.checksums, applied) {
            Err(error) => ProgressView::Finished(Err(error)),
            Ok(current) => if current == self.plan.current_version() {
                ProgressView::Finished(Ok(self.unchanged_outcome()))
            } else if self.workflow == Workflow::Upgrade {
                ProgressView::Continue(
                    self.at(StageView::SelectSchema { from: current, skip: applied.len() }),
                )
            } else {
                ProgressView::Finished(
                    Err(
                        ErrorView::UpgradeRequired {
                            schema: self.plan.schema,
                            current,
                            expected: self.plan.current_version(),
                        },
                    ),
                )
            },
        }
    }

    /// The session about to apply the migration at `index`, or to commit after
    /// the last one.
    pub open spec fn next_migration(self, from: u64, skip: nat, index: nat) -> SessionView {
        if index < self.plan.migrations.len() {
            self.at(StageView::Apply { from, skip, index })
        } else {
            self.at(StageView::Commit { from, skip })
        }
    }

    /// The outcome where the schema was already exactly as planned.
    pub open spec fn unchanged_outcome(self) -> OutcomeView {
        let version = self.plan.current_version();
        match self.workflow {
            Workflow::Prepare => OutcomeView::Prepared(self.plan),
            Workflow::Setup => OutcomeView::Setup(SetupOutcome::AlreadyCurrent { version }),
            Workflow::Upgrade => OutcomeView::Upgrade(UpgradeOutcome::AlreadyCurrent { version }),
        }
    }

    /// The outcome once all but the first `skip` migrations are committed.
    pub open spec fn applied_outcome(self, from: u64, skip: nat) -> OutcomeView {
        let version = self.plan.current_version();
        let applied = (self.plan.migrations.len() - skip) as usize;
        match self.workflow {
            Workflow::Setup => OutcomeView::Setup(SetupOutcome::Created { version, applied }),
            _ => OutcomeView::Upgrade(UpgradeOutcome::Applied { from, to: version, applied }),
        }
    }
}

/// One run of a lifecycle workflow.
pub struct Session {
    workflow: Workflow,
    plan: SchemaPlan,
    checksums: Vec<String>,
    stage: Stage,
}

/// What a reply leads to.
pub enum Progress {
    /// The session goes on with its next request.
    Continue(Session),
    /// The workflow has ended.
    Finished(Result<Outcome, PostgresKitError>),
}

impl View for Session {
    type V = SessionView;

    closed spec fn view(&self) -> SessionView {
        SessionView {
            workflow: self.workflow,
            plan: self.plan@,
            checksums: history::texts_view(self.checksums@),
            stage: self.stage@,
        }
    }
}

impl View for Progress {
    type V = ProgressView;

    open spec fn view(&self) -> ProgressView {
        match *self {
            Progress::Continue(session) => ProgressView::Continue(session@),
            Progress::Finished(Ok(outcome)) => ProgressView::Finished(Ok(outcome@)),
            Progress::Finished(Err(error)) => ProgressView::Finished(Err(error@)),
        }
    }
}

impl Session {
    /// Only valid sessions are ever constructed.
    #[verifier::type_invariant]
    pub open spec fn is_valid(self) -> bool {
        self@.is_valid()
    }

    /// Starts a workflow for a plan, whose checksums it computes.
    pub fn begin(workflow: Workflow, plan: SchemaPlan) -> (session: Session)
        requires
            plan@.is_digestible(),
        ensures
            session@ == SessionView::start(workflow, plan@, plan@.checksums()),
            session@.is_valid(),
    {
        let checksums = plan.checksums();
        assert(history::texts_view(checksums@) == plan@.checksums());
        assert(history::texts_view(checksums@).len() == plan@.migrations.len());
        Session::with_checksums(workflow, plan, checksums)
    }

    /// Starts a workflow for a plan, given the checksums of its migrations.
    pub fn with_checksums(workflow: Workflow, plan: SchemaPlan, checksums: Vec<String>) -> (session:
        Session)
        requires
            checksums@.len() == plan@.migrations.len(),
        ensures
            session@ == SessionView::start(workflow, plan@, history::texts_view(checksums@)),
            session@.is_valid(),
    {
        proof {
            use_type_invariant(&plan);
        }
        Session { workflow, plan, checksums, stage: Stage::Connection }
    }

    /// Returns what to ask of the database now.
    pub fn request(&self) -> (request: Request)
        ensures
            request@ == self@.request(),
    {
        proof {
            use_type_invariant(self);
            crate::plan::law_valid_plan(self.plan@);
        }
        let schema = self.plan.schema();
        match &self.stage {
            Stage::Connection => plain_request(
                match self.workflow {
                    Workflow::Prepare => "acquire verification connection",
                    Workflow::Setup => "acquire setup connection",
                    Workflow::Upgrade => "acquire upgrade connection",
                },
                RequestKind::Acquire,
                "".to_owned(),
            ),
            Stage::Transaction => plain_request(
                match self.workflow {
                    Workflow::Setup => "begin setup transaction",
                    _ => "begin upgrade transaction",
                },
                RequestKind::Begin,
                "".to_owned(),
            ),
            Stage::Lock => schema_request(
                "lock owned schema",
                RequestKind::Execute,
                statements::LOCK_SCHEMA,
                schema,
            ),
            Stage::Owner => schema_request(
                "inspect schema ownership",
                RequestKind::FetchOptionalText,
                statements::READ_OWNER,
                schema,
            ),
            Stage::Role { .. } => plain_request(
                "inspect current database role",
                RequestKind::FetchText,
                statements::READ_ROLE.to_owned(),
            ),
            Stage::LedgerPresence => {
                let mut binds: Vec<Bind> = Vec::new();
                binds.push(Bind::Text(schema.to_owned()));
                binds.push(Bind::Text(statements::LEDGER_TABLE.to_owned()));
                let request = Request {
                    operation: "inspect migration ledger",
                    kind: RequestKind::FetchFlag,
                    sql: statements::READ_LEDGER_PRESENCE.to_owned(),
                    binds,
                };
                assert(request@.binds =~= self@.request().binds);
                request
            },
            Stage::LedgerRows => plain_request(
                "read migration ledger",
                RequestKind::FetchRows,
                statements::read_ledger(schema),
            ),
            Stage::CreateSchema => plain_request(
                "create owned schema",
                RequestKind::ExecuteScript,
                statements::create_schema(schema),
            ),
            Stage::CreateLedger => plain_request(
                "create migration ledger",
                RequestKind::ExecuteScript,
                statements::create_ledger(schema),
            ),
            Stage::SelectSchema { .. } => plain_request(
                "select owned schema",
                RequestKind::ExecuteScript,
                statements::select_schema(schema),
            ),
            Stage::Apply { index, .. } => plain_request(
                "apply owned migration",
                RequestKind::ExecuteScript,
                self.plan.migrations()[*index].sql.to_owned(),
            ),
            Stage::Record { index, .. } => {
                let migration = self.plan.migrations()[*index];
                let mut binds: Vec<Bind> = Vec::new();
                binds.push(Bind::Number(migration.version as i64));
                binds.push(Bind::Text(migration.name.to_owned()));
                binds.push(Bind::Text(self.checksums[*index].clone()));
                let request = Request {
                    operation: "record owned migration",
                    kind: RequestKind::Execute,
                    sql: statements::record_migration(schema),
                    binds,
                };
                proof {
                    let expected = self@.request().binds;
                    assert(self@.checksums[*index as int] == self.checksums@[*index as int]@);
                    assert(request@.binds =~= expected);
                }
                request
            },
            Stage::Commit { .. } => plain_request(
                match self.workflow {
                    Workflow::Setup => "commit schema setup",
                    _ => "commit schema upgrade",
                },
                RequestKind::Commit,
                "".to_owned(),
            ),
        }
    }

    /// Takes the reply to the current request and moves on.
    pub fn advance(self, reply: Reply) -> (progress: Progress)
        ensures
            progress@ == self@.advance(reply@),
    {
        proof {
            use_type_invariant(&self);
            crate::plan::law_valid_plan(self.plan@);
        }
        if let Reply::Failed(source) = reply {
            let operation = self.request().operation;
            return Progress::Finished(Err(PostgresKitError::database(operation, source)));
        }
        let Session { workflow, plan, checksums, stage } = self;
        match (stage, reply) {
            (Stage::Connection, Reply::Done) => {
                let stage = match workflow {
                    Workflow::Prepare => Stage::Owner,
                    _ => Stage::Transaction,
                };
                Progress::Continue(Session { workflow, plan, checksums, stage })
            },
            (Stage::Transaction, Reply::Done) => Progress::Continue(
                Session { workflow, plan, checksums, stage: Stage::Lock },
            ),
            (Stage::Lock, Reply::Done) => Progress::Continue(
                Session { workflow, plan, checksums, stage: Stage::Owner },
            ),
            (Stage::Owner, Reply::OptionalText(None)) => match workflow {
                Workflow::Setup => Progress::Continue(
                    Session { workflow, plan, checksums, stage: Stage::CreateSchema },
                ),
                _ => Progress::Finished(
                    Err(PostgresKitError::SetupRequired { schema: plan.schema().to_owned() }),
                ),
            },
            (Stage::Owner, Reply::OptionalText(Some(owner))) => Progress::Continue(
                Session { workflow, plan, checksums, stage: Stage::Role { owner } },
            ),
            (Stage::Role { owner }, Reply::Text(current_role)) => {
                if text::same_text(owner.as_str(), current_role.as_str()) {
                    Progress::Continue(
                        Session { workflow, plan, checksums, stage: Stage::LedgerPresence },
                    )
                } else {
                    Progress::Finished(
                        Err(
                            PostgresKitError::OwnershipMismatch {
                                schema: plan.schema().to_owned(),
                                owner,
                                current_role,
                            },
                        ),
                    )
                }
            },
            (Stage::LedgerPresence, Reply::Flag(present)) => {
                if present {
                    Progress::Continue(
                        Session { workflow, plan, checksums, stage: Stage::LedgerRows },
                    )
                } else {
                    Progress::Finished(
                        Err(PostgresKitError::UnmanagedSchema { schema: plan.schema().to_owned() }),
                    )
                }
            },
            (Stage::LedgerRows, Reply::Rows(rows)) => match history::decode_ledger(
                plan.schema(),
                rows,
            ) {
                Err(error) => Progress::Finished(Err(error)),
                Ok(applied) => judge(workflow, plan, checksums, applied),
            },
            (Stage::CreateSchema, Reply::Done) => Progress::Continue(
                Session { workflow, plan, checksums, stage: Stage::CreateLedger },
            ),
            (Stage::CreateLedger, Reply::Done) => Progress::Continue(
                Session {
                    workflow,
                    plan,
                    checksums,
                    stage: Stage::SelectSchema { from: 0, skip: 0 },
                },
            ),
            (Stage::SelectSchema { from, skip }, Reply::Done) => Progress::Continue(
                next_migration(workflow, plan, checksums, from, skip, skip),
            ),
            (Stage::Apply { from, skip, index }, Reply::Done) => Progress::Continue(
                Session { workflow, plan, checksums, stage: Stage::Record { from, skip, index } },
            ),
            (Stage::Record { from, skip, index }, Reply::Done) => {
                let total = plan.migrations().len();
                assert(index < total);
                Progress::Continue(
                    next_migration(workflow, plan, checksums, from, skip, index + 1),
                )
            },
            (Stage::Commit { from, skip }, Reply::Done) => {
                let version = plan.current_version();
                let applied = plan.migrations().len() - skip;
                let outcome = match workflow {
                    Workflow::Setup => Outcome::Setup(SetupOutcome::Created { version, applied }),
                    _ => Outcome::Upgrade(UpgradeOutcome::Applied { from, to: version, applied }),
                };
                Progress::Finished(Ok(outcome))
            },
            (stage, _) => Progress::Continue(Session { workflow, plan, checksums, stage }),
        }
    }
}

fn plain_request(operation: &'static str, kind: RequestKind, sql: String) -> (request: Request)
    ensures
        request@ == (RequestView {
            operation: operation@,
            kind,
            sql: sql@,
            binds: Seq::empty(),
        }),
{
    let request = Request { operation, kind, sql, binds: Vec::new() };
    assert(request@.binds =~= Seq::empty());
    request
}

fn schema_request(
    operation: &'static str,
    kind: RequestKind,
    sql: &str,
    schema: &str,
) -> (request: Request)
    ensures
        request@ == (RequestView {
            operation: operation@,
            kind,
            sql: sql@,
            binds: seq![BindView::Text(schema@)],
        }),
{
    let mut binds: Vec<Bind> = Vec::new();
    binds.push(Bind::Text(schema.to_owned()));
    let request = Request { operation, kind, sql: sql.to_owned(), binds };
    assert(request@.binds =~= seq![BindView::Text(schema@)]);
    request
}

/// Moves on to the migration at `index`, or to the commit after the last one.
fn next_migration(
    workflow: Workflow,
    plan: SchemaPlan,
    checksums: Vec<String>,
    from: u64,
    skip: usize,
    index: usize,
) -> (session: Session)
    requires
        checksums@.len() == plan@.migrations.len(),
        skip <= index <= plan@.migrations.len(),
    ensures
        session@ == SessionView::start(
            workflow,
            plan@,
            history::texts_view(checksums@),
        ).next_migration(from, skip as nat, index as nat),
{
    let stage = if index < plan.migrations().len() {
        Stage::Apply { from, skip, index }
    } else {
        Stage::Commit { from, skip }
    };
    Session { workflow, plan, checksums, stage }
}

/// Decides what follows from the applied history of a managed schema.
fn judge(
    workflow: Workflow,
    plan: SchemaPlan,
    checksums: Vec<String>,
    applied: Vec<AppliedMigration>,
) -> (progress: Progress)
    requires
        checksums@.len() == plan@.migrations.len(),
    ensures
        progress@ == SessionView::start(
            workflow,
            plan@,
            history::texts_view(checksums@),
        ).judge(history::applied_view(applied@)),
{
    proof {
        use_type_invariant(&plan);
        history::law_accepted_histories(
            plan@,
            history::texts_view(checksums@),
            history::applied_view(applied@),
        );
    }
    let current = match history::check_history(&plan, checksums.as_slice(), applied.as_slice()) {
        Ok(current) => current,
        Err(error) => {
            return Progress::Finished(Err(error));
        },
    };
    let version = plan.current_version();
    if current == version {
        let outcome = match workflow {
            Workflow::Prepare => Outcome::Prepared(Verification { plan }),
            Workflow::Setup => Outcome::Setup(SetupOutcome::AlreadyCurrent { version }),
            Workflow::Upgrade => Outcome::Upgrade(UpgradeOutcome::AlreadyCurrent { version }),
        };
        return Progress::Finished(Ok(outcome));
    }
    match workflow {
        Workflow::Upgrade => Progress::Continue(
            Session {
                workflow,
                plan,
                checksums,
                stage: Stage::SelectSchema { from: current, skip: applied.len() },
            },
        ),
        _ => Progress::Finished(
            Err(
                PostgresKitError::UpgradeRequired {
                    schema: plan.schema().to_owned(),
                    current,
                    expected: version,
                },
            ),
        ),
    }
}

/// The models of what goes to the database and of what comes back keep every field,
/// each in its place.
pub proof fn law_exchange_models(bind: Bind, request: Request, reply: Reply)
    ensures
        match bind {
            Bind::Number(n) => bind@ matches BindView::Number(value) && value == n,
            Bind::Text(t) => bind@ matches BindView::Text(value) && value == t@,
        },
        request@.operation == request.operation@,
        request@.kind == request.kind,
        request@.sql == request.sql@,
        request@.binds.len() == request.binds@.len(),
        forall|i: int|
            0 <= i < request.binds@.len() ==> #[trigger] request@.binds[i] == request.binds@[i]@,
        match reply {
            Reply::Done => reply@ is Done,
            Reply::OptionalText(None) => reply@ matches ReplyView::OptionalText(value) && value
                is None,
            Reply::OptionalText(Some(t)) => reply@ matches ReplyView::OptionalText(Some(value))
                && value == t@,
            Reply::Text(t) => reply@ matches ReplyView::Text(value) && value == t@,
            Reply::Flag(f) => reply@ matches ReplyView::Flag(value) && value == f,
            Reply::Rows(r) => reply@ matches ReplyView::Rows(rows) && rows.len() == r@.len()
                && forall|i: int| 0 <= i < rows.len() ==> #[trigger] rows[i] == r@[i]@,
            Reply::Failed(e) => reply@ matches ReplyView::Failed(source) && source == e,
        },
{
}

/// The models of how a session goes on or ends keep every field, each in its place.
pub proof fn law_progress_models(outcome: Outcome, progress: Progress)
    ensures
        match outcome {
            Outcome::Prepared(v) => outcome@ matches OutcomeView::Prepared(plan) && plan == v@,
            Outcome::Setup(o) => outcome@ matches OutcomeView::Setup(value) && value == o,
            Outcome::Upgrade(o) => outcome@ matches OutcomeView::Upgrade(value) && value == o,
        },
        match progress {
            Progress::Continue(s) => progress@ matches ProgressView::Continue(session) && session
                == s@,
            Progress::Finished(Ok(o)) => progress@ matches ProgressView::Finished(Ok(value))
                && value == o@,
            Progress::Finished(Err(e)) => progress@ matches ProgressView::Finished(Err(value))
                && value == e@,
        },
{
}

/// A session starts with exactly what it was given, at its connection, and is valid
/// wherever the plan is and every migration has a checksum. At another stage it is
/// the same session but for the stage.
pub proof fn law_starts(
    workflow: Workflow,
    plan: PlanView,
    checksums: Seq<Seq<char>>,
    stage: StageView,
)
    ensures
        ({
            let start = SessionView::start(workflow, plan, checksums);
            &&& start.workflow == workflow
            &&& start.plan == plan
            &&& start.checksums == checksums
            &&& start.stage == StageView::Connection
            &&& start.is_valid() <==> plan.is_valid() && checksums.len() == plan.migrations.len()
            &&& start.at(stage).workflow == workflow
            &&& start.at(stage).plan == plan
            &&& start.at(stage).checksums == checksums
            &&& start.at(stage).stage == stage
        }),
{
}

/// What a session asks for in the course of the connection: no statement, only the
/// connection, the transaction or its commit, under the name of the workflow.
pub proof fn law_control_requests(session: SessionView)
    ensures
        session.stage is Connection || session.stage is Transaction || session.stage is Commit ==> {
            &&& session.request().sql.len() == 0
            &&& session.request().binds.len() == 0
        },
        session.stage is Connection ==> {
            &&& session.request().kind == RequestKind::Acquire
            &&& session.workflow == Workflow::Prepare ==> session.request().operation
                == "acquire verification connection"@
            &&& session.workflow == Workflow::Setup ==> session.request().operation
                == "acquire setup connection"@
            &&& session.workflow == Workflow::Upgrade ==> session.request().operation
                == "acquire upgrade connection"@
        },
        session.stage is Transaction ==> {
            &&& session.request().kind == RequestKind::Begin
            &&& session.workflow == Workflow::Setup ==> session.request().operation
                == "begin setup transaction"@
            &&& session.workflow == Workflow::Upgrade ==> session.request().operation
                == "begin upgrade transaction"@
        },
        session.stage is Commit ==> {
            &&& session.request().kind == RequestKind::Commit
            &&& session.workflow == Workflow::Setup ==> session.request().operation
                == "commit schema setup"@
            &&& session.workflow == Workflow::Upgrade ==> session.request().operation
                == "commit schema upgrade"@
        },
{
    reveal_strlit("");
}

/// The lock that setup and upgrade take is named by the plan's schema, the one
/// parameter of the request, and by nothing else. So two runs take the same lock
/// exactly when they are about the same schema.
pub proof fn law_lock_is_of_the_schema(a: SessionView, b: SessionView)
    requires
        a.stage is Lock,
        b.stage is Lock,
    ensures
        a.request().binds.len() == 1,
        a.request().binds[0] matches BindView::Text(schema) && schema == a.plan.schema,
        a.request().sql == statements::LOCK_SCHEMA@,
        a.request().kind == RequestKind::Execute,
        a.request().operation == "lock owned schema"@,
        a.request() == b.request() <==> a.plan.schema == b.plan.schema,
{
    if a.request() == b.request() {
        assert(a.request().binds[0] == b.request().binds[0]);
    }
}

/// What the inspection of a schema asks for: the owner of this schema, the role of
/// the connection, the ledger's table in this schema, and the rows of this schema's
/// ledger, each under its name and in the form in which the answer is expected.
pub proof fn law_inspection_requests(session: SessionView)
    ensures
        ({
            let request = session.request();
            let schema = session.plan.schema;
            &&& session.stage is Owner ==> {
                &&& request.operation == "inspect schema ownership"@
                &&& request.kind == RequestKind::FetchOptionalText
                &&& request.sql == statements::READ_OWNER@
                &&& request.binds.len() == 1
                &&& request.binds[0] == BindView::Text(schema)
            }
            &&& session.stage is Role ==> {
                &&& request.operation == "inspect current database role"@
                &&& request.kind == RequestKind::FetchText
                &&& request.sql == statements::READ_ROLE@
                &&& request.binds.len() == 0
            }
            &&& session.stage is LedgerPresence ==> {
                &&& request.operation == "inspect migration ledger"@
                &&& request.kind == RequestKind::FetchFlag
                &&& request.sql == statements::READ_LEDGER_PRESENCE@
                &&& request.binds.len() == 2
                &&& request.binds[0] == BindView::Text(schema)
                &&& request.binds[1] == BindView::Text("_lenso_schema_migrations"@)
            }
            &&& session.stage is LedgerRows ==> {
                &&& request.operation == "read migration ledger"@
                &&& request.kind == RequestKind::FetchRows
                &&& request.sql == statements::read_ledger_text(schema)
                &&& request.binds.len() == 0
            }
        }),
{
}

/// What setup and upgrade ask for to change a schema: to create it and its ledger,
/// to select it, to run the script of one migration as it was authored, and to
/// record that same migration by its version, its name and its own checksum.
pub proof fn law_changing_requests(session: SessionView)
    requires
        session.is_valid(),
    ensures
        ({
            let request = session.request();
            let schema = session.plan.schema;
            &&& session.stage is CreateSchema ==> {
                &&& request.operation == "create owned schema"@
                &&& request.kind == RequestKind::ExecuteScript
                &&& request.sql == statements::create_schema_text(schema)
                &&& request.binds.len() == 0
            }
            &&& session.stage is CreateLedger ==> {
                &&& request.operation == "create migration ledger"@
                &&& request.kind == RequestKind::ExecuteScript
                &&& request.sql == statements::create_ledger_text(schema)
                &&& request.binds.len() == 0
            }
            &&& session.stage is SelectSchema ==> {
                &&& request.operation == "select owned schema"@
                &&& request.kind == RequestKind::ExecuteScript
                &&& request.sql == statements::select_schema_text(schema)
                &&& request.binds.len() == 0
            }
            &&& session.stage matches StageView::Apply { index, .. } ==> {
                &&& request.operation == "apply owned migration"@
                &&& request.kind == RequestKind::ExecuteScript
                &&& request.sql == session.plan.migrations[index as int].sql@
                &&& request.binds.len() == 0
            }
            &&& session.stage matches StageView::Record { index, .. } ==> {
                &&& request.operation == "record owned migration"@
                &&& request.kind == RequestKind::Execute
                &&& request.sql == statements::record_migration_text(schema)
                &&& request.binds.len() == 3
                &&& request.binds[0] matches BindView::Number(version) && version
                    == session.plan.migrations[index as int].version && version == index + 1
                &&& request.binds[1] matches BindView::Text(name) && name
                    == session.plan.migrations[index as int].name@
                &&& request.binds[2] matches BindView::Text(checksum) && checksum
                    == session.checksums[index as int]
            }
        }),
{
    crate::plan::law_valid_plan(session.plan);
}

/// Which request is made depends on the plan and the stage alone, save for the name
/// of the workflow under which the connection, the transaction and the commit fail.
pub proof fn law_workflows_ask_alike(a: SessionView, b: SessionView)
    requires
        a.plan == b.plan,
        a.checksums == b.checksums,
        a.stage == b.stage,
    ensures
        a.request().kind == b.request().kind,
        a.request().sql == b.request().sql,
        a.request().binds == b.request().binds,
        !(a.stage is Connection || a.stage is Transaction || a.stage is Commit) ==> a.request()
            == b.request(),
{
}

/// Every statement that takes parameters comes with exactly as many as it has
/// placeholders, numbered from one. The script of a migration takes none: it is run
/// as it stands.
pub proof fn law_parameters_match_placeholders(session: SessionView)
    requires
        session.is_valid(),
    ensures
        ({
            let request = session.request();
            &&& session.stage is Apply ==> request.binds.len() == 0 && request.kind
                == RequestKind::ExecuteScript
            &&& !(session.stage is Apply) ==> {
                &&& statements::dollars(request.sql) == request.binds.len()
                &&& forall|k: int|
                    1 <= k <= request.binds.len() ==> #[trigger] statements::holds_placeholder(
                        request.sql,
                        k,
                    )
            }
        }),
{
    statements::law_placeholders(session.plan.schema);
    reveal_strlit("");
}

/// How a workflow that changed nothing, or that committed, tells its end: with the
/// version of the plan, which is the number of its migrations, and with the number
/// of those that were applied.
pub proof fn law_outcomes_tell_the_version(session: SessionView, from: u64, skip: nat)
    requires
        session.is_valid(),
        skip <= session.plan.migrations.len() <= usize::MAX,
    ensures
        match session.workflow {
            Workflow::Prepare => session.unchanged_outcome() matches OutcomeView::Prepared(plan)
                && plan == session.plan,
            Workflow::Setup => {
                &&& session.unchanged_outcome() matches OutcomeView::Setup(
                    SetupOutcome::AlreadyCurrent { version },
                ) && version == session.plan.migrations.len()
                &&& session.applied_outcome(from, skip) matches OutcomeView::Setup(
                    SetupOutcome::Created { version, applied },
                ) && version == session.plan.migrations.len() && applied + skip
                    == session.plan.migrations.len()
            },
            Workflow::Upgrade => {
                &&& session.unchanged_outcome() matches OutcomeView::Upgrade(
                    UpgradeOutcome::AlreadyCurrent { version },
                ) && version == session.plan.migrations.len()
                &&& session.applied_outcome(from, skip) matches OutcomeView::Upgrade(
                    UpgradeOutcome::Applied { from: start, to, applied },
                ) && start == from && to == session.plan.migrations.len() && applied + skip
                    == session.plan.migrations.len()
            },
        },
{
    crate::plan::law_valid_plan(session.plan);
}

/// The order of the steps that tell nothing back. Preparation goes from its
/// connection straight to the inspection; setup and upgrade begin the transaction
/// and take the lock first. A new schema is created before its ledger, the ledger
/// before the schema is selected. Then the pending migrations follow one by one,
/// each applied and then recorded, and the commit comes after the last.
pub proof fn law_order_of_steps(session: SessionView)
    ensures
        ({
            let n = session.plan.migrations.len();
            let next = session.advance(ReplyView::Done);
            &&& session.stage is Connection && session.workflow == Workflow::Prepare ==> (
            next matches ProgressView::Continue(later) && later == session.at(StageView::Owner))
            &&& session.stage is Connection && session.workflow != Workflow::Prepare ==> (
            next matches ProgressView::Continue(later) && later == session.at(
                StageView::Transaction,
            ))
            &&& session.stage is Transaction ==> (next matches ProgressView::Continue(later)
                && later == session.at(StageView::Lock))
            &&& session.stage is Lock ==> (next matches ProgressView::Continue(later) && later
                == session.at(StageView::Owner))
            &&& session.stage is CreateSchema ==> (next matches ProgressView::Continue(later)
                && later == session.at(StageView::CreateLedger))
            &&& session.stage is CreateLedger ==> (next matches ProgressView::Continue(later)
                && later == session.at(StageView::SelectSchema { from: 0, skip: 0 }))
            &&& session.stage matches StageView::SelectSchema { from, skip } ==> (
            next matches ProgressView::Continue(later) && later == session.at(
                if skip < n {
                    StageView::Apply { from, skip, index: skip }
                } else {
                    StageView::Commit { from, skip }
                },
            ))
            &&& session.stage matches StageView::Apply { from, skip, index } ==> (
            next matches ProgressView::Continue(later) && later == session.at(
                StageView::Record { from, skip, index },
            ))
            &&& session.stage matches StageView::Record { from, skip, index } ==> (
            next matches ProgressView::Continue(later) && later == session.at(
                if index + 1 < n {
                    StageView::Apply { from, skip, index: index + 1 }
                } else {
                    StageView::Commit { from, skip }
                },
            ))
            &&& session.stage is Commit ==> (next matches ProgressView::Finished(Ok(_)))
        }),
{
}

/// The order of the steps of an inspection: the owner before the role, the role
/// before the ledger, the ledger's presence before its rows. A missing schema leads
/// to its creation in setup alone, and nothing but a full agreement leads on.
pub proof fn law_order_of_inspection(
    session: SessionView,
    owner: Seq<char>,
    role: Seq<char>,
)
    ensures
        session.stage is Owner ==> {
            &&& session.advance(ReplyView::OptionalText(Some(owner))) == ProgressView::Continue(
                session.at(StageView::Role { owner }),
            )
            &&& session.workflow == Workflow::Setup ==> session.advance(
                ReplyView::OptionalText(None),
            ) == ProgressView::Continue(session.at(StageView::CreateSchema))
            &&& session.workflow != Workflow::Setup ==> session.advance(
                ReplyView::OptionalText(None),
            ) == ProgressView::Finished(
                Err(ErrorView::SetupRequired { schema: session.plan.schema }),
            )
        },
        session.stage == (StageView::Role { owner }) ==> {
            &&& session.advance(ReplyView::Text(owner)) == ProgressView::Continue(
                session.at(StageView::LedgerPresence),
            )
            &&& role != owner ==> session.advance(ReplyView::Text(role)) == ProgressView::Finished(
                Err(
                    ErrorView::OwnershipMismatch {
                        schema: session.plan.schema,
                        owner,
                        current_role: role,
                    },
                ),
            )
        },
        session.stage is LedgerPresence ==> {
            &&& session.advance(ReplyView::Flag(true)) == ProgressView::Continue(
                session.at(StageView::LedgerRows),
            )
            &&& session.advance(ReplyView::Flag(false)) == ProgressView::Finished(
                Err(ErrorView::UnmanagedSchema { schema: session.plan.schema }),
            )
        },
{
}

} // verus!
