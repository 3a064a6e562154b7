//! What holds of whole lifecycle runs, whatever the database replies.

use vstd::prelude::*;

use crate::error::{ErrorView, SetupOutcome, UpgradeOutcome};
use crate::history::{AppliedView, RowView};
use crate::plan::PlanView;
use crate::session::{
    BindView, OutcomeView, ProgressView, ReplyView, RequestKind, RequestView, SessionView, StageView, Workflow,
};
use crate::{history, plan, statements};

verus! {

impl SessionView {
    /// Where the session is after a series of replies.
    pub open spec fn run(self, replies: Seq<ReplyView>) -> ProgressView
        decreases replies.len(),
    {
        if replies.len() == 0 {
            ProgressView::Continue(self)
        } else {
            match self.run(replies.drop_last()) {
                ProgressView::Continue(session) => session.advance(replies.last()),
                ProgressView::Finished(result) => ProgressView::Finished(result),
            }
        }
    }

    /// In the course of `replies` the session stood at `stage` and received `reply`.
    #[verifier::opaque]
    pub open spec fn answered(
        self,
        replies: Seq<ReplyView>,
        stage: StageView,
        reply: ReplyView,
    ) -> bool {
        exists|k: int|
            #![trigger replies[k]]
            0 <= k < replies.len() && self.run(replies.take(k)) == ProgressView::Continue(
                self.at(stage),
            ) && replies[k] == reply
    }

    /// The reply is of the kind that the current request asks for.
    pub open spec fn is_answer(self, reply: ReplyView) -> bool {
        match (self.request().kind, reply) {
            (_, ReplyView::Failed(_)) => true,
            (RequestKind::FetchOptionalText, ReplyView::OptionalText(_)) => true,
            (RequestKind::FetchText, ReplyView::Text(_)) => true,
            (RequestKind::FetchFlag, ReplyView::Flag(_)) => true,
            (RequestKind::FetchRows, ReplyView::Rows(_)) => true,
            (RequestKind::Acquire, ReplyView::Done) => true,
            (RequestKind::Begin, ReplyView::Done) => true,
            (RequestKind::Execute, ReplyView::Done) => true,
            (RequestKind::ExecuteScript, ReplyView::Done) => true,
            (RequestKind::Commit, ReplyView::Done) => true,
            _ => false,
        }
    }

    /// A bound on the number of requests that are still to come.
    pub open spec fn requests_left(self) -> nat {
        let n = self.plan.migrations.len();
        match self.stage {
            StageView::Connection => 2 * n + 11,
            StageView::Transaction => 2 * n + 10,
            StageView::Lock => 2 * n + 9,
            StageView::Owner => 2 * n + 8,
            StageView::Role { .. } => 2 * n + 7,
            StageView::LedgerPresence => 2 * n + 6,
            StageView::LedgerRows => 2 * n + 5,
            StageView::CreateSchema => 2 * n + 4,
            StageView::CreateLedger => 2 * n + 3,
            StageView::SelectSchema { .. } => 2 * n + 2,
            StageView::Apply { index, .. } => (2 * (n - index) + 1) as nat,
            StageView::Record { index, .. } => (2 * (n - index)) as nat,
            StageView::Commit { .. } => 1,
        }
    }

    /// The ledger row that the record request of the migration at `index` writes.
    pub open spec fn recorded_row(self, index: int) -> RowView {
        written_row(self.at(StageView::Record { from: 0, skip: 0, index: index as nat }).request())
    }

    /// The ledger once the first `count` migrations are recorded.
    pub open spec fn recorded_rows(self, count: nat) -> Seq<RowView> {
        Seq::new(count, |i: int| self.recorded_row(i))
    }

    /// The ledger within the transaction of the run, where it held `rows` at the
    /// start: each record request that was answered well has added its row.
    pub open spec fn ledger(self, replies: Seq<ReplyView>, rows: Seq<RowView>) -> Seq<RowView>
        decreases replies.len(),
    {
        if replies.len() == 0 {
            rows
        } else {
            let before = self.ledger(replies.drop_last(), rows);
            match self.run(replies.drop_last()) {
                ProgressView::Continue(session) => if session.stage is Record && replies.last()
                    == ReplyView::Done {
                    before.push(written_row(session.request()))
                } else {
                    before
                },
                ProgressView::Finished(_) => before,
            }
        }
    }

    /// In the course of `replies` the session never stood at a changing stage.
    pub open spec fn changes_nothing(self, replies: Seq<ReplyView>) -> bool {
        forall|k: int|
            0 <= k <= replies.len() ==> (self.run(#[trigger] replies.take(k)) matches
                ProgressView::Continue(session) ==> !is_changing(session.stage))
    }

    /// The changing requests that were answered well in the course of `replies`,
    /// in order.
    pub open spec fn executed(self, replies: Seq<ReplyView>) -> Seq<RequestView>
        decreases replies.len(),
    {
        if replies.len() == 0 {
            Seq::empty()
        } else {
            let before = self.executed(replies.drop_last());
            match self.run(replies.drop_last()) {
                ProgressView::Continue(session) => if is_changing(session.stage) && replies.last()
                    == ReplyView::Done {
                    before.push(session.request())
                } else {
                    before
                },
                ProgressView::Finished(_) => before,
            }
        }
    }

    /// The migration scripts that were run well in the course of `replies`, in
    /// order.
    pub open spec fn scripts(self, replies: Seq<ReplyView>) -> Seq<Seq<char>>
        decreases replies.len(),
    {
        if replies.len() == 0 {
            Seq::empty()
        } else {
            let before = self.scripts(replies.drop_last());
            match self.run(replies.drop_last()) {
                ProgressView::Continue(session) => if session.stage is Apply && replies.last()
                    == ReplyView::Done {
                    before.push(session.request().sql)
                } else {
                    before
                },
                ProgressView::Finished(_) => before,
            }
        }
    }

    /// The scripts of the first `count` migrations of the plan.
    pub open spec fn planned_scripts(self, count: nat) -> Seq<Seq<char>> {
        Seq::new(count, |i: int| self.plan.migrations[i].sql@)
    }

    /// The request that runs the script of the migration at `index`.
    pub open spec fn apply_request(self, index: nat) -> RequestView {
        self.at(StageView::Apply { from: 0, skip: 0, index }).request()
    }

    /// The request that records the migration at `index`.
    pub open spec fn record_request(self, index: nat) -> RequestView {
        self.at(StageView::Record { from: 0, skip: 0, index }).request()
    }

    /// The requests that apply and record the migrations from `skip` up to `end`,
    /// one after the other.
    pub open spec fn migration_requests(self, skip: nat, end: nat) -> Seq<RequestView>
        decreases end,
    {
        if end <= skip {
            Seq::empty()
        } else {
            let last = (end - 1) as nat;
            self.migration_requests(skip, last).push(self.apply_request(last)).push(
                self.record_request(last),
            )
        }
    }

    /// The requests that come before the first pending migration: setup creates
    /// the schema and its ledger, and both workflows select the schema.
    pub open spec fn preface(self) -> Seq<RequestView> {
        let select = self.at(StageView::SelectSchema { from: 0, skip: 0 }).request();
        if self.workflow == Workflow::Setup {
            seq![
                self.at(StageView::CreateSchema).request(),
                self.at(StageView::CreateLedger).request(),
                select,
            ]
        } else {
            seq![select]
        }
    }

    /// All the changing requests of a complete run that skips the first `skip`
    /// migrations.
    pub open spec fn complete_requests(self, skip: nat) -> Seq<RequestView> {
        (self.preface() + self.migration_requests(skip, self.plan.migrations.len())).push(
            self.at(StageView::Commit { from: 0, skip: 0 }).request(),
        )
    }

    /// In the course of `replies` the owner of the schema was found to be the role
    /// of the connection.
    pub open spec fn found_own_schema(self, replies: Seq<ReplyView>) -> bool {
        exists|role: Seq<char>|
            {
                &&& self.answered(replies, StageView::Owner, ReplyView::OptionalText(Some(role)))
                &&& #[trigger] self.answered(
                    replies,
                    StageView::Role { owner: role },
                    ReplyView::Text(role),
                )
            }
    }

    /// In the course of `replies` the schema was found to be the connection's own,
    /// with a ledger in it.
    pub open spec fn found_own_ledger(self, replies: Seq<ReplyView>) -> bool {
        &&& self.found_own_schema(replies)
        &&& self.answered(replies, StageView::LedgerPresence, ReplyView::Flag(true))
    }

    /// In the course of `replies` rows were read from the ledger that are exactly
    /// the entries of the plan.
    pub open spec fn read_complete_ledger(self, replies: Seq<ReplyView>) -> bool {
        exists|rows: Seq<RowView>|
            {
                &&& #[trigger] self.answered(
                    replies,
                    StageView::LedgerRows,
                    ReplyView::Rows(rows),
                )
                &&& history::decoded_rows(rows, self.plan.schema) == Ok::<
                    Seq<AppliedView>,
                    ErrorView,
                >(self.plan.entries(self.checksums))
            }
    }
}

/// The parameter that an `INSERT` request writes to a column, read off the columns
/// and the values that its statement lists.
pub open spec fn written_value(request: RequestView, column: Seq<char>) -> BindView {
    request.binds[statements::parameter_of(request.sql, column) - 1]
}

/// The ledger row that a record request writes.
pub open spec fn written_row(request: RequestView) -> RowView {
    RowView {
        version: Ok(written_value(request, "version"@)->Number_0),
        name: Ok(written_value(request, "name"@)->Text_0),
        checksum: Ok(written_value(request, "checksum"@)->Text_0),
    }
}

/// The stages that come after the schema lock is held.
pub open spec fn is_past_lock(stage: StageView) -> bool {
    match stage {
        StageView::Connection | StageView::Transaction | StageView::Lock => false,
        _ => true,
    }
}

/// The stages whose requests change the database.
pub open spec fn is_changing(stage: StageView) -> bool {
    match stage {
        StageView::CreateSchema
        | StageView::CreateLedger
        | StageView::SelectSchema { .. }
        | StageView::Apply { .. }
        | StageView::Record { .. }
        | StageView::Commit { .. } => true,
        _ => false,
    }
}

/// The pending migrations of a changing stage: the version reached before, and
/// how many migrations are skipped.
pub open spec fn pending(stage: StageView) -> Option<(u64, nat)> {
    match stage {
        StageView::SelectSchema { from, skip } => Some((from, skip)),
        StageView::Apply { from, skip, .. } => Some((from, skip)),
        StageView::Record { from, skip, .. } => Some((from, skip)),
        StageView::Commit { from, skip } => Some((from, skip)),
        _ => None,
    }
}

/// A series of `n` replies without content.
pub open spec fn all_done(n: nat) -> Seq<ReplyView> {
    Seq::new(n, |i: int| ReplyView::Done)
}

proof fn lemma_answered_earlier(
    session: SessionView,
    replies: Seq<ReplyView>,
    stage: StageView,
    reply: ReplyView,
)
    requires
        replies.len() > 0,
        session.answered(replies.drop_last(), stage, reply),
    ensures
        session.answered(replies, stage, reply),
{
    reveal(SessionView::answered);
    let rest = replies.drop_last();
    let k = choose|k: int|
        #![trigger rest[k]]
        0 <= k < rest.len() && session.run(rest.take(k)) == ProgressView::Continue(
            session.at(stage),
        ) && rest[k] == reply;
    assert(replies.take(k) == rest.take(k));
    assert(replies[k] == reply);
}

proof fn lemma_answered_last(session: SessionView, replies: Seq<ReplyView>, stage: StageView)
    requires
        replies.len() > 0,
        session.run(replies.drop_last()) == ProgressView::Continue(session.at(stage)),
    ensures
        session.answered(replies, stage, replies.last()),
{
    reveal(SessionView::answered);
    let k = replies.len() - 1;
    assert(replies.take(k) == replies.drop_last());
    assert(replies[k] == replies.last());
}

/// What was answered, but not before the last reply, was answered by it.
proof fn lemma_answered_now(
    session: SessionView,
    replies: Seq<ReplyView>,
    stage: StageView,
    reply: ReplyView,
)
    requires
        session.answered(replies, stage, reply),
        replies.len() > 0 ==> !session.answered(replies.drop_last(), stage, reply),
    ensures
        replies.len() > 0,
        session.run(replies.drop_last()) == ProgressView::Continue(session.at(stage)),
        replies.last() == reply,
{
    reveal(SessionView::answered);
    let k = choose|k: int|
        #![trigger replies[k]]
        0 <= k < replies.len() && session.run(replies.take(k)) == ProgressView::Continue(
            session.at(stage),
        ) && replies[k] == reply;
    let rest = replies.drop_last();
    if k < rest.len() {
        assert(rest.take(k) == replies.take(k));
        assert(rest[k] == reply);
    }
    assert(replies.take(k) == rest);
}

/// A session keeps its workflow, its plan and its checksums, and stays valid.
pub proof fn law_session_keeps_its_plan(session: SessionView, replies: Seq<ReplyView>)
    requires
        session.is_valid(),
    ensures
        session.run(replies) matches ProgressView::Continue(later) ==> later == session.at(
            later.stage,
        ) && later.is_valid(),
    decreases replies.len(),
{
    if replies.len() > 0 {
        law_session_keeps_its_plan(session, replies.drop_last());
        if let ProgressView::Continue(before) = session.run(replies.drop_last()) {
            if let (StageView::LedgerRows, ReplyView::Rows(rows)) = (
                before.stage,
                replies.last(),
            ) {
                if let Ok(applied) = history::decoded_rows(rows, session.plan.schema) {
                    history::law_accepted_histories(session.plan, session.checksums, applied);
                }
            }
        }
    } else {
        assert(session == session.at(session.stage));
    }
}

/// A failed request ends every workflow at once, and the error names the
/// operation of that request.
pub proof fn law_failure_ends_the_workflow(
    session: SessionView,
    source: sqlx_core::error::Error,
)
    ensures
        session.advance(ReplyView::Failed(source)) == ProgressView::Finished(
            Err(ErrorView::Database { operation: session.request().operation, source }),
        ),
{
}

/// Preparation only reads: every request of a preparation run takes the
/// connection or runs a `SELECT`, and the only good end is the verification of the
/// plan that the run is about.
pub proof fn law_preparation_only_reads(
    plan: PlanView,
    checksums: Seq<Seq<char>>,
    replies: Seq<ReplyView>,
)
    ensures
        match SessionView::start(Workflow::Prepare, plan, checksums).run(replies) {
            ProgressView::Continue(session) => {
                let request = session.request();
                ||| request.kind == RequestKind::Acquire
                ||| {
                    &&& request.kind == RequestKind::FetchOptionalText || request.kind
                        == RequestKind::FetchText || request.kind == RequestKind::FetchFlag
                        || request.kind == RequestKind::FetchRows
                    &&& "SELECT "@.is_prefix_of(request.sql)
                }
            },
            ProgressView::Finished(Ok(outcome)) => outcome == OutcomeView::Prepared(plan),
            ProgressView::Finished(Err(_)) => true,
        },
{
    let start = SessionView::start(Workflow::Prepare, plan, checksums);
    lemma_preparation_stages(start, replies);
    if let ProgressView::Continue(session) = start.run(replies) {
        lemma_reads_are_selects(session);
    }
}

proof fn lemma_preparation_stages(start: SessionView, replies: Seq<ReplyView>)
    requires
        start.workflow == Workflow::Prepare,
        start.stage == StageView::Connection,
    ensures
        match start.run(replies) {
            ProgressView::Continue(session) => {
                &&& session.workflow == Workflow::Prepare
                &&& !is_changing(session.stage)
                &&& session.stage != StageView::Transaction
                &&& session.stage != StageView::Lock
                &&& session.plan == start.plan
            },
            ProgressView::Finished(Ok(outcome)) => outcome == OutcomeView::Prepared(start.plan),
            ProgressView::Finished(Err(_)) => true,
        },
    decreases replies.len(),
{
    if replies.len() > 0 {
        lemma_preparation_stages(start, replies.drop_last());
    }
}

proof fn lemma_reads_are_selects(session: SessionView)
    ensures
        session.stage is Owner || session.stage is Role || session.stage is LedgerPresence
            || session.stage is LedgerRows ==> "SELECT "@.is_prefix_of(session.request().sql),
{
    statements::law_queries_are_selects(session.plan.schema);
}

/// Setup and upgrade work in one transaction and hold the schema lock before they
/// look at the schema: no later request is made, and no good end reached, unless
/// the transaction was begun and the lock granted.
pub proof fn law_transaction_and_lock_come_first(start: SessionView, replies: Seq<ReplyView>)
    requires
        start.is_valid(),
        start.workflow != Workflow::Prepare,
        start.stage == StageView::Connection,
    ensures
        match start.run(replies) {
            ProgressView::Continue(session) => {
                &&& session.stage == StageView::Lock || is_past_lock(session.stage)
                    ==> start.answered(replies, StageView::Transaction, ReplyView::Done)
                &&& is_past_lock(session.stage) ==> start.answered(
                    replies,
                    StageView::Lock,
                    ReplyView::Done,
                )
            },
            ProgressView::Finished(Ok(_)) => {
                &&& start.answered(replies, StageView::Transaction, ReplyView::Done)
                &&& start.answered(replies, StageView::Lock, ReplyView::Done)
            },
            ProgressView::Finished(Err(_)) => true,
        },
    decreases replies.len(),
{
    if replies.len() > 0 {
        let rest = replies.drop_last();
        law_transaction_and_lock_come_first(start, rest);
        law_session_keeps_its_plan(start, rest);
        if start.answered(rest, StageView::Transaction, ReplyView::Done) {
            lemma_answered_earlier(start, replies, StageView::Transaction, ReplyView::Done);
        }
        if start.answered(rest, StageView::Lock, ReplyView::Done) {
            lemma_answered_earlier(start, replies, StageView::Lock, ReplyView::Done);
        }
        if let ProgressView::Continue(before) = start.run(rest) {
            if before.stage == StageView::Lock || before.stage == StageView::Transaction {
                lemma_answered_last(start, replies, before.stage);
            }
        }
    }
}

/// Nothing follows the commit: its answer, good or bad, ends the workflow.
pub proof fn law_nothing_follows_the_commit(session: SessionView, reply: ReplyView)
    requires
        session.request().kind == RequestKind::Commit,
        session.is_answer(reply),
    ensures
        session.advance(reply) is Finished,
{
}

/// A workflow ends well only with an outcome of its own kind, and a preparation
/// only with the verification of its own plan.
pub proof fn law_outcome_is_of_the_workflow(start: SessionView, replies: Seq<ReplyView>)
    requires
        start.is_valid(),
        start.stage == StageView::Connection,
    ensures
        start.run(replies) matches ProgressView::Finished(Ok(outcome)) ==> match start.workflow {
            Workflow::Prepare => outcome == OutcomeView::Prepared(start.plan),
            Workflow::Setup => outcome is Setup,
            Workflow::Upgrade => outcome is Upgrade,
        },
    decreases replies.len(),
{
    if start.workflow == Workflow::Prepare {
        lemma_preparation_stages(start, replies);
    } else if replies.len() > 0 {
        law_outcome_is_of_the_workflow(start, replies.drop_last());
        law_session_keeps_its_plan(start, replies.drop_last());
    }
}

/// A commit that went through makes the run a success: the workflow ends with the
/// outcome that tells of the committed migrations, whatever replies may follow.
pub proof fn law_committed_means_success(
    start: SessionView,
    replies: Seq<ReplyView>,
    from: u64,
    skip: nat,
)
    requires
        start.answered(replies, StageView::Commit { from, skip }, ReplyView::Done),
    ensures
        start.run(replies) == ProgressView::Finished(Ok(start.applied_outcome(from, skip))),
    decreases replies.len(),
{
    let commit = StageView::Commit { from, skip };
    let rest = replies.drop_last();
    if replies.len() > 0 && start.answered(rest, commit, ReplyView::Done) {
        law_committed_means_success(start, rest, from, skip);
    } else {
        lemma_answered_now(start, replies, commit, ReplyView::Done);
    }
}

/// Setup and upgrade are atomic: in a run that ends in an error, or that has not
/// ended, no commit went through.
pub proof fn law_failed_run_has_not_committed(start: SessionView, replies: Seq<ReplyView>)
    ensures
        !(start.run(replies) matches ProgressView::Finished(Ok(_))) ==> forall|
            from: u64,
            skip: nat,
        |
            !#[trigger] start.answered(
                replies,
                StageView::Commit { from, skip },
                ReplyView::Done,
            ),
{
    assert forall|from: u64, skip: nat| #[trigger]
        start.answered(replies, StageView::Commit { from, skip }, ReplyView::Done) implies (
    start.run(replies) matches ProgressView::Finished(Ok(_))) by {
        law_committed_means_success(start, replies, from, skip);
    }
}

/// Outside the changing stages a session takes its connection, begins its
/// transaction or runs a `SELECT`.
pub proof fn law_unchanging_requests(session: SessionView)
    requires
        !is_changing(session.stage),
    ensures
        ({
            let request = session.request();
            ||| request.kind == RequestKind::Acquire
            ||| request.kind == RequestKind::Begin
            ||| "SELECT "@.is_prefix_of(request.sql)
        }),
{
    statements::law_queries_are_selects(session.plan.schema);
}

/// Once a session stands at a changing stage it stays at such stages, and then ends
/// with a commit or with a failure of the database.
proof fn lemma_changes_end(start: SessionView, replies: Seq<ReplyView>)
    requires
        start.stage == StageView::Connection,
    ensures
        !start.changes_nothing(replies) ==> match start.run(replies) {
            ProgressView::Continue(session) => is_changing(session.stage),
            ProgressView::Finished(Ok(outcome)) => outcome != start.unchanged_outcome(),
            ProgressView::Finished(Err(error)) => error is Database,
        },
    decreases replies.len(),
{
    if replies.len() == 0 {
        assert forall|k: int| 0 <= k <= replies.len() implies (start.run(
            #[trigger] replies.take(k),
        ) matches ProgressView::Continue(session) ==> !is_changing(session.stage)) by {
            assert(replies.take(k) == replies);
        }
    } else {
        let rest = replies.drop_last();
        lemma_changes_end(start, rest);
        lemma_workflow_stages(start, rest);
        let changing = match start.run(replies) {
            ProgressView::Continue(session) => is_changing(session.stage),
            ProgressView::Finished(_) => false,
        };
        if start.changes_nothing(rest) && !changing {
            assert forall|k: int| 0 <= k <= replies.len() implies (start.run(
                #[trigger] replies.take(k),
            ) matches ProgressView::Continue(session) ==> !is_changing(session.stage)) by {
                if k == replies.len() {
                    assert(replies.take(k) == replies);
                } else {
                    assert(replies.take(k) == rest.take(k));
                }
            }
        }
    }
}

/// A run that finds the schema already current, or that ends in an error other
/// than a failed database operation, never stood at a changing stage. So it made no
/// changing request.
pub proof fn law_refusals_change_nothing(start: SessionView, replies: Seq<ReplyView>)
    requires
        start.stage == StageView::Connection,
    ensures
        match start.run(replies) {
            ProgressView::Finished(Ok(outcome)) => outcome == start.unchanged_outcome(),
            ProgressView::Finished(Err(error)) => error !is Database,
            ProgressView::Continue(_) => false,
        } ==> start.changes_nothing(replies) && start.executed(replies) == Seq::<
            RequestView,
        >::empty(),
{
    lemma_changes_end(start, replies);
    if start.changes_nothing(replies) {
        lemma_nothing_executed(start, replies);
    }
}

proof fn lemma_nothing_executed(start: SessionView, replies: Seq<ReplyView>)
    requires
        start.changes_nothing(replies),
    ensures
        start.executed(replies) == Seq::<RequestView>::empty(),
    decreases replies.len(),
{
    if replies.len() > 0 {
        let rest = replies.drop_last();
        assert forall|k: int| 0 <= k <= rest.len() implies (start.run(
            #[trigger] rest.take(k),
        ) matches ProgressView::Continue(session) ==> !is_changing(session.stage)) by {
            assert(replies.take(k) == rest.take(k));
        }
        lemma_nothing_executed(start, rest);
        assert(rest.take(rest.len() as int) == rest);
    }
}

/// Setup changes the database only where the schema was found missing: it never
/// adopts an unmanaged schema and never upgrades a managed one.
pub proof fn law_setup_changes_only_a_missing_schema(
    start: SessionView,
    replies: Seq<ReplyView>,
)
    requires
        start.is_valid(),
        start.workflow == Workflow::Setup,
        start.stage == StageView::Connection,
    ensures
        match start.run(replies) {
            ProgressView::Continue(session) => {
                &&& is_changing(session.stage) ==> start.answered(
                    replies,
                    StageView::Owner,
                    ReplyView::OptionalText(None),
                )
                &&& pending(session.stage) matches Some(start_of_pending) ==> start_of_pending == (
                    0u64,
                    0nat,
                )
            },
            ProgressView::Finished(Ok(outcome)) => {
                ||| outcome == OutcomeView::Setup(
                    SetupOutcome::AlreadyCurrent { version: start.plan.current_version() },
                )
                ||| start.answered(replies, StageView::Owner, ReplyView::OptionalText(None))
            },
            ProgressView::Finished(Err(_)) => true,
        },
    decreases replies.len(),
{
    if replies.len() > 0 {
        let rest = replies.drop_last();
        law_setup_changes_only_a_missing_schema(start, rest);
        law_session_keeps_its_plan(start, rest);
        let missing = ReplyView::OptionalText(None);
        if start.answered(rest, StageView::Owner, missing) {
            lemma_answered_earlier(start, replies, StageView::Owner, missing);
        }
        if let ProgressView::Continue(before) = start.run(rest) {
            if before.stage == StageView::Owner {
                lemma_answered_last(start, replies, StageView::Owner);
            }
        }
    }
}

/// The ledger was read in the course of `replies`, and its first `skip` entries,
/// all that it held, are the first of the plan and reach version `from`.
pub open spec fn history_was_read(
    start: SessionView,
    replies: Seq<ReplyView>,
    from: u64,
    skip: nat,
) -> bool {
    exists|rows: Seq<RowView>|
        #![trigger history::decoded_rows(rows, start.plan.schema)]
        {
            &&& start.answered(replies, StageView::LedgerRows, ReplyView::Rows(rows))
            &&& history::decoded_rows(rows, start.plan.schema) == Ok::<
                Seq<AppliedView>,
                ErrorView,
            >(start.plan.entries(start.checksums).take(skip as int))
            &&& from == skip
            &&& skip < start.plan.migrations.len()
        }
}

/// Upgrade changes the database only after it has read a history that is a start
/// of the plan, never creates a schema or a ledger, and skips exactly the
/// migrations of that history.
pub proof fn law_upgrade_applies_only_pending(start: SessionView, replies: Seq<ReplyView>)
    requires
        start.is_valid(),
        start.workflow == Workflow::Upgrade,
        start.stage == StageView::Connection,
    ensures
        match start.run(replies) {
            ProgressView::Continue(session) => is_changing(session.stage) ==> {
                &&& pending(session.stage) matches Some((from, skip))
                &&& history_was_read(start, replies, from, skip)
            },
            ProgressView::Finished(Ok(outcome)) => {
                ||| outcome == OutcomeView::Upgrade(
                    UpgradeOutcome::AlreadyCurrent { version: start.plan.current_version() },
                )
                ||| exists|from: u64, skip: nat|
                    outcome == start.applied_outcome(from, skip) && #[trigger] history_was_read(
                        start,
                        replies,
                        from,
                        skip,
                    )
            },
            ProgressView::Finished(Err(_)) => true,
        },
    decreases replies.len(),
{
    if replies.len() > 0 {
        let rest = replies.drop_last();
        law_upgrade_applies_only_pending(start, rest);
        law_session_keeps_its_plan(start, rest);
        match start.run(rest) {
            ProgressView::Continue(before) => {
                if let Some((from, skip)) = pending(before.stage) {
                    lemma_history_stays_read(start, replies, from, skip);
                }
                if before.stage is LedgerRows && replies.last() is Rows {
                    lemma_history_is_read(start, replies);
                }
            },
            ProgressView::Finished(Ok(outcome)) => {
                if exists|from: u64, skip: nat|
                    outcome == start.applied_outcome(from, skip) && #[trigger] history_was_read(
                        start,
                        rest,
                        from,
                        skip,
                    ) {
                    let (from, skip) = choose|from: u64, skip: nat|
                        outcome == start.applied_outcome(from, skip)
                            && #[trigger] history_was_read(start, rest, from, skip);
                    lemma_history_stays_read(start, replies, from, skip);
                }
            },
            ProgressView::Finished(Err(_)) => {},
        }
    }
}

proof fn lemma_history_stays_read(
    start: SessionView,
    replies: Seq<ReplyView>,
    from: u64,
    skip: nat,
)
    requires
        replies.len() > 0,
    ensures
        history_was_read(start, replies.drop_last(), from, skip) ==> history_was_read(
            start,
            replies,
            from,
            skip,
        ),
{
    let rest = replies.drop_last();
    if history_was_read(start, rest, from, skip) {
        let rows = choose|rows: Seq<RowView>|
            #![trigger history::decoded_rows(rows, start.plan.schema)]
            {
                &&& start.answered(rest, StageView::LedgerRows, ReplyView::Rows(rows))
                &&& history::decoded_rows(rows, start.plan.schema) == Ok::<
                    Seq<AppliedView>,
                    ErrorView,
                >(start.plan.entries(start.checksums).take(skip as int))
                &&& from == skip
                &&& skip < start.plan.migrations.len()
            };
        lemma_answered_earlier(start, replies, StageView::LedgerRows, ReplyView::Rows(rows));
    }
}

proof fn lemma_history_is_read(start: SessionView, replies: Seq<ReplyView>)
    requires
        start.is_valid(),
        replies.len() > 0,
        start.run(replies.drop_last()) == ProgressView::Continue(start.at(StageView::LedgerRows)),
        replies.last() is Rows,
    ensures
        start.run(replies) matches ProgressView::Continue(session) ==> (pending(
            session.stage,
        ) matches Some((from, skip)) && history_was_read(start, replies, from, skip)),
        start.run(replies) matches ProgressView::Finished(Ok(outcome)) ==> outcome
            == start.unchanged_outcome(),
{
    let rows = replies.last()->Rows_0;
    lemma_answered_last(start, replies, StageView::LedgerRows);
    assert(start.answered(replies, StageView::LedgerRows, ReplyView::Rows(rows)));
    if let Ok(applied) = history::decoded_rows(rows, start.plan.schema) {
        history::law_accepted_histories(start.plan, start.checksums, applied);
        plan::law_valid_plan(start.plan);
        let entries = start.plan.entries(start.checksums);
        if start.plan.verdict(start.checksums, applied) is Ok {
            assert(applied == entries.take(applied.len() as int));
        }
    }
}

/// The migrations from `skip` up to `end` were applied and recorded, each.
pub open spec fn were_applied(
    start: SessionView,
    replies: Seq<ReplyView>,
    from: u64,
    skip: nat,
    end: nat,
) -> bool {
    forall|index: nat|
        skip <= index < end ==> {
            &&& #[trigger] start.answered(
                replies,
                StageView::Apply { from, skip, index },
                ReplyView::Done,
            )
            &&& start.answered(
                replies,
                StageView::Record { from, skip, index },
                ReplyView::Done,
            )
        }
}

/// Migrations are applied and recorded one by one in the order of the plan, and
/// the commit is not asked for before the last pending one is recorded.
pub proof fn law_commit_comes_last(start: SessionView, replies: Seq<ReplyView>)
    requires
        start.is_valid(),
        start.stage == StageView::Connection,
    ensures
        start.run(replies) matches ProgressView::Continue(session) ==> match session.stage {
            StageView::Apply { from, skip, index } => were_applied(
                start,
                replies,
                from,
                skip,
                index,
            ),
            StageView::Record { from, skip, index } => {
                &&& were_applied(start, replies, from, skip, index)
                &&& start.answered(
                    replies,
                    StageView::Apply { from, skip, index },
                    ReplyView::Done,
                )
            },
            StageView::Commit { from, skip } => were_applied(
                start,
                replies,
                from,
                skip,
                start.plan.migrations.len(),
            ),
            _ => true,
        },
    decreases replies.len(),
{
    if replies.len() > 0 {
        let rest = replies.drop_last();
        law_commit_comes_last(start, rest);
        law_session_keeps_its_plan(start, rest);
        if let ProgressView::Continue(before) = start.run(rest) {
            lemma_answered_last(start, replies, before.stage);
            match before.stage {
                StageView::SelectSchema { from, skip } => {
                    lemma_applied_stays(start, replies, from, skip, skip);
                },
                StageView::Apply { from, skip, index } => {
                    lemma_applied_stays(start, replies, from, skip, index);
                },
                StageView::Record { from, skip, index } => {
                    lemma_applied_stays(start, replies, from, skip, index);
                    lemma_answered_earlier(
                        start,
                        replies,
                        StageView::Apply { from, skip, index },
                        ReplyView::Done,
                    );
                    if replies.last() is Done {
                        let record = StageView::Record { from, skip, index };
                        assert(start.answered(replies, record, ReplyView::Done));
                        lemma_one_more_applied(start, replies, from, skip, index);
                    }
                },
                StageView::Commit { from, skip } => {
                    lemma_applied_stays(start, replies, from, skip, start.plan.migrations.len());
                },
                _ => {},
            }
        }
    }
}

proof fn lemma_one_more_applied(
    start: SessionView,
    replies: Seq<ReplyView>,
    from: u64,
    skip: nat,
    index: nat,
)
    requires
        were_applied(start, replies, from, skip, index),
        start.answered(replies, StageView::Apply { from, skip, index }, ReplyView::Done),
        start.answered(replies, StageView::Record { from, skip, index }, ReplyView::Done),
    ensures
        were_applied(start, replies, from, skip, index + 1),
{
    assert forall|i: nat| skip <= i < index + 1 implies {
        &&& #[trigger] start.answered(
            replies,
            StageView::Apply { from, skip, index: i },
            ReplyView::Done,
        )
        &&& start.answered(
            replies,
            StageView::Record { from, skip, index: i },
            ReplyView::Done,
        )
    } by {
        if i < index {
            assert(were_applied(start, replies, from, skip, index));
        }
    }
}

/// Setup reports a created schema only once the schema, its ledger and every
/// migration of the plan are in place and the commit went through.
pub proof fn law_created_means_committed(start: SessionView, replies: Seq<ReplyView>)
    requires
        start.is_valid(),
        start.workflow == Workflow::Setup,
        start.stage == StageView::Connection,
    ensures
        start.run(replies) matches ProgressView::Finished(
            Ok(OutcomeView::Setup(SetupOutcome::Created { version, applied })),
        ) ==> {
            &&& version == start.plan.current_version()
            &&& applied == start.plan.migrations.len() as usize
            &&& were_applied(start, replies, 0, 0, start.plan.migrations.len())
            &&& start.answered(
                replies,
                StageView::Commit { from: 0, skip: 0 },
                ReplyView::Done,
            )
        },
    decreases replies.len(),
{
    if replies.len() > 0 {
        let rest = replies.drop_last();
        law_created_means_committed(start, rest);
        law_session_keeps_its_plan(start, rest);
        law_commit_comes_last(start, rest);
        law_setup_changes_only_a_missing_schema(start, rest);
        lemma_applied_stays(start, replies, 0, 0, start.plan.migrations.len());
        let commit = StageView::Commit { from: 0, skip: 0 };
        match start.run(rest) {
            ProgressView::Continue(before) => {
                if before.stage is Commit {
                    lemma_answered_last(start, replies, commit);
                }
            },
            ProgressView::Finished(Ok(_)) => {
                if start.answered(rest, commit, ReplyView::Done) {
                    lemma_answered_earlier(start, replies, commit, ReplyView::Done);
                }
            },
            ProgressView::Finished(Err(_)) => {},
        }
    }
}

/// Upgrade reports applied migrations only once each of them is in place and the
/// commit went through, and counts exactly those.
pub proof fn law_applied_means_committed(start: SessionView, replies: Seq<ReplyView>)
    requires
        start.is_valid(),
        start.workflow == Workflow::Upgrade,
        start.stage == StageView::Connection,
    ensures
        start.run(replies) matches ProgressView::Finished(
            Ok(OutcomeView::Upgrade(UpgradeOutcome::Applied { from, to, applied })),
        ) ==> {
            &&& from < to
            &&& to == start.plan.current_version()
            &&& applied == (start.plan.migrations.len() - from) as usize
            &&& were_applied(start, replies, from, from as nat, start.plan.migrations.len())
            &&& start.answered(
                replies,
                StageView::Commit { from, skip: from as nat },
                ReplyView::Done,
            )
        },
    decreases replies.len(),
{
    if replies.len() > 0 {
        let rest = replies.drop_last();
        law_applied_means_committed(start, rest);
        law_session_keeps_its_plan(start, rest);
        law_commit_comes_last(start, rest);
        law_upgrade_applies_only_pending(start, rest);
        plan::law_valid_plan(start.plan);
        match start.run(rest) {
            ProgressView::Continue(before) => {
                if let StageView::Commit { from, skip } = before.stage {
                    lemma_answered_last(start, replies, before.stage);
                    lemma_applied_stays(start, replies, from, skip, start.plan.migrations.len());
                }
            },
            ProgressView::Finished(
                Ok(OutcomeView::Upgrade(UpgradeOutcome::Applied { from, to, applied })),
            ) => {
                lemma_applied_stays(
                    start,
                    replies,
                    from,
                    from as nat,
                    start.plan.migrations.len(),
                );
                lemma_answered_earlier(
                    start,
                    replies,
                    StageView::Commit { from, skip: from as nat },
                    ReplyView::Done,
                );
            },
            ProgressView::Finished(_) => {},
        }
    }
}

proof fn lemma_applied_stays(
    start: SessionView,
    replies: Seq<ReplyView>,
    from: u64,
    skip: nat,
    end: nat,
)
    requires
        replies.len() > 0,
    ensures
        were_applied(start, replies.drop_last(), from, skip, end) ==> were_applied(
            start,
            replies,
            from,
            skip,
            end,
        ),
{
    let rest = replies.drop_last();
    if were_applied(start, rest, from, skip, end) {
        assert forall|index: nat| skip <= index < end implies {
            &&& #[trigger] start.answered(
                replies,
                StageView::Apply { from, skip, index },
                ReplyView::Done,
            )
            &&& start.answered(
                replies,
                StageView::Record { from, skip, index },
                ReplyView::Done,
            )
        } by {
            let apply = StageView::Apply { from, skip, index };
            let record = StageView::Record { from, skip, index };
            assert(start.answered(rest, apply, ReplyView::Done));
            lemma_answered_earlier(start, replies, apply, ReplyView::Done);
            lemma_answered_earlier(start, replies, record, ReplyView::Done);
        }
    }
}

/// Every answer to a request ends the workflow or brings it closer to its end.
pub proof fn law_requests_are_bounded(session: SessionView, reply: ReplyView)
    requires
        session.is_valid(),
        session.is_answer(reply),
    ensures
        session.requests_left() > 0,
        session.advance(reply) matches ProgressView::Continue(later) ==> later.requests_left()
            < session.requests_left(),
{
    if let (StageView::LedgerRows, ReplyView::Rows(rows)) = (session.stage, reply) {
        if let Ok(applied) = history::decoded_rows(rows, session.plan.schema) {
            history::law_accepted_histories(session.plan, session.checksums, applied);
        }
    }
}

proof fn lemma_run_composes(session: SessionView, first: Seq<ReplyView>, then: Seq<ReplyView>)
    ensures
        session.run(first + then) == match session.run(first) {
            ProgressView::Continue(later) => later.run(then),
            ProgressView::Finished(result) => ProgressView::Finished(result),
        },
    decreases then.len(),
{
    let all = first + then;
    if then.len() == 0 {
        assert(all == first);
    } else {
        assert(all.drop_last() == first + then.drop_last());
        assert(all.last() == then.last());
        lemma_run_composes(session, first, then.drop_last());
    }
}

proof fn lemma_run_one(session: SessionView, reply: ReplyView)
    ensures
        session.run(seq![reply]) == session.advance(reply),
{
    let replies = seq![reply];
    assert(replies.drop_last() == Seq::<ReplyView>::empty());
    assert(session.run(replies.drop_last()) == ProgressView::Continue(session));
}

/// The first reply of a series moves the session on, the others follow.
proof fn lemma_run_first(session: SessionView, reply: ReplyView, rest: Seq<ReplyView>)
    ensures
        session.run(seq![reply] + rest) == match session.advance(reply) {
            ProgressView::Continue(later) => later.run(rest),
            ProgressView::Finished(result) => ProgressView::Finished(result),
        },
{
    lemma_run_composes(session, seq![reply], rest);
    lemma_run_one(session, reply);
}

proof fn lemma_run_done(session: SessionView, n: nat)
    requires
        n > 0,
    ensures
        session.run(all_done(n)) == match session.advance(ReplyView::Done) {
            ProgressView::Continue(later) => later.run(all_done((n - 1) as nat)),
            ProgressView::Finished(result) => ProgressView::Finished(result),
        },
{
    assert(all_done(n) == seq![ReplyView::Done] + all_done((n - 1) as nat));
    lemma_run_first(session, ReplyView::Done, all_done((n - 1) as nat));
}

/// From the migration at `index` on, success after success leads to the commit
/// and past it to the outcome.
proof fn lemma_migrations_run(session: SessionView, from: u64, skip: nat, index: nat)
    requires
        session.is_valid(),
        skip <= index <= session.plan.migrations.len(),
        session.stage == session.next_migration(from, skip, index).stage,
    ensures
        session.run(all_done((2 * (session.plan.migrations.len() - index) + 1) as nat))
            == ProgressView::Finished(Ok(session.applied_outcome(from, skip))),
    decreases session.plan.migrations.len() - index,
{
    let n = session.plan.migrations.len();
    let steps = (2 * (n - index) + 1) as nat;
    lemma_run_done(session, steps);
    if index < n {
        let record = session.at(StageView::Record { from, skip, index });
        lemma_run_done(record, (steps - 1) as nat);
        let next = record.next_migration(from, skip, index + 1);
        assert(next.is_valid());
        lemma_migrations_run(next, from, skip, index + 1);
    }
}

proof fn lemma_pending_run(session: SessionView, from: u64, skip: nat)
    requires
        session.is_valid(),
        session.stage == (StageView::SelectSchema { from, skip }),
    ensures
        session.run(all_done((2 * (session.plan.migrations.len() - skip) + 2) as nat))
            == ProgressView::Finished(Ok(session.applied_outcome(from, skip))),
{
    let n = session.plan.migrations.len();
    lemma_run_done(session, (2 * (n - skip) + 2) as nat);
    let next = session.next_migration(from, skip, skip);
    assert(next.is_valid());
    lemma_migrations_run(next, from, skip, skip);
}

/// The replies up to the inspection of the schema: the connection is taken, and
/// outside preparation the transaction begun and the lock granted.
pub open spec fn opening(workflow: Workflow) -> Seq<ReplyView> {
    if workflow == Workflow::Prepare {
        all_done(1)
    } else {
        all_done(3)
    }
}

proof fn lemma_opening(start: SessionView, rest: Seq<ReplyView>)
    requires
        start.stage == StageView::Connection,
    ensures
        start.run(opening(start.workflow) + rest) == start.at(StageView::Owner).run(rest),
{
    lemma_run_composes(start, opening(start.workflow), rest);
    lemma_run_done(start, opening(start.workflow).len());
    if start.workflow != Workflow::Prepare {
        lemma_run_done(start.at(StageView::Transaction), 2);
        lemma_run_done(start.at(StageView::Lock), 1);
    }
}

/// The replies that find a schema of the connection's own role with a ledger.
pub open spec fn inspection(role: Seq<char>, rows: Seq<RowView>) -> Seq<ReplyView> {
    seq![ReplyView::OptionalText(Some(role))] + (seq![ReplyView::Text(role)] + (seq![
        ReplyView::Flag(true),
    ] + seq![ReplyView::Rows(rows)]))
}

proof fn lemma_inspection(
    start: SessionView,
    role: Seq<char>,
    rows: Seq<RowView>,
    rest: Seq<ReplyView>,
)
    requires
        start.stage == StageView::Connection,
    ensures
        start.run(opening(start.workflow) + (inspection(role, rows) + rest)) == match start.at(
            StageView::LedgerRows,
        ).advance(ReplyView::Rows(rows)) {
            ProgressView::Continue(later) => later.run(rest),
            ProgressView::Finished(result) => ProgressView::Finished(result),
        },
{
    lemma_opening(start, inspection(role, rows) + rest);
    let at_owner = start.at(StageView::Owner);
    lemma_run_composes(at_owner, inspection(role, rows), rest);
    let tail3 = seq![ReplyView::Rows(rows)];
    let tail2 = seq![ReplyView::Flag(true)] + tail3;
    let tail1 = seq![ReplyView::Text(role)] + tail2;
    lemma_run_first(at_owner, ReplyView::OptionalText(Some(role)), tail1);
    lemma_run_first(start.at(StageView::Role { owner: role }), ReplyView::Text(role), tail2);
    lemma_run_first(start.at(StageView::LedgerPresence), ReplyView::Flag(true), tail3);
    lemma_run_one(start.at(StageView::LedgerRows), ReplyView::Rows(rows));
}

/// Where the schema is missing and every request succeeds, setup creates it and
/// applies the complete plan: schema, ledger, search path, then each migration
/// with its ledger entry, then the commit.
pub proof fn law_setup_creates_a_missing_schema(start: SessionView)
    requires
        start.is_valid(),
        start.workflow == Workflow::Setup,
        start.stage == StageView::Connection,
    ensures
        start.run(
            opening(Workflow::Setup) + (seq![ReplyView::OptionalText(None)] + all_done(
                2 * start.plan.migrations.len() + 4,
            )),
        ) == ProgressView::Finished(
            Ok(
                OutcomeView::Setup(
                    SetupOutcome::Created {
                        version: start.plan.current_version(),
                        applied: start.plan.migrations.len() as usize,
                    },
                ),
            ),
        ),
{
    let n = start.plan.migrations.len();
    let steps = all_done(2 * n + 4);
    lemma_opening(start, seq![ReplyView::OptionalText(None)] + steps);
    lemma_run_first(start.at(StageView::Owner), ReplyView::OptionalText(None), steps);
    lemma_run_done(start.at(StageView::CreateSchema), 2 * n + 4);
    lemma_run_done(start.at(StageView::CreateLedger), 2 * n + 3);
    lemma_pending_run(start.at(StageView::SelectSchema { from: 0, skip: 0 }), 0, 0);
}

/// Preparation and upgrade refuse a missing schema: it has to be set up first.
pub proof fn law_missing_schema_requires_setup(start: SessionView)
    requires
        start.workflow != Workflow::Setup,
        start.stage == StageView::Connection,
    ensures
        start.run(opening(start.workflow) + seq![ReplyView::OptionalText(None)])
            == ProgressView::Finished(Err(ErrorView::SetupRequired { schema: start.plan.schema })),
        start.changes_nothing(
            opening(start.workflow) + seq![ReplyView::OptionalText(None)],
        ),
{
    lemma_opening(start, seq![ReplyView::OptionalText(None)]);
    lemma_run_one(start.at(StageView::Owner), ReplyView::OptionalText(None));
    law_refusals_change_nothing(
        start,
        opening(start.workflow) + seq![ReplyView::OptionalText(None)],
    );
}

/// No workflow touches a schema of another role.
pub proof fn law_foreign_schema_is_refused(
    start: SessionView,
    owner: Seq<char>,
    current_role: Seq<char>,
)
    requires
        start.stage == StageView::Connection,
        owner != current_role,
    ensures
        start.run(
            opening(start.workflow) + (seq![ReplyView::OptionalText(Some(owner))] + seq![
                ReplyView::Text(current_role),
            ]),
        ) == ProgressView::Finished(
            Err(
                ErrorView::OwnershipMismatch { schema: start.plan.schema, owner, current_role },
            ),
        ),
        start.changes_nothing(
            opening(start.workflow) + (seq![ReplyView::OptionalText(Some(owner))] + seq![
                ReplyView::Text(current_role),
            ]),
        ),
{
    let tail = seq![ReplyView::Text(current_role)];
    lemma_opening(start, seq![ReplyView::OptionalText(Some(owner))] + tail);
    lemma_run_first(start.at(StageView::Owner), ReplyView::OptionalText(Some(owner)), tail);
    lemma_run_one(start.at(StageView::Role { owner }), ReplyView::Text(current_role));
    law_refusals_change_nothing(
        start,
        opening(start.workflow) + (seq![ReplyView::OptionalText(Some(owner))] + seq![
            ReplyView::Text(current_role),
        ]),
    );
}

/// No workflow adopts a schema without the migration ledger.
pub proof fn law_unmanaged_schema_is_never_adopted(start: SessionView, role: Seq<char>)
    requires
        start.stage == StageView::Connection,
    ensures
        start.run(
            opening(start.workflow) + (seq![ReplyView::OptionalText(Some(role))] + (seq![
                ReplyView::Text(role),
            ] + seq![ReplyView::Flag(false)])),
        ) == ProgressView::Finished(
            Err(ErrorView::UnmanagedSchema { schema: start.plan.schema }),
        ),
        start.changes_nothing(
            opening(start.workflow) + (seq![ReplyView::OptionalText(Some(role))] + (seq![
                ReplyView::Text(role),
            ] + seq![ReplyView::Flag(false)])),
        ),
{
    let tail2 = seq![ReplyView::Flag(false)];
    let tail1 = seq![ReplyView::Text(role)] + tail2;
    lemma_opening(start, seq![ReplyView::OptionalText(Some(role))] + tail1);
    lemma_run_first(start.at(StageView::Owner), ReplyView::OptionalText(Some(role)), tail1);
    lemma_run_first(start.at(StageView::Role { owner: role }), ReplyView::Text(role), tail2);
    lemma_run_one(start.at(StageView::LedgerPresence), ReplyView::Flag(false));
    law_refusals_change_nothing(
        start,
        opening(start.workflow) + (seq![ReplyView::OptionalText(Some(role))] + (seq![
            ReplyView::Text(role),
        ] + seq![ReplyView::Flag(false)])),
    );
}

/// Every workflow fails closed on a history that is not a start of the plan, with
/// the reason that the plan gives.
pub proof fn law_refused_history_fails_closed(
    start: SessionView,
    role: Seq<char>,
    rows: Seq<RowView>,
    applied: Seq<AppliedView>,
    rest: Seq<ReplyView>,
)
    requires
        start.is_valid(),
        start.stage == StageView::Connection,
        history::decoded_rows(rows, start.plan.schema) == Ok::<Seq<AppliedView>, ErrorView>(
            applied,
        ),
        !applied.is_prefix_of(start.plan.entries(start.checksums)),
    ensures
        start.plan.verdict(start.checksums, applied) is Err,
        start.run(opening(start.workflow) + (inspection(role, rows) + rest))
            == ProgressView::Finished(
            Err(start.plan.verdict(start.checksums, applied)->Err_0),
        ),
        start.changes_nothing(
            opening(start.workflow) + (inspection(role, rows) + rest),
        ),
{
    history::law_accepted_histories(start.plan, start.checksums, applied);
    lemma_inspection(start, role, rows, rest);
    law_refusals_change_nothing(
        start,
        opening(start.workflow) + (inspection(role, rows) + rest),
    );
}

/// What a run recorded reads back as the entries of its plan.
pub proof fn law_recorded_rows_read_back(session: SessionView, count: nat)
    requires
        session.is_valid(),
        count <= session.plan.migrations.len(),
    ensures
        history::decoded_rows(session.recorded_rows(count), session.plan.schema) == Ok::<
            Seq<AppliedView>,
            ErrorView,
        >(session.plan.entries(session.checksums).take(count as int)),
    decreases count,
{
    let rows = session.recorded_rows(count);
    let entries = session.plan.entries(session.checksums);
    if count == 0 {
        assert(entries.take(0) == Seq::<AppliedView>::empty());
    } else {
        let before = (count - 1) as nat;
        law_recorded_rows_read_back(session, before);
        assert(rows.drop_last() == session.recorded_rows(before));
        plan::law_valid_plan(session.plan);
        statements::law_record_columns(session.plan.schema);
        assert(rows.last() == session.recorded_row(before as int));
        assert(rows.last().decoded(session.plan.schema) == Ok::<AppliedView, ErrorView>(
            entries[before as int],
        ));
        assert(entries.take(count as int) == entries.take(before as int).push(
            entries[before as int],
        ));
    }
}

/// Setup, upgrade and preparation all succeed and change nothing on a ledger that
/// holds what a complete run of the plan recorded. So setup is idempotent, and
/// preparation succeeds after setup or upgrade.
pub proof fn law_complete_ledger_is_current(start: SessionView, role: Seq<char>)
    requires
        start.is_valid(),
        start.stage == StageView::Connection,
    ensures
        start.run(
            opening(start.workflow) + inspection(
                role,
                start.recorded_rows(start.plan.migrations.len()),
            ),
        ) == ProgressView::Finished(Ok(start.unchanged_outcome())),
        start.changes_nothing(
            opening(start.workflow) + inspection(
                role,
                start.recorded_rows(start.plan.migrations.len()),
            ),
        ),
{
    let n = start.plan.migrations.len();
    let rows = start.recorded_rows(n);
    let entries = start.plan.entries(start.checksums);
    law_recorded_rows_read_back(start, n);
    assert(entries.take(n as int) == entries);
    history::law_accepted_histories(start.plan, start.checksums, entries);
    assert(entries.is_prefix_of(entries));
    plan::law_valid_plan(start.plan);
    let none = Seq::<ReplyView>::empty();
    lemma_inspection(start, role, rows, none);
    assert(inspection(role, rows) + none == inspection(role, rows));
    law_refusals_change_nothing(
        start,
        opening(start.workflow) + inspection(
            role,
            start.recorded_rows(start.plan.migrations.len()),
        ),
    );
}

/// Preparation and setup never apply pending migrations: where the ledger holds
/// only the first `count` migrations of the plan, they ask for an upgrade.
pub proof fn law_pending_migrations_require_upgrade(
    start: SessionView,
    role: Seq<char>,
    count: nat,
)
    requires
        start.is_valid(),
        start.workflow != Workflow::Upgrade,
        start.stage == StageView::Connection,
        count < start.plan.migrations.len(),
    ensures
        start.run(opening(start.workflow) + inspection(role, start.recorded_rows(count)))
            == ProgressView::Finished(
            Err(
                ErrorView::UpgradeRequired {
                    schema: start.plan.schema,
                    current: count as u64,
                    expected: start.plan.current_version(),
                },
            ),
        ),
        start.changes_nothing(
            opening(start.workflow) + inspection(role, start.recorded_rows(count)),
        ),
{
    lemma_partial_history(start, count);
    let none = Seq::<ReplyView>::empty();
    let rows = start.recorded_rows(count);
    lemma_inspection(start, role, rows, none);
    assert(inspection(role, rows) + none == inspection(role, rows));
    law_refusals_change_nothing(
        start,
        opening(start.workflow) + inspection(role, start.recorded_rows(count)),
    );
}

/// Where the ledger holds only the first `count` migrations of the plan and every
/// request succeeds, upgrade applies exactly the others.
pub proof fn law_upgrade_applies_the_pending(start: SessionView, role: Seq<char>, count: nat)
    requires
        start.is_valid(),
        start.workflow == Workflow::Upgrade,
        start.stage == StageView::Connection,
        count < start.plan.migrations.len(),
    ensures
        start.run(
            opening(Workflow::Upgrade) + (inspection(role, start.recorded_rows(count)) + all_done(
                (2 * (start.plan.migrations.len() - count) + 2) as nat,
            )),
        ) == ProgressView::Finished(
            Ok(
                OutcomeView::Upgrade(
                    UpgradeOutcome::Applied {
                        from: count as u64,
                        to: start.plan.current_version(),
                        applied: (start.plan.migrations.len() - count) as usize,
                    },
                ),
            ),
        ),
{
    lemma_partial_history(start, count);
    let n = start.plan.migrations.len();
    let steps = all_done((2 * (n - count) + 2) as nat);
    lemma_inspection(start, role, start.recorded_rows(count), steps);
    lemma_pending_run(
        start.at(StageView::SelectSchema { from: count as u64, skip: count }),
        count as u64,
        count,
    );
}

proof fn lemma_partial_history(start: SessionView, count: nat)
    requires
        start.is_valid(),
        count < start.plan.migrations.len(),
    ensures
        ({
            let applied = start.plan.entries(start.checksums).take(count as int);
            &&& applied.len() == count
            &&& history::decoded_rows(start.recorded_rows(count), start.plan.schema) == Ok::<
                Seq<AppliedView>,
                ErrorView,
            >(applied)
            &&& start.plan.verdict(start.checksums, applied) == Ok::<u64, ErrorView>(count as u64)
            &&& start.plan.current_version() == start.plan.migrations.len()
            &&& count as u64 == count
        }),
{
    let entries = start.plan.entries(start.checksums);
    let applied = entries.take(count as int);
    law_recorded_rows_read_back(start, count);
    assert(applied.is_prefix_of(entries));
    history::law_accepted_histories(start.plan, start.checksums, applied);
    plan::law_valid_plan(start.plan);
}

/// A Module that has appended migrations finds its earlier schema in need of an
/// upgrade from the earlier version, and the earlier Module refuses the upgraded
/// schema as ahead of it.
pub proof fn law_generations(older: SessionView, newer: SessionView, role: Seq<char>)
    requires
        older.is_valid(),
        newer.is_valid(),
        older.workflow == Workflow::Prepare,
        newer.workflow == Workflow::Prepare,
        older.stage == StageView::Connection,
        newer.stage == StageView::Connection,
        older.plan.schema == newer.plan.schema,
        older.plan.migrations.is_prefix_of(newer.plan.migrations),
        older.checksums.is_prefix_of(newer.checksums),
        older.plan.migrations.len() < newer.plan.migrations.len(),
    ensures
        newer.run(
            opening(Workflow::Prepare) + inspection(
                role,
                older.recorded_rows(older.plan.migrations.len()),
            ),
        ) == ProgressView::Finished(
            Err(
                ErrorView::UpgradeRequired {
                    schema: newer.plan.schema,
                    current: older.plan.current_version(),
                    expected: newer.plan.current_version(),
                },
            ),
        ),
        older.run(
            opening(Workflow::Prepare) + inspection(
                role,
                newer.recorded_rows(newer.plan.migrations.len()),
            ),
        ) == ProgressView::Finished(
            Err(
                ErrorView::SchemaAhead {
                    schema: older.plan.schema,
                    actual: newer.plan.current_version(),
                    expected: older.plan.current_version(),
                },
            ),
        ),
{
    let m = older.plan.migrations.len();
    let n = newer.plan.migrations.len();
    let short = older.plan.entries(older.checksums);
    let long = newer.plan.entries(newer.checksums);
    law_recorded_rows_read_back(older, m);
    law_recorded_rows_read_back(newer, n);
    assert(short.take(m as int) == short);
    assert(long.take(n as int) == long);
    history::law_appended_migrations(
        older.plan,
        older.checksums,
        newer.plan,
        newer.checksums,
    );
    plan::law_valid_plan(older.plan);
    plan::law_valid_plan(newer.plan);
    let none = Seq::<ReplyView>::empty();
    lemma_inspection(newer, role, older.recorded_rows(m), none);
    lemma_inspection(older, role, newer.recorded_rows(n), none);
    assert(inspection(role, older.recorded_rows(m)) + none == inspection(
        role,
        older.recorded_rows(m),
    ));
    assert(inspection(role, newer.recorded_rows(n)) + none == inspection(
        role,
        newer.recorded_rows(n),
    ));
}

/// While migrations are applied, the ledger holds what it held at the start and
/// the rows of the migrations recorded so far.
proof fn lemma_ledger_grows(start: SessionView, replies: Seq<ReplyView>, rows: Seq<RowView>)
    requires
        start.is_valid(),
        start.stage == StageView::Connection,
    ensures
        match start.run(replies) {
            ProgressView::Continue(session) => start.ledger(replies, rows) == match session.stage {
                StageView::Apply { skip, index, .. } => rows + start.recorded_rows(index).skip(
                    skip as int,
                ),
                StageView::Record { skip, index, .. } => rows + start.recorded_rows(index).skip(
                    skip as int,
                ),
                StageView::Commit { skip, .. } => rows + start.recorded_rows(
                    start.plan.migrations.len(),
                ).skip(skip as int),
                _ => rows,
            },
            ProgressView::Finished(Ok(OutcomeView::Upgrade(UpgradeOutcome::AlreadyCurrent { .. })))
                => start.ledger(replies, rows) == rows,
            ProgressView::Finished(_) => true,
        },
    decreases replies.len(),
{
    if replies.len() > 0 {
        let rest = replies.drop_last();
        lemma_ledger_grows(start, rest, rows);
        law_session_keeps_its_plan(start, rest);
        if let ProgressView::Continue(before) = start.run(rest) {
            match before.stage {
                StageView::SelectSchema { from, skip } => {
                    assert(rows + start.recorded_rows(skip).skip(skip as int) == rows);
                },
                StageView::Record { from, skip, index } => {
                    let row = written_row(before.request());
                    assert(row == start.recorded_row(index as int));
                    assert((rows + start.recorded_rows(index).skip(skip as int)).push(row) == rows
                        + start.recorded_rows(index + 1).skip(skip as int));
                },
                _ => {},
            }
        }
    }
}

/// Once the commit went through, the ledger holds what it held at the start and
/// the rows of all the migrations but the first `skip`, and that is final.
pub proof fn law_committed_ledger(
    start: SessionView,
    replies: Seq<ReplyView>,
    rows: Seq<RowView>,
    from: u64,
    skip: nat,
)
    requires
        start.is_valid(),
        start.stage == StageView::Connection,
        start.answered(replies, StageView::Commit { from, skip }, ReplyView::Done),
    ensures
        start.ledger(replies, rows) == rows + start.recorded_rows(
            start.plan.migrations.len(),
        ).skip(skip as int),
    decreases replies.len(),
{
    let commit = StageView::Commit { from, skip };
    let rest = replies.drop_last();
    if replies.len() > 0 && start.answered(rest, commit, ReplyView::Done) {
        law_committed_ledger(start, rest, rows, from, skip);
        law_committed_means_success(start, rest, from, skip);
    } else {
        lemma_answered_now(start, replies, commit, ReplyView::Done);
        lemma_ledger_grows(start, rest, rows);
    }
}

/// A setup run that created the schema leaves the rows of the complete plan in the
/// ledger that it created.
pub proof fn law_setup_records_the_plan(start: SessionView, replies: Seq<ReplyView>)
    requires
        start.is_valid(),
        start.workflow == Workflow::Setup,
        start.stage == StageView::Connection,
        start.run(replies) matches ProgressView::Finished(
            Ok(OutcomeView::Setup(SetupOutcome::Created { .. })),
        ),
    ensures
        start.ledger(replies, Seq::empty()) == start.recorded_rows(start.plan.migrations.len()),
{
    let none = Seq::<RowView>::empty();
    let all = start.recorded_rows(start.plan.migrations.len());
    law_created_means_committed(start, replies);
    law_committed_ledger(start, replies, none, 0, 0);
    assert(none + all.skip(0) == all);
}

/// The ledger rows that an upgrade run read decide where it starts: after as many
/// migrations as the rows hold.
proof fn lemma_rows_decide(
    start: SessionView,
    replies: Seq<ReplyView>,
    rows: Seq<RowView>,
    count: nat,
)
    requires
        start.is_valid(),
        start.workflow == Workflow::Upgrade,
        start.stage == StageView::Connection,
        count <= start.plan.migrations.len(),
        history::decoded_rows(rows, start.plan.schema) == Ok::<Seq<AppliedView>, ErrorView>(
            start.plan.entries(start.checksums).take(count as int),
        ),
        start.answered(replies, StageView::LedgerRows, ReplyView::Rows(rows)),
    ensures
        match start.run(replies) {
            ProgressView::Continue(session) => {
                &&& count < start.plan.migrations.len()
                &&& pending(session.stage) == Some((count as u64, count))
            },
            ProgressView::Finished(Ok(outcome)) => outcome == if count
                == start.plan.migrations.len() {
                start.unchanged_outcome()
            } else {
                start.applied_outcome(count as u64, count)
            },
            ProgressView::Finished(Err(_)) => true,
        },
    decreases replies.len(),
{
    let reply = ReplyView::Rows(rows);
    let rest = replies.drop_last();
    if replies.len() > 0 && start.answered(rest, StageView::LedgerRows, reply) {
        lemma_rows_decide(start, rest, rows, count);
        law_session_keeps_its_plan(start, rest);
    } else {
        lemma_answered_now(start, replies, StageView::LedgerRows, reply);
        let entries = start.plan.entries(start.checksums);
        let applied = entries.take(count as int);
        assert(applied.is_prefix_of(entries));
        history::law_accepted_histories(start.plan, start.checksums, applied);
        plan::law_valid_plan(start.plan);
    }
}

/// An upgrade run that ends well leaves the rows of the complete plan in a ledger
/// that held the first `count` of them when the run read it.
pub proof fn law_upgrade_completes_the_ledger(
    start: SessionView,
    replies: Seq<ReplyView>,
    count: nat,
)
    requires
        start.is_valid(),
        start.workflow == Workflow::Upgrade,
        start.stage == StageView::Connection,
        count <= start.plan.migrations.len(),
        start.answered(
            replies,
            StageView::LedgerRows,
            ReplyView::Rows(start.recorded_rows(count)),
        ),
        start.run(replies) matches ProgressView::Finished(Ok(_)),
    ensures
        start.ledger(replies, start.recorded_rows(count)) == start.recorded_rows(
            start.plan.migrations.len(),
        ),
{
    let n = start.plan.migrations.len();
    let rows = start.recorded_rows(count);
    law_recorded_rows_read_back(start, count);
    lemma_rows_decide(start, replies, rows, count);
    if count == n {
        lemma_ledger_grows(start, replies, rows);
    } else {
        plan::law_valid_plan(start.plan);
        law_applied_means_committed(start, replies);
        law_committed_ledger(start, replies, rows, count as u64, count);
        assert(rows + start.recorded_rows(n).skip(count as int) == start.recorded_rows(n));
    }
}

/// Setup of an older plan and then the upgrade to a newer one that only appends to
/// it leave the same ledger as the setup of the newer plan. The three runs ended
/// well, and the upgrade read the ledger that the first setup left.
pub proof fn law_upgrade_catches_up_with_setup(
    older: SessionView,
    setup_replies: Seq<ReplyView>,
    newer: SessionView,
    upgrade_replies: Seq<ReplyView>,
    fresh: SessionView,
    fresh_replies: Seq<ReplyView>,
)
    requires
        older.is_valid(),
        newer.is_valid(),
        older.workflow == Workflow::Setup,
        newer.workflow == Workflow::Upgrade,
        older.stage == StageView::Connection,
        newer.stage == StageView::Connection,
        fresh == SessionView::start(Workflow::Setup, newer.plan, newer.checksums),
        older.plan.schema == newer.plan.schema,
        older.plan.migrations.is_prefix_of(newer.plan.migrations),
        older.checksums.is_prefix_of(newer.checksums),
        older.run(setup_replies) matches ProgressView::Finished(
            Ok(OutcomeView::Setup(SetupOutcome::Created { .. })),
        ),
        newer.answered(
            upgrade_replies,
            StageView::LedgerRows,
            ReplyView::Rows(older.ledger(setup_replies, Seq::empty())),
        ),
        newer.run(upgrade_replies) matches ProgressView::Finished(Ok(_)),
        fresh.run(fresh_replies) matches ProgressView::Finished(
            Ok(OutcomeView::Setup(SetupOutcome::Created { .. })),
        ),
    ensures
        newer.ledger(upgrade_replies, older.ledger(setup_replies, Seq::empty())) == fresh.ledger(
            fresh_replies,
            Seq::empty(),
        ),
{
    let m = older.plan.migrations.len();
    let n = newer.plan.migrations.len();
    law_setup_records_the_plan(older, setup_replies);
    law_setup_records_the_plan(fresh, fresh_replies);
    assert forall|i: int| 0 <= i < m implies older.recorded_row(i) == newer.recorded_row(i) by {
        assert(older.plan.migrations[i] == newer.plan.migrations.subrange(0, m as int)[i]);
        assert(older.checksums[i] == newer.checksums.subrange(0, m as int)[i]);
        let stage = StageView::Record { from: 0, skip: 0, index: i as nat };
        assert(older.at(stage).request() =~= newer.at(stage).request());
    }
    assert(older.recorded_rows(m) == newer.recorded_rows(m));
    law_upgrade_completes_the_ledger(newer, upgrade_replies, m);
    assert forall|i: int| 0 <= i < n implies fresh.recorded_row(i) == newer.recorded_row(i) by {
        let stage = StageView::Record { from: 0, skip: 0, index: i as nat };
        assert(fresh.at(stage).request() == newer.at(stage).request());
    }
    assert(fresh.recorded_rows(n) == newer.recorded_rows(n));
}

/// What the inspection has found so far.
proof fn lemma_inspected(start: SessionView, replies: Seq<ReplyView>)
    requires
        start.is_valid(),
        start.stage == StageView::Connection,
    ensures
        match start.run(replies) {
            ProgressView::Continue(session) => match session.stage {
                StageView::Role { owner } => start.answered(
                    replies,
                    StageView::Owner,
                    ReplyView::OptionalText(Some(owner)),
                ),
                StageView::LedgerPresence => start.found_own_schema(replies),
                StageView::LedgerRows => start.found_own_ledger(replies),
                _ => start.workflow == Workflow::Upgrade && is_changing(session.stage)
                    ==> start.found_own_ledger(replies),
            },
            ProgressView::Finished(Ok(outcome)) => {
                &&& outcome == start.unchanged_outcome() ==> start.found_own_ledger(replies)
                    && start.read_complete_ledger(replies)
                &&& start.workflow == Workflow::Upgrade ==> start.found_own_ledger(replies)
            },
            ProgressView::Finished(Err(_)) => true,
        },
    decreases replies.len(),
{
    if replies.len() > 0 {
        let rest = replies.drop_last();
        lemma_inspected(start, rest);
        law_session_keeps_its_plan(start, rest);
        lemma_found_stays(start, replies);
        if let ProgressView::Continue(before) = start.run(rest) {
            lemma_answered_last(start, replies, before.stage);
            match before.stage {
                StageView::Role { owner } => {
                    let found = ReplyView::OptionalText(Some(owner));
                    lemma_answered_earlier(start, replies, StageView::Owner, found);
                    if replies.last() == ReplyView::Text(owner) {
                        assert(start.answered(replies, before.stage, ReplyView::Text(owner)));
                    }
                },
                StageView::LedgerRows => {
                    if let ReplyView::Rows(rows) = replies.last() {
                        lemma_complete_rows(start, rows);
                        assert(start.answered(
                            replies,
                            StageView::LedgerRows,
                            ReplyView::Rows(rows),
                        ));
                    }
                },
                _ => {},
            }
        }
    }
}

proof fn lemma_found_stays(start: SessionView, replies: Seq<ReplyView>)
    requires
        replies.len() > 0,
    ensures
        start.found_own_schema(replies.drop_last()) ==> start.found_own_schema(replies),
        start.found_own_ledger(replies.drop_last()) ==> start.found_own_ledger(replies),
        start.read_complete_ledger(replies.drop_last()) ==> start.read_complete_ledger(replies),
{
    let rest = replies.drop_last();
    if start.found_own_schema(rest) {
        let role = choose|role: Seq<char>|
            {
                &&& start.answered(rest, StageView::Owner, ReplyView::OptionalText(Some(role)))
                &&& #[trigger] start.answered(
                    rest,
                    StageView::Role { owner: role },
                    ReplyView::Text(role),
                )
            };
        let owner = ReplyView::OptionalText(Some(role));
        lemma_answered_earlier(start, replies, StageView::Owner, owner);
        let asked = StageView::Role { owner: role };
        lemma_answered_earlier(start, replies, asked, ReplyView::Text(role));
    }
    if start.found_own_ledger(rest) {
        let present = ReplyView::Flag(true);
        lemma_answered_earlier(start, replies, StageView::LedgerPresence, present);
    }
    if start.read_complete_ledger(rest) {
        let rows = choose|rows: Seq<RowView>|
            {
                &&& #[trigger] start.answered(rest, StageView::LedgerRows, ReplyView::Rows(rows))
                &&& history::decoded_rows(rows, start.plan.schema) == Ok::<
                    Seq<AppliedView>,
                    ErrorView,
                >(start.plan.entries(start.checksums))
            };
        lemma_answered_earlier(start, replies, StageView::LedgerRows, ReplyView::Rows(rows));
    }
}

/// Rows end a workflow with its unchanged outcome exactly when they are the
/// entries of the plan.
proof fn lemma_complete_rows(start: SessionView, rows: Seq<RowView>)
    requires
        start.is_valid(),
    ensures
        start.at(StageView::LedgerRows).advance(ReplyView::Rows(rows)) == ProgressView::Finished(
            Ok(start.unchanged_outcome()),
        ) <==> history::decoded_rows(rows, start.plan.schema) == Ok::<Seq<AppliedView>, ErrorView>(
            start.plan.entries(start.checksums),
        ),
{
    if let Ok(applied) = history::decoded_rows(rows, start.plan.schema) {
        let entries = start.plan.entries(start.checksums);
        history::law_accepted_histories(start.plan, start.checksums, applied);
        plan::law_valid_plan(start.plan);
        if applied.len() == entries.len() && applied.is_prefix_of(entries) {
            assert(entries.subrange(0, entries.len() as int) == entries);
        }
        if applied == entries {
            assert(entries.is_prefix_of(entries));
        }
    }
}

/// What a good end without a change means, whatever was replied: a preparation
/// ends well, and setup or upgrade finds the schema already current, exactly when
/// the schema was found to be of the connection's own role, with a ledger in it
/// whose rows are exactly the entries of the plan.
pub proof fn law_good_end_means_current(start: SessionView, replies: Seq<ReplyView>)
    requires
        start.is_valid(),
        start.stage == StageView::Connection,
    ensures
        start.run(replies) == ProgressView::Finished(Ok(start.unchanged_outcome()))
            <==> start.found_own_ledger(replies) && start.read_complete_ledger(replies),
        start.workflow == Workflow::Prepare ==> (start.run(replies) matches ProgressView::Finished(
            Ok(outcome),
        ) ==> outcome == start.unchanged_outcome()),
{
    lemma_inspected(start, replies);
    if start.workflow == Workflow::Prepare {
        lemma_preparation_stages(start, replies);
    }
    if start.read_complete_ledger(replies) {
        let rows = choose|rows: Seq<RowView>|
            {
                &&& #[trigger] start.answered(
                    replies,
                    StageView::LedgerRows,
                    ReplyView::Rows(rows),
                )
                &&& history::decoded_rows(rows, start.plan.schema) == Ok::<
                    Seq<AppliedView>,
                    ErrorView,
                >(start.plan.entries(start.checksums))
            };
        lemma_complete_rows(start, rows);
        lemma_complete_rows_end(start, replies, rows);
    }
}

proof fn lemma_complete_rows_end(
    start: SessionView,
    replies: Seq<ReplyView>,
    rows: Seq<RowView>,
)
    requires
        start.answered(replies, StageView::LedgerRows, ReplyView::Rows(rows)),
        start.at(StageView::LedgerRows).advance(ReplyView::Rows(rows)) == ProgressView::Finished(
            Ok(start.unchanged_outcome()),
        ),
    ensures
        start.run(replies) == ProgressView::Finished(Ok(start.unchanged_outcome())),
    decreases replies.len(),
{
    let reply = ReplyView::Rows(rows);
    let rest = replies.drop_last();
    if replies.len() > 0 && start.answered(rest, StageView::LedgerRows, reply) {
        lemma_complete_rows_end(start, rest, rows);
    } else {
        lemma_answered_now(start, replies, StageView::LedgerRows, reply);
    }
}

/// Upgrade changes only a schema of the connection's own role with a ledger in it,
/// and ends well only on such a one.
pub proof fn law_upgrade_works_on_its_own_ledger(start: SessionView, replies: Seq<ReplyView>)
    requires
        start.is_valid(),
        start.workflow == Workflow::Upgrade,
        start.stage == StageView::Connection,
    ensures
        match start.run(replies) {
            ProgressView::Continue(session) => is_changing(session.stage)
                ==> start.found_own_ledger(replies),
            ProgressView::Finished(Ok(_)) => start.found_own_ledger(replies),
            ProgressView::Finished(Err(_)) => true,
        },
{
    lemma_inspected(start, replies);
}

/// The scripts that were run are those of the migrations passed so far.
proof fn lemma_scripts_grow(start: SessionView, replies: Seq<ReplyView>)
    requires
        start.is_valid(),
        start.stage == StageView::Connection,
    ensures
        start.run(replies) matches ProgressView::Continue(session) ==> start.scripts(replies)
            == match session.stage {
            StageView::Apply { skip, index, .. } => start.planned_scripts(index).skip(skip as int),
            StageView::Record { skip, index, .. } => start.planned_scripts(index + 1).skip(
                skip as int,
            ),
            StageView::Commit { skip, .. } => start.planned_scripts(
                start.plan.migrations.len(),
            ).skip(skip as int),
            _ => Seq::empty(),
        },
    decreases replies.len(),
{
    if replies.len() > 0 {
        let rest = replies.drop_last();
        lemma_scripts_grow(start, rest);
        law_session_keeps_its_plan(start, rest);
        if let ProgressView::Continue(before) = start.run(rest) {
            match before.stage {
                StageView::SelectSchema { from, skip } => {
                    assert(start.planned_scripts(skip).skip(skip as int) == Seq::<
                        Seq<char>,
                    >::empty());
                },
                StageView::Apply { from, skip, index } => {
                    assert(start.planned_scripts(index).skip(skip as int).push(
                        before.request().sql,
                    ) == start.planned_scripts(index + 1).skip(skip as int));
                },
                _ => {},
            }
        }
    }
}

/// The changing requests answered well are the beginning of a complete run.
proof fn lemma_executed_grows(start: SessionView, replies: Seq<ReplyView>)
    requires
        start.is_valid(),
        start.stage == StageView::Connection,
    ensures
        match start.run(replies) {
            ProgressView::Continue(session) => {
                let executed = start.executed(replies);
                match session.stage {
                    StageView::CreateSchema => {
                        &&& start.workflow == Workflow::Setup
                        &&& executed == start.preface().take(0)
                    },
                    StageView::CreateLedger => {
                        &&& start.workflow == Workflow::Setup
                        &&& executed == start.preface().take(1)
                    },
                    StageView::SelectSchema { .. } => executed == start.preface().drop_last(),
                    StageView::Apply { skip, index, .. } => executed == start.preface()
                        + start.migration_requests(skip, index),
                    StageView::Record { skip, index, .. } => executed == (start.preface()
                        + start.migration_requests(skip, index)).push(start.apply_request(index)),
                    StageView::Commit { skip, .. } => executed == start.preface()
                        + start.migration_requests(skip, start.plan.migrations.len()),
                    _ => executed == Seq::<RequestView>::empty(),
                }
            },
            ProgressView::Finished(_) => true,
        },
    decreases replies.len(),
{
    if replies.len() > 0 {
        let rest = replies.drop_last();
        lemma_executed_grows(start, rest);
        law_session_keeps_its_plan(start, rest);
        lemma_workflow_stages(start, rest);
        let preface = start.preface();
        assert(preface.take(0) == Seq::<RequestView>::empty());
        if let ProgressView::Continue(before) = start.run(rest) {
            match before.stage {
                StageView::LedgerRows => {
                    if start.workflow == Workflow::Upgrade {
                        assert(preface.drop_last() == Seq::<RequestView>::empty());
                    }
                },
                StageView::CreateSchema => {
                    assert(preface.take(0).push(before.request()) == preface.take(1));
                },
                StageView::CreateLedger => {
                    assert(preface.take(1).push(before.request()) == preface.drop_last());
                },
                StageView::SelectSchema { from, skip } => {
                    assert(before.request() == preface.last());
                    assert(preface.drop_last().push(preface.last()) == preface);
                    assert(preface + start.migration_requests(skip, skip) == preface);
                },
                StageView::Apply { from, skip, index } => {
                    assert(before.request() == start.apply_request(index));
                },
                StageView::Record { from, skip, index } => {
                    assert(before.request() == start.record_request(index));
                    let requests = start.migration_requests(skip, index);
                    let apply = start.apply_request(index);
                    let record = start.record_request(index);
                    assert((preface + requests).push(apply).push(record) == preface
                        + requests.push(apply).push(record));
                    assert(start.migration_requests(skip, index + 1) == requests.push(apply).push(
                        record,
                    ));
                },
                _ => {},
            }
        }
    }
}

/// Which workflows come to which stages.
proof fn lemma_workflow_stages(start: SessionView, replies: Seq<ReplyView>)
    requires
        start.stage == StageView::Connection,
    ensures
        start.run(replies) matches ProgressView::Continue(session) ==> {
            &&& session == start.at(session.stage)
            &&& session.stage is CreateSchema || session.stage is CreateLedger ==> start.workflow
                == Workflow::Setup
            &&& is_changing(session.stage) ==> start.workflow != Workflow::Prepare
        },
    decreases replies.len(),
{
    if replies.len() > 0 {
        lemma_workflow_stages(start, replies.drop_last());
    }
}

/// Once the commit went through, exactly these scripts were run and these changing
/// requests made, each once and in this order: those of a complete run that skips
/// the first `skip` migrations. Nothing else was.
pub proof fn law_committed_run_did_exactly(
    start: SessionView,
    replies: Seq<ReplyView>,
    from: u64,
    skip: nat,
)
    requires
        start.is_valid(),
        start.stage == StageView::Connection,
        start.answered(replies, StageView::Commit { from, skip }, ReplyView::Done),
    ensures
        start.scripts(replies) == start.planned_scripts(start.plan.migrations.len()).skip(
            skip as int,
        ),
        start.executed(replies) == start.complete_requests(skip),
    decreases replies.len(),
{
    let commit = StageView::Commit { from, skip };
    let rest = replies.drop_last();
    if replies.len() > 0 && start.answered(rest, commit, ReplyView::Done) {
        law_committed_run_did_exactly(start, rest, from, skip);
        law_committed_means_success(start, rest, from, skip);
    } else {
        lemma_answered_now(start, replies, commit, ReplyView::Done);
        lemma_scripts_grow(start, rest);
        lemma_executed_grows(start, rest);
    }
}

/// A setup run that created the schema ran every script of the plan, in the order
/// of the plan and each once, and made no other change than to create the schema
/// and its ledger, to select the schema and to record the migrations.
pub proof fn law_setup_runs_exactly_the_plan(start: SessionView, replies: Seq<ReplyView>)
    requires
        start.is_valid(),
        start.workflow == Workflow::Setup,
        start.stage == StageView::Connection,
        start.run(replies) matches ProgressView::Finished(
            Ok(OutcomeView::Setup(SetupOutcome::Created { .. })),
        ),
    ensures
        start.scripts(replies) == start.planned_scripts(start.plan.migrations.len()),
        start.executed(replies) == start.complete_requests(0),
{
    let all = start.planned_scripts(start.plan.migrations.len());
    law_created_means_committed(start, replies);
    law_committed_run_did_exactly(start, replies, 0, 0);
    assert(all.skip(0) == all);
}

/// An upgrade run that applied migrations from version `from` on ran exactly the
/// scripts after that version, in the order of the plan and each once, and made no
/// other change than to select the schema and to record the migrations.
pub proof fn law_upgrade_runs_exactly_the_pending(start: SessionView, replies: Seq<ReplyView>)
    requires
        start.is_valid(),
        start.workflow == Workflow::Upgrade,
        start.stage == StageView::Connection,
    ensures
        start.run(replies) matches ProgressView::Finished(
            Ok(OutcomeView::Upgrade(UpgradeOutcome::Applied { from, .. })),
        ) ==> {
            &&& start.scripts(replies) == start.planned_scripts(
                start.plan.migrations.len(),
            ).skip(from as int)
            &&& start.executed(replies) == start.complete_requests(from as nat)
        },
{
    law_applied_means_committed(start, replies);
    if let ProgressView::Finished(
        Ok(OutcomeView::Upgrade(UpgradeOutcome::Applied { from, to, applied })),
    ) = start.run(replies) {
        law_committed_run_did_exactly(start, replies, from, from as nat);
    }
}

/// The row that a record request writes, read off its statement and its parameters,
/// is the ledger entry of that same migration: its version, its name and its own
/// checksum, each in the column of that name. This holds in every workflow.
pub proof fn law_recorded_row_is_the_entry(session: SessionView, from: u64, skip: nat, index: nat)
    requires
        session.is_valid(),
        index < session.plan.migrations.len(),
    ensures
        ({
            let request = session.at(StageView::Record { from, skip, index }).request();
            let migration = session.plan.migrations[index as int];
            &&& written_value(request, "version"@) matches BindView::Number(version) && version
                == migration.version
            &&& written_value(request, "name"@) matches BindView::Text(name) && name
                == migration.name@
            &&& written_value(request, "checksum"@) matches BindView::Text(checksum) && checksum
                == session.checksums[index as int]
            &&& ("INSERT INTO "@ + statements::qualified(
                session.plan.schema,
                "_lenso_schema_migrations"@,
            ) + " ("@).is_prefix_of(request.sql)
            &&& written_row(request).decoded(session.plan.schema) == Ok::<AppliedView, ErrorView>(
                session.plan.entries(session.checksums)[index as int],
            )
            &&& session.recorded_row(index as int) == written_row(request)
        }),
{
    plan::law_valid_plan(session.plan);
    statements::law_record_columns(session.plan.schema);
    statements::law_ledger_statements_agree(session.plan.schema);
    assert(session.plan.migrations[index as int].version == index + 1);
}

/// A reply of a kind that was not asked for leaves the session where it stands.
pub proof fn law_unasked_replies_are_ignored(session: SessionView, reply: ReplyView)
    requires
        !session.is_answer(reply),
    ensures
        session.advance(reply) == ProgressView::Continue(session),
{
}

/// Every workflow fails closed on a ledger that cannot be read, with the fault of
/// its first bad row, and changes nothing.
pub proof fn law_unreadable_ledger_fails_closed(
    start: SessionView,
    role: Seq<char>,
    rows: Seq<RowView>,
    index: int,
    rest: Seq<ReplyView>,
)
    requires
        start.stage == StageView::Connection,
        0 <= index < rows.len(),
        forall|i: int| 0 <= i < index ==> (#[trigger] rows[i]).decoded(start.plan.schema) is Ok,
        rows[index].decoded(start.plan.schema) is Err,
    ensures
        start.run(opening(start.workflow) + (inspection(role, rows) + rest))
            == ProgressView::Finished(Err(rows[index].decoded(start.plan.schema)->Err_0)),
        start.changes_nothing(opening(start.workflow) + (inspection(role, rows) + rest)),
{
    history::law_first_bad_row_is_reported(rows, start.plan.schema, index);
    lemma_inspection(start, role, rows, rest);
    lemma_refused_rows_change_nothing(start, role, rows, rest);
}

proof fn lemma_refused_rows_change_nothing(
    start: SessionView,
    role: Seq<char>,
    rows: Seq<RowView>,
    rest: Seq<ReplyView>,
)
    requires
        start.stage == StageView::Connection,
        start.at(StageView::LedgerRows).advance(ReplyView::Rows(rows)) is Finished,
    ensures
        start.changes_nothing(opening(start.workflow) + (inspection(role, rows) + rest)),
{
    let none = Seq::<ReplyView>::empty();
    let head = opening(start.workflow) + inspection(role, rows);
    let all = opening(start.workflow) + (inspection(role, rows) + rest);
    lemma_inspection(start, role, rows, none);
    assert(opening(start.workflow) + (inspection(role, rows) + none) == head);
    assert(all == head + rest);
    assert forall|k: int| 0 <= k <= all.len() implies (start.run(#[trigger] all.take(k)) matches
        ProgressView::Continue(session) ==> !is_changing(session.stage)) by {
        if k >= head.len() {
            let more = rest.take(k - head.len());
            assert(all.take(k) == head + more);
            lemma_run_composes(start, head, more);
        } else {
            lemma_before_rows(start, role, rows, k);
            assert(all.take(k) == head.take(k));
        }
    }
}

/// Before the answer to the ledger query no changing stage is reached.
proof fn lemma_before_rows(start: SessionView, role: Seq<char>, rows: Seq<RowView>, k: int)
    requires
        start.stage == StageView::Connection,
        0 <= k < (opening(start.workflow) + inspection(role, rows)).len(),
    ensures
        start.run((opening(start.workflow) + inspection(role, rows)).take(k)) matches
            ProgressView::Continue(session) ==> !is_changing(session.stage),
{
    let head = opening(start.workflow) + inspection(role, rows);
    let present = inspection(role, rows).take(3);
    let read = head.take(head.len() - 1);
    assert(read == opening(start.workflow) + present);
    lemma_opening(start, present);
    let at_owner = start.at(StageView::Owner);
    let tail2 = seq![ReplyView::Flag(true)];
    let tail1 = seq![ReplyView::Text(role)] + tail2;
    assert(present == seq![ReplyView::OptionalText(Some(role))] + tail1);
    lemma_run_first(at_owner, ReplyView::OptionalText(Some(role)), tail1);
    lemma_run_first(start.at(StageView::Role { owner: role }), ReplyView::Text(role), tail2);
    lemma_run_one(start.at(StageView::LedgerPresence), ReplyView::Flag(true));
    assert(start.run(read) == ProgressView::Continue(start.at(StageView::LedgerRows)));
    lemma_changes_end(start, read);
    assert(start.changes_nothing(read));
    assert(read.take(k) == head.take(k));
}

/// A history that one plan recorded is accepted by a run of another plan only where
/// the two agree in name and exact SQL of every migration in it, or where preimages
/// that differ collide under SHA-256. So every workflow refuses an edited migration.
pub proof fn law_edited_migrations_are_refused(
    recorded: SessionView,
    linked: SessionView,
    role: Seq<char>,
    count: nat,
    index: int,
)
    requires
        recorded.plan.is_valid(),
        linked.plan.is_valid(),
        recorded.plan.schema == linked.plan.schema,
        recorded.checksums == recorded.plan.checksums(),
        linked.checksums == linked.plan.checksums(),
        linked.stage == StageView::Connection,
        0 <= index < count <= recorded.plan.migrations.len(),
        index < linked.plan.migrations.len(),
        ({
            let x = recorded.plan.migrations[index];
            let y = linked.plan.migrations[index];
            x.name@ != y.name@ || x.sql@ != y.sql@
        }),
        ({
            let x = recorded.plan.migrations[index];
            let y = linked.plan.migrations[index];
            crate::checksum::sha256(crate::checksum::preimage(x.version, x.name@, x.sql@))
                != crate::checksum::sha256(crate::checksum::preimage(y.version, y.name@, y.sql@))
        }),
    ensures
        linked.run(opening(linked.workflow) + inspection(role, recorded.recorded_rows(count)))
            matches ProgressView::Finished(Err(_)),
        linked.changes_nothing(
            opening(linked.workflow) + inspection(role, recorded.recorded_rows(count)),
        ),
{
    let base = recorded.at(StageView::Connection);
    let rows = recorded.recorded_rows(count);
    let none = Seq::<ReplyView>::empty();
    plan::law_plan_checksums(recorded.plan);
    plan::law_plan_checksums(linked.plan);
    law_recorded_rows_read_back(base, count);
    assert forall|i: int| 0 <= i < count implies base.recorded_row(i) == recorded.recorded_row(
        i,
    ) by {
        let stage = StageView::Record { from: 0, skip: 0, index: i as nat };
        assert(base.at(stage) == recorded.at(stage));
    }
    assert(base.recorded_rows(count) == rows);
    let applied = recorded.plan.entries(recorded.checksums).take(count as int);
    if linked.plan.verdict(linked.checksums, applied) is Ok {
        history::law_edited_migrations_are_noticed(
            recorded.plan,
            linked.plan,
            count as int,
            index,
        );
    }
    lemma_inspection(linked, role, rows, none);
    lemma_refused_rows_change_nothing(linked, role, rows, none);
    assert(inspection(role, rows) + none == inspection(role, rows));
}

} // verus!
