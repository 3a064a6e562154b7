//! The handles that a Module and its operator hold.

use vstd::prelude::*;

use crate::plan::{PlanView, SchemaPlan};
use crate::session::{Session, SessionView, Verification, Workflow};
use crate::statements;

verus! {

/// The operation to name when a database URL cannot be read.
pub const PARSE_OPTIONS: &'static str = "parse connection options";

/// How a pool is to be opened: the server settings of its connections, the limit
/// on their number if the caller has no say in it, and the operation to name
/// when opening fails.
pub struct PoolSettings {
    pub options: Vec<(&'static str, String)>,
    pub max_connections: Option<u32>,
    pub operation: &'static str,
}

/// [`PoolSettings`] with their texts as character sequences.
#[verifier::ext_equal]
pub struct PoolSettingsView {
    pub options: Seq<(Seq<char>, Seq<char>)>,
    pub max_connections: Option<u32>,
    pub operation: Seq<char>,
}

impl View for PoolSettings {
    type V = PoolSettingsView;

    open spec fn view(&self) -> PoolSettingsView {
        PoolSettingsView {
            options: self.options@.map_values(
                |option: (&'static str, String)| (option.0@, option.1@),
            ),
            max_connections: self.max_connections,
            operation: self.operation@,
        }
    }
}

impl PoolSettings {
    /// Settings of the runtime pool: the owned schema is selected as the search
    /// path, and the caller sizes the pool.
    pub fn runtime(plan: &SchemaPlan) -> (settings: Self)
        ensures
            settings@ == (PoolSettingsView {
                options: seq![
                    ("search_path"@, statements::search_path_text(plan@.schema)),
                    ("application_name"@, "lenso-postgres-kit"@),
                ],
                max_connections: None,
                operation: "connect runtime pool"@,
            }),
    {
        let mut options: Vec<(&'static str, String)> = Vec::new();
        options.push(("search_path", statements::search_path(plan.schema())));
        options.push(("application_name", "lenso-postgres-kit".to_owned()));
        let settings = PoolSettings {
            options,
            max_connections: None,
            operation: "connect runtime pool",
        };
        assert(settings@.options =~= seq![
            ("search_path"@, statements::search_path_text(plan@.schema)),
            ("application_name"@, "lenso-postgres-kit"@),
        ]);
        settings
    }

    /// Settings of the operator pool: one connection, no search path.
    pub fn operator() -> (settings: Self)
        ensures
            settings@ == (PoolSettingsView {
                options: seq![("application_name"@, "lenso-postgres-kit-operator"@)],
                max_connections: Some(1),
                operation: "connect operator pool"@,
            }),
    {
        let mut options: Vec<(&'static str, String)> = Vec::new();
        options.push(("application_name", "lenso-postgres-kit-operator".to_owned()));
        let settings = PoolSettings {
            options,
            max_connections: Some(1),
            operation: "connect operator pool",
        };
        assert(settings@.options =~= seq![("application_name"@, "lenso-postgres-kit-operator"@)]);
        settings
    }
}

/// A verified, schema-scoped `PostgreSQL` pool for one Module.
pub struct OwnedPostgres<P> {
    plan: SchemaPlan,
    pool: P,
}

impl<P> OwnedPostgres<P> {
    /// The plan that the schema was verified against.
    pub closed spec fn plan_view(self) -> PlanView {
        self.plan@
    }

    /// The pool that was verified.
    pub closed spec fn pool_view(self) -> P {
        self.pool
    }

    /// Exposes a pool for the plan of a preparation run that ended well.
    pub fn verified(verification: Verification, pool: P) -> (owned: Self)
        ensures
            owned.plan_view() == verification@,
            owned.pool_view() == pool,
    {
        Self { plan: verification.into_plan(), pool }
    }

    /// Returns the plan that the schema was verified against.
    pub fn plan(&self) -> (plan: &SchemaPlan)
        ensures
            plan@ == self.plan_view(),
    {
        &self.plan
    }

    /// Returns the verified Module-owned schema name.
    pub fn schema(&self) -> (schema: &str)
        ensures
            schema@ == self.plan_view().schema,
    {
        self.plan.schema()
    }

    /// Returns the verified schema version.
    pub fn schema_version(&self) -> (version: u64)
        ensures
            version == self.plan_view().current_version(),
    {
        self.plan.current_version()
    }

    /// Returns the pool scoped to the owned schema through `search_path`.
    ///
    /// Production deployments should also use one non-superuser `PostgreSQL`
    /// role per Module; `PostgreSQL` grants, not `search_path`, are the security
    /// boundary against access to another Module's schema.
    pub fn pool(&self) -> (pool: &P)
        ensures
            *pool == self.pool_view(),
    {
        &self.pool
    }
}

impl<P: Clone> Clone for OwnedPostgres<P> {
    fn clone(&self) -> (copy: Self)
        ensures
            copy.plan_view() == self.plan_view(),
            cloned::<P>(self.pool_view(), copy.pool_view()),
    {
        Self { plan: self.plan.clone(), pool: self.pool.clone() }
    }
}

/// Explicit operator-only setup and upgrade workflows for one owned schema.
pub struct SchemaOperator<P> {
    plan: SchemaPlan,
    pool: P,
}

impl<P> SchemaOperator<P> {
    /// The plan that the operator carries out.
    pub closed spec fn plan_view(self) -> PlanView {
        self.plan@
    }

    /// The pool that the operator works on.
    pub closed spec fn pool_view(self) -> P {
        self.pool
    }

    /// Holds a connected pool for the plan, without touching the database.
    pub fn connected(plan: SchemaPlan, pool: P) -> (operator: Self)
        ensures
            operator.plan_view() == plan@,
            operator.pool_view() == pool,
    {
        Self { plan, pool }
    }

    /// Returns the plan that the operator carries out.
    pub fn plan(&self) -> (plan: &SchemaPlan)
        ensures
            plan@ == self.plan_view(),
    {
        &self.plan
    }

    /// Starts the creation of a missing schema with the complete authored plan.
    pub fn setup_session(&self) -> (session: Session)
        requires
            self.plan_view().is_digestible(),
        ensures
            session@ == SessionView::start(
                Workflow::Setup,
                self.plan_view(),
                self.plan_view().checksums(),
            ),
            session@.is_valid(),
    {
        Session::begin(Workflow::Setup, self.plan.clone())
    }

    /// Starts the application of pending migrations to an existing managed schema.
    pub fn upgrade_session(&self) -> (session: Session)
        requires
            self.plan_view().is_digestible(),
        ensures
            session@ == SessionView::start(
                Workflow::Upgrade,
                self.plan_view(),
                self.plan_view().checksums(),
            ),
            session@.is_valid(),
    {
        Session::begin(Workflow::Upgrade, self.plan.clone())
    }

    /// Returns the pool that the operator works on.
    pub fn pool(&self) -> (pool: &P)
        ensures
            *pool == self.pool_view(),
    {
        &self.pool
    }
}

/// The model of pool settings keeps every field, each in its place.
pub proof fn law_pool_settings_model(settings: PoolSettings)
    ensures
        settings@.options.len() == settings.options@.len(),
        forall|i: int|
            #![trigger settings@.options[i]]
            0 <= i < settings.options@.len() ==> {
                &&& settings@.options[i].0 == settings.options@[i].0@
                &&& settings@.options[i].1 == settings.options@[i].1@
            },
        settings@.max_connections == settings.max_connections,
        settings@.operation == settings.operation@,
        PARSE_OPTIONS@ == "parse connection options"@,
{
}

} // verus!
