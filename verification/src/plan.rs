//! Migrations, schema plans and their validation.

use std::sync::Arc;

use vstd::prelude::*;

use crate::{checksum, text};

verus! {

/// The longest schema name that `PostgreSQL` keeps whole.
pub const MAX_SCHEMA_NAME: usize = 63;

/// The longest migration name that a plan may hold.
pub const MAX_MIGRATION_NAME: usize = 128;

/// The largest version that fits the `bigint` column of the ledger.
pub const MAX_VERSION: u64 = 0x7fff_ffff_ffff_ffff;

/// A lower case ASCII letter.
pub open spec fn is_lower(c: char) -> bool {
    'a' <= c <= 'z'
}

/// An ASCII digit.
pub open spec fn is_digit(c: char) -> bool {
    '0' <= c <= '9'
}

/// Names that no Module may own.
pub open spec fn is_reserved_schema(name: Seq<char>) -> bool {
    ||| name == "public"@
    ||| name == "information_schema"@
    ||| "pg_"@.is_prefix_of(name)
}

/// Names of schemas that a Module may own: a lower case letter, then lower case
/// letters, digits and underscores, 63 characters at most, and not reserved.
pub open spec fn is_schema_name(name: Seq<char>) -> bool {
    &&& 1 <= name.len() <= MAX_SCHEMA_NAME
    &&& is_lower(name[0])
    &&& forall|i: int|
        0 <= i < name.len() ==> is_lower(#[trigger] name[i]) || is_digit(name[i]) || name[i] == '_'
    &&& !is_reserved_schema(name)
}

/// Names of migrations: a lower case letter, then lower case letters, digits,
/// underscores and hyphens, 128 characters at most.
pub open spec fn is_migration_name(name: Seq<char>) -> bool {
    &&& 1 <= name.len() <= MAX_MIGRATION_NAME
    &&& is_lower(name[0])
    &&& forall|i: int|
        0 <= i < name.len() ==> is_lower(#[trigger] name[i]) || is_digit(name[i]) || name[i] == '_'
            || name[i] == '-'
}

/// What is wrong with the migration at `index` of a plan, the first of its
/// faults where it has several.
pub open spec fn migration_fault(migration: Migration, index: int) -> Option<PlanErrorView> {
    if migration.version != index + 1 {
        Some(
            PlanErrorView::NonContiguousVersion {
                name: migration.name@,
                expected: (index + 1) as u64,
                actual: migration.version,
            },
        )
    } else if migration.version > MAX_VERSION {
        Some(PlanErrorView::MigrationVersionTooLarge { version: migration.version })
    } else if !is_migration_name(migration.name@) {
        Some(
            PlanErrorView::InvalidMigrationName {
                version: migration.version,
                name: migration.name@,
            },
        )
    } else if text::is_blank(migration.sql@) {
        Some(PlanErrorView::EmptyMigrationSql { version: migration.version })
    } else {
        None
    }
}

/// The fault of the first faulty migration in the list.
pub open spec fn first_fault(migrations: Seq<Migration>) -> Option<PlanErrorView>
    decreases migrations.len(),
{
    if migrations.len() == 0 {
        None
    } else {
        match first_fault(migrations.drop_last()) {
            Some(fault) => Some(fault),
            None => migration_fault(migrations.last(), migrations.len() - 1),
        }
    }
}

/// What is wrong with the migrations of a plan.
pub open spec fn migrations_fault(migrations: Seq<Migration>) -> Option<PlanErrorView> {
    if migrations.len() == 0 {
        Some(PlanErrorView::EmptyMigrations)
    } else {
        first_fault(migrations)
    }
}

/// One immutable, ordered migration owned by a Module.
///
/// The fields are open so that a Module can declare its migrations in a constant.
#[derive(Clone, Copy)]
pub struct Migration {
    /// The monotonic migration version.
    pub version: u64,
    /// The stable migration name.
    pub name: &'static str,
    /// The SQL applied inside the owned migration transaction.
    pub sql: &'static str,
}

impl Migration {
    /// The checksum that the ledger keeps for this migration.
    pub open spec fn checksum_text(self) -> Seq<char> {
        checksum::checksum_text(self.version, self.name@, self.sql@)
    }

    /// The migration is short enough to be hashed.
    pub open spec fn is_digestible(self) -> bool {
        checksum::preimage(self.version, self.name@, self.sql@).len() <= checksum::MAX_DIGEST_INPUT
    }

    /// Defines one migration. Validation happens when constructing a [`SchemaPlan`].
    pub fn new(version: u64, name: &'static str, sql: &'static str) -> (migration: Self)
        ensures
            migration == (Migration { version, name, sql }),
    {
        Self { version, name, sql }
    }

    /// Returns the monotonic migration version.
    pub fn version(&self) -> (version: u64)
        ensures
            version == self.version,
    {
        self.version
    }

    /// Returns the stable migration name.
    pub fn name(&self) -> (name: &'static str)
        ensures
            name == self.name,
    {
        self.name
    }

    /// Returns the SQL applied inside the owned migration transaction.
    pub fn sql(&self) -> (sql: &'static str)
        ensures
            sql == self.sql,
    {
        self.sql
    }

    /// Tells whether the migration is short enough to be hashed.
    pub fn fits_digest(&self) -> (fits: bool)
        ensures
            fits == self.is_digestible(),
    {
        checksum::fits_digest(self.version, self.name, self.sql)
    }

    /// Returns the checksum that binds version, name and exact SQL.
    pub fn checksum(&self) -> (text: String)
        requires
            self.is_digestible(),
        ensures
            text@ == self.checksum_text(),
            text@.len() == 64,
    {
        checksum::checksum(self.version, self.name, self.sql)
    }
}

/// A schema plan is invalid and cannot be used for setup or preparation.
#[derive(Clone, Debug, PartialEq, Eq)]
pub enum PlanError {
    /// The schema name is reserved or not a plain lower case identifier.
    InvalidSchemaName { schema: Arc<str> },
    /// The plan holds no migration.
    EmptyMigrations,
    /// The versions do not count up from one without a gap.
    NonContiguousVersion { name: &'static str, expected: u64, actual: u64 },
    /// The migration name is not a plain lower case identifier.
    InvalidMigrationName { version: u64, name: &'static str },
    /// The SQL is empty or holds only white space.
    EmptyMigrationSql { version: u64 },
    /// The version does not fit the ledger's `bigint` column.
    MigrationVersionTooLarge { version: u64 },
}

/// A [`PlanError`] with its texts as character sequences.
#[verifier::ext_equal]
pub enum PlanErrorView {
    InvalidSchemaName { schema: Seq<char> },
    EmptyMigrations,
    NonContiguousVersion { name: Seq<char>, expected: u64, actual: u64 },
    InvalidMigrationName { version: u64, name: Seq<char> },
    EmptyMigrationSql { version: u64 },
    MigrationVersionTooLarge { version: u64 },
}

impl View for PlanError {
    type V = PlanErrorView;

    open spec fn view(&self) -> PlanErrorView {
        match *self {
            PlanError::InvalidSchemaName { schema } => PlanErrorView::InvalidSchemaName {
                schema: (*schema)@,
            },
            PlanError::EmptyMigrations => PlanErrorView::EmptyMigrations,
            PlanError::NonContiguousVersion { name, expected, actual } => {
                PlanErrorView::NonContiguousVersion { name: name@, expected, actual }
            },
            PlanError::InvalidMigrationName { version, name } => {
                PlanErrorView::InvalidMigrationName { version, name: name@ }
            },
            PlanError::EmptyMigrationSql { version } => PlanErrorView::EmptyMigrationSql {
                version,
            },
            PlanError::MigrationVersionTooLarge { version } => {
                PlanErrorView::MigrationVersionTooLarge { version }
            },
        }
    }
}

/// What a schema plan says: the owned schema and its migrations in order.
#[verifier::ext_equal]
pub struct PlanView {
    pub schema: Seq<char>,
    pub migrations: Seq<Migration>,
}

impl PlanView {
    /// The first fault of the plan, if it has one.
    pub open spec fn fault(self) -> Option<PlanErrorView> {
        if !is_schema_name(self.schema) {
            Some(PlanErrorView::InvalidSchemaName { schema: self.schema })
        } else {
            migrations_fault(self.migrations)
        }
    }

    /// A plan without a fault.
    pub open spec fn is_valid(self) -> bool {
        self.fault() is None
    }

    /// The version of the last migration.
    pub open spec fn current_version(self) -> u64 {
        if self.migrations.len() == 0 {
            0
        } else {
            self.migrations.last().version
        }
    }

    /// Every migration is short enough to be hashed.
    pub open spec fn is_digestible(self) -> bool {
        forall|i: int|
            0 <= i < self.migrations.len() ==> (#[trigger] self.migrations[i]).is_digestible()
    }

    /// The checksums of the migrations, in order.
    pub open spec fn checksums(self) -> Seq<Seq<char>> {
        self.migrations.map_values(|migration: Migration| migration.checksum_text())
    }
}

/// An immutable description of one Module-owned `PostgreSQL` schema.
pub struct SchemaPlan {
    schema: Arc<str>,
    migrations: &'static [Migration],
}

impl View for SchemaPlan {
    type V = PlanView;

    closed spec fn view(&self) -> PlanView {
        PlanView { schema: (*self.schema)@, migrations: self.migrations@ }
    }
}

impl Clone for SchemaPlan {
    fn clone(&self) -> (copy: Self)
        ensures
            copy@ == self@,
    {
        proof {
            use_type_invariant(self);
        }
        Self { schema: self.schema.clone(), migrations: self.migrations }
    }
}

impl SchemaPlan {
    /// Only valid plans are ever constructed.
    #[verifier::type_invariant]
    pub open spec fn is_valid(self) -> bool {
        self@.is_valid()
    }

    /// Validates and creates a schema plan.
    pub fn new(schema: &str, migrations: &'static [Migration]) -> (plan: Result<Self, PlanError>)
        ensures
            match plan {
                Ok(plan) => {
                    &&& plan@ == PlanView { schema: schema@, migrations: migrations@ }
                    &&& plan@.is_valid()
                },
                Err(error) => Some(error@) == (PlanView {
                    schema: schema@,
                    migrations: migrations@,
                }).fault(),
            },
    {
        match validate_schema_name(schema) {
            Err(error) => Err(error),
            Ok(()) => match validate_migrations(migrations) {
                Err(error) => Err(error),
                Ok(()) => {
                    let schema = text::shared_text(schema);
                    Ok(Self { schema, migrations })
                },
            },
        }
    }

    /// Returns the `PostgreSQL` schema name owned by the Module.
    pub fn schema(&self) -> (schema: &str)
        ensures
            schema@ == self@.schema,
    {
        &self.schema
    }

    /// Returns the current version declared by the Module.
    pub fn current_version(&self) -> (version: u64)
        ensures
            version == self@.current_version(),
    {
        match self.migrations.last() {
            Some(migration) => migration.version,
            None => 0,
        }
    }

    /// Returns the migrations in order.
    pub fn migrations(&self) -> (migrations: &'static [Migration])
        ensures
            migrations@ == self@.migrations,
            self@.is_valid(),
    {
        proof {
            use_type_invariant(self);
        }
        self.migrations
    }

    /// Tells whether every migration is short enough to be hashed.
    pub fn fits_digest(&self) -> (fits: bool)
        ensures
            fits == self@.is_digestible(),
    {
        let mut i: usize = 0;
        while i < self.migrations.len()
            invariant
                i <= self@.migrations.len(),
                self.migrations@ == self@.migrations,
                forall|j: int|
                    0 <= j < i ==> (#[trigger] self@.migrations[j]).is_digestible(),
            decreases self@.migrations.len() - i,
        {
            if !self.migrations[i].fits_digest() {
                assert(!self@.migrations[i as int].is_digestible());
                return false;
            }
            i = i + 1;
        }
        true
    }

    /// Returns the checksums of the migrations in order.
    pub fn checksums(&self) -> (checksums: Vec<String>)
        requires
            self@.is_digestible(),
        ensures
            checksums@.map_values(|text: String| text@) == self@.checksums(),
    {
        let mut checksums: Vec<String> = Vec::new();
        let mut i: usize = 0;
        while i < self.migrations.len()
            invariant
                i <= self@.migrations.len(),
                self.migrations@ == self@.migrations,
                self@.is_digestible(),
                checksums@.len() == i,
                forall|j: int|
                    0 <= j < i ==> (#[trigger] checksums@[j])@
                        == self@.migrations[j].checksum_text(),
            decreases self@.migrations.len() - i,
        {
            checksums.push(self.migrations[i].checksum());
            i = i + 1;
        }
        assert(checksums@.map_values(|text: String| text@) =~= self@.checksums());
        checksums
    }
}

/// Checks that a Module may own a schema of this name.
pub fn validate_schema_name(schema: &str) -> (result: Result<(), PlanError>)
    ensures
        match result {
            Ok(()) => is_schema_name(schema@),
            Err(error) => {
                &&& !is_schema_name(schema@)
                &&& error@ == PlanErrorView::InvalidSchemaName { schema: schema@ }
            },
        },
{
    let reserved = text::same_text(schema, "public") || text::same_text(
        schema,
        "information_schema",
    ) || starts_with_pg(schema);
    if !reserved && identifier(schema, MAX_SCHEMA_NAME, false) {
        Ok(())
    } else {
        Err(PlanError::InvalidSchemaName { schema: text::shared_text(schema) })
    }
}

fn starts_with_pg(schema: &str) -> (result: bool)
    ensures
        result == "pg_"@.is_prefix_of(schema@),
{
    proof {
        reveal_strlit("pg_");
    }
    let result = schema.unicode_len() >= 3 && schema.get_char(0) == 'p' && schema.get_char(1)
        == 'g' && schema.get_char(2) == '_';
    proof {
        if schema@.len() >= 3 {
            let head = schema@.subrange(0, 3);
            assert(head[0] == schema@[0] && head[1] == schema@[1] && head[2] == schema@[2]);
            if result {
                assert("pg_"@ =~= head);
            }
        }
    }
    result
}

/// Checks for a lower case letter, then lower case letters, digits, underscores
/// and, where they are allowed, hyphens, `limit` characters at most.
fn identifier(name: &str, limit: usize, hyphens: bool) -> (result: bool)
    ensures
        result == {
            &&& 1 <= name@.len() <= limit
            &&& is_lower(name@[0])
            &&& forall|i: int|
                0 <= i < name@.len() ==> is_lower(#[trigger] name@[i]) || is_digit(name@[i])
                    || name@[i] == '_' || (hyphens && name@[i] == '-')
        },
{
    let length = name.unicode_len();
    if length == 0 || length > limit {
        return false;
    }
    if !is_lower_char(name.get_char(0)) {
        return false;
    }
    for c in it: name.chars()
        invariant
            it.seq() == name@,
            forall|i: int|
                0 <= i < it.index() ==> is_lower(#[trigger] name@[i]) || is_digit(name@[i])
                    || name@[i] == '_' || (hyphens && name@[i] == '-'),
    {
        let digit = '0' <= c && c <= '9';
        if !(is_lower_char(c) || digit || c == '_' || (hyphens && c == '-')) {
            assert(name@[it.index()] == c);
            return false;
        }
    }
    true
}

fn is_lower_char(c: char) -> (result: bool)
    ensures
        result == is_lower(c),
{
    'a' <= c && c <= 'z'
}

/// Checks that the migrations form one contiguous, well named, non-empty list.
pub fn validate_migrations(migrations: &[Migration]) -> (result: Result<(), PlanError>)
    ensures
        match result {
            Ok(()) => migrations_fault(migrations@) is None,
            Err(error) => migrations_fault(migrations@) == Some(error@),
        },
{
    if migrations.len() == 0 {
        return Err(PlanError::EmptyMigrations);
    }
    let mut index: usize = 0;
    while index < migrations.len()
        invariant
            index <= migrations@.len(),
            migrations@.len() > 0,
            first_fault(migrations@.take(index as int)) is None,
        decreases migrations@.len() - index,
    {
        let migration = migrations[index];
        let checked = validate_migration(migration, index);
        proof {
            let next = migrations@.take(index + 1);
            assert(next.drop_last() == migrations@.take(index as int));
            assert(next.last() == migration);
            if checked is Err {
                lemma_first_fault_stays(migrations@, index + 1);
            }
        }
        if let Err(error) = checked {
            return Err(error);
        }
        index = index + 1;
    }
    assert(migrations@.take(index as int) == migrations@);
    Ok(())
}

fn validate_migration(migration: Migration, index: usize) -> (result: Result<(), PlanError>)
    requires
        index < usize::MAX,
    ensures
        match result {
            Ok(()) => migration_fault(migration, index as int) is None,
            Err(error) => migration_fault(migration, index as int) == Some(error@),
        },
{
    let expected: u64 = index as u64 + 1;
    if migration.version != expected {
        return Err(
            PlanError::NonContiguousVersion {
                name: migration.name,
                expected,
                actual: migration.version,
            },
        );
    }
    if migration.version > MAX_VERSION {
        return Err(PlanError::MigrationVersionTooLarge { version: migration.version });
    }
    if !identifier(migration.name, MAX_MIGRATION_NAME, true) {
        return Err(
            PlanError::InvalidMigrationName { version: migration.version, name: migration.name },
        );
    }
    if text::blank(migration.sql) {
        return Err(PlanError::EmptyMigrationSql { version: migration.version });
    }
    Ok(())
}

/// A fault in the first `n` migrations is the fault of the whole list.
proof fn lemma_first_fault_stays(migrations: Seq<Migration>, n: int)
    requires
        0 <= n <= migrations.len(),
        first_fault(migrations.take(n)) is Some,
    ensures
        first_fault(migrations) == first_fault(migrations.take(n)),
    decreases migrations.len(),
{
    if n == migrations.len() {
        assert(migrations.take(n) == migrations);
    } else {
        assert(migrations.drop_last().take(n) == migrations.take(n));
        lemma_first_fault_stays(migrations.drop_last(), n);
    }
}

/// In a list without a fault every migration is without a fault at its place.
proof fn lemma_no_fault(migrations: Seq<Migration>, index: int)
    requires
        first_fault(migrations) is None,
        0 <= index < migrations.len(),
    ensures
        migration_fault(migrations[index], index) is None,
    decreases migrations.len(),
{
    if index < migrations.len() - 1 {
        assert(migrations.drop_last()[index] == migrations[index]);
        lemma_no_fault(migrations.drop_last(), index);
    }
}

/// What a valid plan promises: it holds a migration, its versions count up from
/// one without a gap so that the current version is their number, every version
/// fits the ledger, every name is a migration name and no SQL is blank.
pub proof fn law_valid_plan(plan: PlanView)
    requires
        plan.is_valid(),
    ensures
        is_schema_name(plan.schema),
        1 <= plan.migrations.len() <= MAX_VERSION,
        plan.current_version() == plan.migrations.len(),
        forall|i: int|
            #![trigger plan.migrations[i]]
            0 <= i < plan.migrations.len() ==> {
                &&& plan.migrations[i].version == i + 1
                &&& plan.migrations[i].version <= MAX_VERSION
                &&& is_migration_name(plan.migrations[i].name@)
                &&& checksum::is_zero_free(plan.migrations[i].name@)
                &&& !text::is_blank(plan.migrations[i].sql@)
            },
{
    assert forall|i: int| #![trigger plan.migrations[i]] 0 <= i < plan.migrations.len() implies {
        &&& plan.migrations[i].version == i + 1
        &&& plan.migrations[i].version <= MAX_VERSION
        &&& is_migration_name(plan.migrations[i].name@)
        &&& checksum::is_zero_free(plan.migrations[i].name@)
        &&& !text::is_blank(plan.migrations[i].sql@)
    } by {
        lemma_no_fault(plan.migrations, i);
    }
    assert(plan.migrations.last() == plan.migrations[plan.migrations.len() - 1]);
}

/// Appending the next numbered migration, with a valid name and SQL that is not
/// blank, keeps a valid list valid, up to the largest version that the ledger
/// can hold.
pub proof fn law_appending_keeps_a_list_valid(migrations: Seq<Migration>, next: Migration)
    requires
        migrations_fault(migrations) is None,
        migrations.len() < MAX_VERSION,
        next.version == migrations.len() + 1,
        is_migration_name(next.name@),
        !text::is_blank(next.sql@),
    ensures
        migrations_fault(migrations.push(next)) is None,
{
    assert(migrations.push(next).drop_last() == migrations);
}

/// The first `count` migrations of a valid list, one at least, are a valid list.
pub proof fn law_first_migrations_are_valid(migrations: Seq<Migration>, count: int)
    requires
        migrations_fault(migrations) is None,
        1 <= count <= migrations.len(),
    ensures
        migrations_fault(migrations.take(count)) is None,
{
    if first_fault(migrations.take(count)) is Some {
        lemma_first_fault_stays(migrations, count);
    }
}

/// Every migration of a plan has its checksum, and a plan that only appends
/// migrations keeps the checksums of the earlier ones.
pub proof fn law_checksums_follow_migrations(older: PlanView, newer: PlanView)
    ensures
        newer.checksums().len() == newer.migrations.len(),
        older.migrations.is_prefix_of(newer.migrations) ==> older.checksums().is_prefix_of(
            newer.checksums(),
        ),
{
    if older.migrations.is_prefix_of(newer.migrations) {
        let n = older.migrations.len() as int;
        assert forall|i: int| 0 <= i < n implies older.migrations[i] == newer.migrations[i] by {
            assert(newer.migrations.subrange(0, n)[i] == newer.migrations[i]);
        }
        assert(older.checksums() =~= newer.checksums().subrange(0, n));
    }
}

/// The checksums of a valid plan bind its migrations: where two valid plans give
/// the same checksum to a migration of each, the two agree in version, name and
/// exact SQL, or their two preimages collide under SHA-256.
pub proof fn law_plan_checksums_bind(a: PlanView, i: int, b: PlanView, j: int)
    requires
        a.is_valid(),
        b.is_valid(),
        0 <= i < a.migrations.len(),
        0 <= j < b.migrations.len(),
    ensures
        a.checksums()[i] == b.checksums()[j] ==> ({
            let x = a.migrations[i];
            let y = b.migrations[j];
            let p = checksum::preimage(x.version, x.name@, x.sql@);
            let q = checksum::preimage(y.version, y.name@, y.sql@);
            ||| x.version == y.version && x.name@ == y.name@ && x.sql@ == y.sql@
            ||| p != q && checksum::sha256(p) == checksum::sha256(q)
        }),
{
    law_valid_plan(a);
    law_valid_plan(b);
    let x = a.migrations[i];
    let y = b.migrations[j];
    checksum::law_checksum_binds(x.version, x.name@, x.sql@, y.version, y.name@, y.sql@);
}

/// Which schema names a Module may own, by code point: a letter of `a` to `z`, then
/// such letters, any of the ten digits and the underscore, 63 characters at most;
/// not `public`, not `information_schema`, and nothing that begins with `pg_`.
pub proof fn law_schema_names(name: Seq<char>)
    ensures
        is_schema_name(name) <==> {
            &&& 1 <= name.len() <= 63
            &&& 97 <= name[0] as int <= 122
            &&& forall|i: int|
                #![trigger name[i]]
                1 <= i < name.len() ==> 97 <= name[i] as int <= 122 || 48 <= name[i] as int <= 57
                    || name[i] as int == 95
            &&& name != seq!['p', 'u', 'b', 'l', 'i', 'c']
            &&& name != "information_schema"@
            &&& !(name.len() >= 3 && name[0] as int == 112 && name[1] as int == 103
                && name[2] as int == 95)
        },
{
    reveal_strlit("public");
    reveal_strlit("pg_");
    assert("public"@ =~= seq!['p', 'u', 'b', 'l', 'i', 'c']);
    if name.len() >= 3 {
        let head = name.subrange(0, 3);
        assert(head[0] == name[0] && head[1] == name[1] && head[2] == name[2]);
        if name[0] as int == 112 && name[1] as int == 103 && name[2] as int == 95 {
            assert("pg_"@ =~= head);
        }
    }
    if is_schema_name(name) {
        assert(is_lower(name[0]));
    }
    if 1 <= name.len() && 97 <= name[0] as int <= 122 && forall|i: int|
        #![trigger name[i]]
        1 <= i < name.len() ==> 97 <= name[i] as int <= 122 || 48 <= name[i] as int <= 57
            || name[i] as int == 95 {
        assert forall|i: int| 0 <= i < name.len() implies is_lower(#[trigger] name[i]) || is_digit(
            name[i],
        ) || name[i] == '_' by {}
    }
}

/// Which names a migration may have, by code point: a letter of `a` to `z`, then
/// such letters, any of the ten digits, the underscore and the hyphen, 128
/// characters at most.
pub proof fn law_migration_names(name: Seq<char>)
    ensures
        is_migration_name(name) <==> {
            &&& 1 <= name.len() <= 128
            &&& 97 <= name[0] as int <= 122
            &&& forall|i: int|
                #![trigger name[i]]
                1 <= i < name.len() ==> 97 <= name[i] as int <= 122 || 48 <= name[i] as int <= 57
                    || name[i] as int == 95 || name[i] as int == 45
        },
{
    if is_migration_name(name) {
        assert(is_lower(name[0]));
    }
    if 1 <= name.len() && 97 <= name[0] as int <= 122 && forall|i: int|
        #![trigger name[i]]
        1 <= i < name.len() ==> 97 <= name[i] as int <= 122 || 48 <= name[i] as int <= 57
            || name[i] as int == 95 || name[i] as int == 45 {
        assert forall|i: int| 0 <= i < name.len() implies is_lower(#[trigger] name[i]) || is_digit(
            name[i],
        ) || name[i] == '_' || name[i] == '-' by {}
    }
}

/// A migration that stands at its place, counted from zero: numbered one more than
/// the place, within the range of a `bigint`, well named and with SQL in it.
pub open spec fn stands_at(migration: Migration, place: int) -> bool {
    &&& migration.version == place + 1
    &&& migration.version <= 0x7fff_ffff_ffff_ffff
    &&& is_migration_name(migration.name@)
    &&& !text::is_blank(migration.sql@)
}

/// A plan is valid exactly when its schema name is one that a Module may own, it
/// holds a migration, and every migration stands at its place.
pub proof fn law_valid_plans(plan: PlanView)
    ensures
        plan.is_valid() <==> {
            &&& is_schema_name(plan.schema)
            &&& plan.migrations.len() > 0
            &&& forall|i: int|
                0 <= i < plan.migrations.len() ==> stands_at(#[trigger] plan.migrations[i], i)
        },
{
    if plan.is_valid() {
        assert forall|i: int| 0 <= i < plan.migrations.len() implies stands_at(
            #[trigger] plan.migrations[i],
            i,
        ) by {
            lemma_no_fault(plan.migrations, i);
        }
    }
    if forall|i: int|
        0 <= i < plan.migrations.len() ==> stands_at(#[trigger] plan.migrations[i], i) {
        lemma_all_stand(plan.migrations);
    }
}

proof fn lemma_all_stand(migrations: Seq<Migration>)
    requires
        forall|i: int| 0 <= i < migrations.len() ==> stands_at(#[trigger] migrations[i], i),
    ensures
        first_fault(migrations) is None,
    decreases migrations.len(),
{
    if migrations.len() > 0 {
        let rest = migrations.drop_last();
        assert forall|i: int| 0 <= i < rest.len() implies stands_at(#[trigger] rest[i], i) by {
            assert(rest[i] == migrations[i]);
        }
        lemma_all_stand(rest);
        assert(migrations.last() == migrations[migrations.len() - 1]);
    }
}

/// A refused plan is told its first fault: the schema name before the migrations,
/// a missing list before its items, an earlier migration before a later one, and
/// of one migration the version, then its range, then the name, then the SQL.
pub proof fn law_first_fault_is_reported(plan: PlanView, place: int)
    requires
        0 <= place < u64::MAX,
        forall|i: int|
            0 <= i < place && i < plan.migrations.len() ==> stands_at(
                #[trigger] plan.migrations[i],
                i,
            ),
    ensures
        !is_schema_name(plan.schema) ==> plan.fault() == Some(
            PlanErrorView::InvalidSchemaName { schema: plan.schema },
        ),
        is_schema_name(plan.schema) ==> plan.fault() == migrations_fault(plan.migrations),
        plan.migrations.len() == 0 ==> migrations_fault(plan.migrations) == Some(
            PlanErrorView::EmptyMigrations,
        ),
        place < plan.migrations.len() ==> ({
            let migration = plan.migrations[place];
            let fault = migrations_fault(plan.migrations);
            &&& migration.version != place + 1 ==> fault == Some(
                PlanErrorView::NonContiguousVersion {
                    name: migration.name@,
                    expected: (place + 1) as u64,
                    actual: migration.version,
                },
            )
            &&& migration.version == place + 1 && migration.version > 0x7fff_ffff_ffff_ffff
                ==> fault == Some(
                PlanErrorView::MigrationVersionTooLarge { version: migration.version },
            )
            &&& migration.version == place + 1 && migration.version <= 0x7fff_ffff_ffff_ffff
                && !is_migration_name(migration.name@) ==> fault == Some(
                PlanErrorView::InvalidMigrationName {
                    version: migration.version,
                    name: migration.name@,
                },
            )
            &&& migration.version == place + 1 && migration.version <= 0x7fff_ffff_ffff_ffff
                && is_migration_name(migration.name@) && text::is_blank(migration.sql@)
                ==> fault == Some(
                PlanErrorView::EmptyMigrationSql { version: migration.version },
            )
        }),
{
    if place < plan.migrations.len() && !stands_at(plan.migrations[place], place) {
        let head = plan.migrations.take(place);
        assert forall|i: int| 0 <= i < head.len() implies stands_at(#[trigger] head[i], i) by {
            assert(head[i] == plan.migrations[i]);
        }
        lemma_all_stand(head);
        let upto = plan.migrations.take(place + 1);
        assert(upto.drop_last() == head);
        assert(upto.last() == plan.migrations[place]);
        assert(first_fault(upto) == migration_fault(plan.migrations[place], place));
        lemma_first_fault_stays(plan.migrations, place + 1);
    }
}

/// The model of a plan error keeps every field of the error, each in its place.
pub proof fn law_plan_errors_keep_their_fields(error: PlanError)
    ensures
        match error {
            PlanError::InvalidSchemaName { schema: s } => error@
                matches PlanErrorView::InvalidSchemaName { schema } && schema == (*s)@,
            PlanError::EmptyMigrations => error@ is EmptyMigrations,
            PlanError::NonContiguousVersion { name: n, expected: e, actual: a } => error@
                matches PlanErrorView::NonContiguousVersion { name, expected, actual } && name
                == n@ && expected == e && actual == a,
            PlanError::InvalidMigrationName { version: v, name: n } => error@
                matches PlanErrorView::InvalidMigrationName { version, name } && version == v
                && name == n@,
            PlanError::EmptyMigrationSql { version: v } => error@
                matches PlanErrorView::EmptyMigrationSql { version } && version == v,
            PlanError::MigrationVersionTooLarge { version: v } => error@
                matches PlanErrorView::MigrationVersionTooLarge { version } && version == v,
        },
{
}

/// Every migration of a plan has its own checksum, at its own place: that of its
/// version, its name and its SQL. And what of a plan can be hashed is decided by
/// the number of bytes in its names and its SQL alone.
pub proof fn law_plan_checksums(plan: PlanView)
    ensures
        plan.checksums().len() == plan.migrations.len(),
        forall|i: int|
            #![trigger plan.migrations[i]]
            0 <= i < plan.migrations.len() ==> {
                let migration = plan.migrations[i];
                &&& plan.checksums()[i] == checksum::checksum_text(
                    migration.version,
                    migration.name@,
                    migration.sql@,
                )
                &&& migration.checksum_text() == plan.checksums()[i]
                &&& migration.is_digestible() <==> 10 + vstd::utf8::encode_utf8(
                    migration.name@,
                ).len() + vstd::utf8::encode_utf8(migration.sql@).len() < 0x2000_0000_0000_0000
            },
        plan.is_digestible() <==> forall|i: int|
            0 <= i < plan.migrations.len() ==> (#[trigger] plan.migrations[i]).is_digestible(),
{
    assert forall|i: int| #![trigger plan.migrations[i]] 0 <= i < plan.migrations.len() implies {
        let migration = plan.migrations[i];
        migration.is_digestible() <==> 10 + vstd::utf8::encode_utf8(migration.name@).len()
            + vstd::utf8::encode_utf8(migration.sql@).len() < 0x2000_0000_0000_0000
    } by {
        let migration = plan.migrations[i];
        checksum::law_preimage_layout(migration.version, migration.name@, migration.sql@);
    }
}

/// The current version of a plan is that of its last migration.
pub proof fn law_current_version(plan: PlanView)
    ensures
        plan.migrations.len() == 0 ==> plan.current_version() == 0,
        plan.migrations.len() > 0 ==> plan.current_version() == plan.migrations[plan.migrations.len()
            - 1].version,
{
}

} // verus!
