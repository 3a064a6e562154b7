//! The private migration ledger: decoding its rows and holding the applied
//! history against the authored plan.

use vstd::prelude::*;

use crate::error::{ErrorView, PostgresKitError};
use crate::plan::{PlanView, SchemaPlan};
use crate::text;

verus! {

/// One row as it came from the ledger, each column decoded or not.
pub struct LedgerRow {
    pub version: Result<i64, sqlx_core::error::Error>,
    pub name: Result<String, sqlx_core::error::Error>,
    pub checksum: Result<String, sqlx_core::error::Error>,
}

/// A [`LedgerRow`] with its texts as character sequences.
#[verifier::ext_equal]
pub struct RowView {
    pub version: Result<i64, sqlx_core::error::Error>,
    pub name: Result<Seq<char>, sqlx_core::error::Error>,
    pub checksum: Result<Seq<char>, sqlx_core::error::Error>,
}

/// A decoded text column with its text as a character sequence.
pub open spec fn column_view(column: Result<String, sqlx_core::error::Error>) -> Result<
    Seq<char>,
    sqlx_core::error::Error,
> {
    match column {
        Ok(value) => Ok(value@),
        Err(error) => Err(error),
    }
}

impl View for LedgerRow {
    type V = RowView;

    open spec fn view(&self) -> RowView {
        RowView {
            version: self.version,
            name: column_view(self.name),
            checksum: column_view(self.checksum),
        }
    }
}

/// One migration that the ledger records as applied.
#[derive(Debug)]
pub struct AppliedMigration {
    pub version: u64,
    pub name: String,
    pub checksum: String,
}

/// An [`AppliedMigration`] with its texts as character sequences.
#[verifier::ext_equal]
pub struct AppliedView {
    pub version: u64,
    pub name: Seq<char>,
    pub checksum: Seq<char>,
}

impl View for AppliedMigration {
    type V = AppliedView;

    open spec fn view(&self) -> AppliedView {
        AppliedView { version: self.version, name: self.name@, checksum: self.checksum@ }
    }
}

/// The rows with their texts as character sequences.
pub open spec fn rows_view(rows: Seq<LedgerRow>) -> Seq<RowView> {
    rows.map_values(|row: LedgerRow| row@)
}

/// The applied migrations with their texts as character sequences.
pub open spec fn applied_view(applied: Seq<AppliedMigration>) -> Seq<AppliedView> {
    applied.map_values(|migration: AppliedMigration| migration@)
}

/// The texts as character sequences.
pub open spec fn texts_view(texts: Seq<String>) -> Seq<Seq<char>> {
    texts.map_values(|value: String| value@)
}

impl RowView {
    /// What one row decodes to. Columns are read in the order version, name,
    /// checksum, and the first that cannot be read is reported. A negative
    /// version is no version of any plan: the history has diverged from the start.
    pub open spec fn decoded(self, schema: Seq<char>) -> Result<AppliedView, ErrorView> {
        match (self.version, self.name, self.checksum) {
            (Err(source), _, _) => Err(
                ErrorView::Database { operation: "decode migration version"@, source },
            ),
            (Ok(version), _, _) if version < 0 => Err(
                ErrorView::HistoryDiverged { schema, version: 0 },
            ),
            (_, Err(source), _) => Err(
                ErrorView::Database { operation: "decode migration name"@, source },
            ),
            (_, _, Err(source)) => Err(
                ErrorView::Database { operation: "decode migration checksum"@, source },
            ),
            (Ok(version), Ok(name), Ok(checksum)) => Ok(
                AppliedView { version: version as u64, name, checksum },
            ),
        }
    }
}

/// What the rows of a ledger decode to, or why the first bad row does not.
pub open spec fn decoded_rows(rows: Seq<RowView>, schema: Seq<char>) -> Result<
    Seq<AppliedView>,
    ErrorView,
>
    decreases rows.len(),
{
    if rows.len() == 0 {
        Ok(Seq::empty())
    } else {
        match decoded_rows(rows.drop_last(), schema) {
            Err(error) => Err(error),
            Ok(applied) => match rows.last().decoded(schema) {
                Err(error) => Err(error),
                Ok(migration) => Ok(applied.push(migration)),
            },
        }
    }
}

/// The largest version in a history, zero for an empty one.
pub open spec fn highest_version(applied: Seq<AppliedView>) -> u64
    decreases applied.len(),
{
    if applied.len() == 0 {
        0
    } else {
        let rest = highest_version(applied.drop_last());
        if applied.last().version > rest {
            applied.last().version
        } else {
            rest
        }
    }
}

impl PlanView {
    /// The ledger entries of the plan, given the checksums of its migrations.
    pub open spec fn entries(self, checksums: Seq<Seq<char>>) -> Seq<AppliedView> {
        Seq::new(
            self.migrations.len(),
            |i: int|
                AppliedView {
                    version: self.migrations[i].version,
                    name: self.migrations[i].name@,
                    checksum: checksums[i],
                },
        )
    }
}

/// How many entries at the start of `applied` are the entries of the plan.
pub open spec fn agreement(applied: Seq<AppliedView>, entries: Seq<AppliedView>) -> nat
    decreases applied.len(),
{
    if applied.len() == 0 {
        0
    } else {
        let agreed = agreement(applied.drop_last(), entries);
        if agreed == applied.len() - 1 && agreed < entries.len() && applied.last()
            == entries[agreed as int] {
            applied.len()
        } else {
            agreed
        }
    }
}

impl PlanView {
    /// The version that the applied history has reached, or why the history is
    /// not one of this plan: a version above the plan's own makes it ahead, and
    /// otherwise its first entry that is not the plan's, be it different or
    /// surplus, makes it diverged.
    pub open spec fn verdict(
        self,
        checksums: Seq<Seq<char>>,
        applied: Seq<AppliedView>,
    ) -> Result<u64, ErrorView> {
        let agreed = agreement(applied, self.entries(checksums));
        if highest_version(applied) > self.current_version() {
            Err(
                ErrorView::SchemaAhead {
                    schema: self.schema,
                    actual: highest_version(applied),
                    expected: self.current_version(),
                },
            )
        } else if agreed == applied.len() {
            Ok(
                if agreed == 0 {
                    0
                } else {
                    applied.last().version
                },
            )
        } else {
            Err(
                ErrorView::HistoryDiverged {
                    schema: self.schema,
                    version: applied[agreed as int].version,
                },
            )
        }
    }
}

/// Decodes one row of the ledger.
pub fn decode_row(schema: &str, row: LedgerRow) -> (decoded: Result<
    AppliedMigration,
    PostgresKitError,
>)
    ensures
        match decoded {
            Ok(migration) => row@.decoded(schema@) == Ok::<AppliedView, ErrorView>(migration@),
            Err(error) => row@.decoded(schema@) == Err::<AppliedView, ErrorView>(error@),
        },
{
    let version = match row.version {
        Ok(version) => version,
        Err(source) => {
            return Err(PostgresKitError::database("decode migration version", source));
        },
    };
    if version < 0 {
        return Err(PostgresKitError::HistoryDiverged { schema: schema.to_owned(), version: 0 });
    }
    let name = match row.name {
        Ok(name) => name,
        Err(source) => {
            return Err(PostgresKitError::database("decode migration name", source));
        },
    };
    let checksum = match row.checksum {
        Ok(checksum) => checksum,
        Err(source) => {
            return Err(PostgresKitError::database("decode migration checksum", source));
        },
    };
    Ok(AppliedMigration { version: version as u64, name, checksum })
}

/// Decodes the rows of the ledger in order.
pub fn decode_ledger(schema: &str, rows: Vec<LedgerRow>) -> (decoded: Result<
    Vec<AppliedMigration>,
    PostgresKitError,
>)
    ensures
        match decoded {
            Ok(applied) => decoded_rows(rows_view(rows@), schema@) == Ok::<
                Seq<AppliedView>,
                ErrorView,
            >(applied_view(applied@)),
            Err(error) => decoded_rows(rows_view(rows@), schema@) == Err::<
                Seq<AppliedView>,
                ErrorView,
            >(error@),
        },
{
    let ghost all = rows_view(rows@);
    let mut applied: Vec<AppliedMigration> = Vec::new();
    proof {
        assert(all.take(0) == Seq::<RowView>::empty());
        assert(applied_view(applied@) == Seq::<AppliedView>::empty());
    }
    for row in it: rows
        invariant
            it.seq() == rows@,
            all == rows_view(rows@),
            decoded_rows(all.take(it.index()), schema@) == Ok::<Seq<AppliedView>, ErrorView>(
                applied_view(applied@),
            ),
    {
        let ghost index = it.index();
        let ghost before = applied_view(applied@);
        proof {
            assert(all.take(index + 1).drop_last() == all.take(index));
            assert(all.take(index + 1).last() == row@);
        }
        match decode_row(schema, row) {
            Ok(migration) => {
                applied.push(migration);
                assert(applied_view(applied@) == before.push(migration@));
            },
            Err(error) => {
                proof {
                    lemma_bad_row_stays(all, schema@, index + 1);
                }
                return Err(error);
            },
        }
    }
    assert(all.take(all.len() as int) == all);
    Ok(applied)
}

/// A row that does not decode is reported whatever follows it.
proof fn lemma_bad_row_stays(rows: Seq<RowView>, schema: Seq<char>, n: int)
    requires
        0 <= n <= rows.len(),
        decoded_rows(rows.take(n), schema) is Err,
    ensures
        decoded_rows(rows, schema) == decoded_rows(rows.take(n), schema),
    decreases rows.len(),
{
    if n == rows.len() {
        assert(rows.take(n) == rows);
    } else {
        assert(rows.drop_last().take(n) == rows.take(n));
        lemma_bad_row_stays(rows.drop_last(), schema, n);
    }
}

fn newest(applied: &[AppliedMigration]) -> (version: u64)
    ensures
        version == highest_version(applied_view(applied@)),
{
    let ghost all = applied_view(applied@);
    let mut newest: u64 = 0;
    let mut i: usize = 0;
    while i < applied.len()
        invariant
            i <= applied@.len(),
            all == applied_view(applied@),
            newest == highest_version(all.take(i as int)),
        decreases applied@.len() - i,
    {
        assert(all.take(i + 1).drop_last() == all.take(i as int));
        assert(all.take(i + 1).last() == applied@[i as int]@);
        if applied[i].version > newest {
            newest = applied[i].version;
        }
        i = i + 1;
    }
    assert(all.take(all.len() as int) == all);
    newest
}

/// Holds an applied history against a plan whose checksums are given.
pub fn check_history(
    plan: &SchemaPlan,
    checksums: &[String],
    applied: &[AppliedMigration],
) -> (verdict: Result<u64, PostgresKitError>)
    requires
        checksums@.len() == plan@.migrations.len(),
    ensures
        match verdict {
            Ok(version) => plan@.verdict(texts_view(checksums@), applied_view(applied@)) == Ok::<
                u64,
                ErrorView,
            >(version),
            Err(error) => plan@.verdict(texts_view(checksums@), applied_view(applied@)) == Err::<
                u64,
                ErrorView,
            >(error@),
        },
{
    let actual = newest(applied);
    if actual > plan.current_version() {
        return Err(
            PostgresKitError::SchemaAhead {
                schema: plan.schema().to_owned(),
                actual,
                expected: plan.current_version(),
            },
        );
    }
    let migrations = plan.migrations();
    let ghost all = applied_view(applied@);
    let ghost entries = plan@.entries(texts_view(checksums@));
    let mut index: usize = 0;
    while index < applied.len()
        invariant
            index <= applied@.len(),
            index <= migrations@.len(),
            checksums@.len() == migrations@.len(),
            migrations@ == plan@.migrations,
            all == applied_view(applied@),
            entries == plan@.entries(texts_view(checksums@)),
            highest_version(all) <= plan@.current_version(),
            agreement(all.take(index as int), entries) == index,
        decreases applied@.len() - index,
    {
        let ghost next = all.take(index + 1);
        proof {
            assert(next.drop_last() == all.take(index as int));
            assert(next.last() == applied@[index as int]@);
        }
        let recorded = &applied[index];
        if index >= migrations.len() || recorded.version != migrations[index].version
            || !text::same_text(recorded.name.as_str(), migrations[index].name)
            || !text::same_text(recorded.checksum.as_str(), checksums[index].as_str()) {
            proof {
                lemma_disagreement_stays(all, entries, index + 1);
            }
            return Err(
                PostgresKitError::HistoryDiverged {
                    schema: plan.schema().to_owned(),
                    version: recorded.version,
                },
            );
        }
        assert(next.last() == entries[index as int]);
        index = index + 1;
    }
    assert(all.take(all.len() as int) == all);
    match applied.last() {
        Some(migration) => Ok(migration.version),
        None => Ok(0),
    }
}

/// Holds an applied history against the plan and returns the version that it
/// has reached.
pub fn validate_history(plan: &SchemaPlan, applied: &[AppliedMigration]) -> (verdict: Result<
    u64,
    PostgresKitError,
>)
    requires
        plan@.is_digestible(),
    ensures
        match verdict {
            Ok(version) => plan@.verdict(plan@.checksums(), applied_view(applied@)) == Ok::<
                u64,
                ErrorView,
            >(version),
            Err(error) => plan@.verdict(plan@.checksums(), applied_view(applied@)) == Err::<
                u64,
                ErrorView,
            >(error@),
        },
{
    let checksums = plan.checksums();
    assert(texts_view(checksums@) == plan@.checksums());
    assert(texts_view(checksums@).len() == plan@.migrations.len());
    check_history(plan, checksums.as_slice(), applied)
}

/// An entry that does not agree ends the agreement whatever follows it.
proof fn lemma_disagreement_stays(
    applied: Seq<AppliedView>,
    entries: Seq<AppliedView>,
    n: int,
)
    requires
        1 <= n <= applied.len(),
        agreement(applied.take(n), entries) == n - 1,
    ensures
        agreement(applied, entries) == n - 1,
    decreases applied.len(),
{
    if n == applied.len() {
        assert(applied.take(n) == applied);
    } else {
        assert(applied.drop_last().take(n) == applied.take(n));
        lemma_disagreement_stays(applied.drop_last(), entries, n);
    }
}

/// The agreement is the longest common start of the two sequences.
proof fn lemma_agreement(applied: Seq<AppliedView>, entries: Seq<AppliedView>)
    ensures
        ({
            let agreed = agreement(applied, entries) as int;
            &&& 0 <= agreed <= applied.len()
            &&& agreed <= entries.len()
            &&& forall|i: int| 0 <= i < agreed ==> #[trigger] applied[i] == entries[i]
            &&& agreed < applied.len() && agreed < entries.len() ==> applied[agreed]
                != entries[agreed]
        }),
    decreases applied.len(),
{
    if applied.len() > 0 {
        let rest = applied.drop_last();
        lemma_agreement(rest, entries);
        let agreed = agreement(applied, entries) as int;
        assert forall|i: int| 0 <= i < agreed implies #[trigger] applied[i] == entries[i] by {
            if i < rest.len() {
                assert(rest[i] == applied[i]);
            }
        }
        if agreed < rest.len() {
            assert(rest[agreed] == applied[agreed]);
        }
    }
}

/// The highest version of a history is one of its versions and none is above it.
pub proof fn law_highest_version(applied: Seq<AppliedView>)
    ensures
        forall|i: int|
            0 <= i < applied.len() ==> (#[trigger] applied[i]).version <= highest_version(applied),
        applied.len() == 0 ==> highest_version(applied) == 0,
        applied.len() > 0 ==> exists|i: int|
            0 <= i < applied.len() && (#[trigger] applied[i]).version == highest_version(applied),
    decreases applied.len(),
{
    if applied.len() > 0 {
        let rest = applied.drop_last();
        law_highest_version(rest);
        assert forall|i: int| 0 <= i < applied.len() implies (#[trigger] applied[i]).version
            <= highest_version(applied) by {
            if i < rest.len() {
                assert(rest[i] == applied[i]);
            }
        }
        let last = applied.len() - 1;
        if applied[last].version != highest_version(applied) {
            let i = choose|i: int|
                0 <= i < rest.len() && (#[trigger] rest[i]).version == highest_version(rest);
            assert(applied[i].version == highest_version(applied));
        }
    }
}

/// A history is accepted exactly when it is a start of the plan's own entries,
/// and then the version reached is the number of migrations applied. Any drift
/// in version, name or checksum, any gap and any surplus fails closed.
pub proof fn law_accepted_histories(
    plan: PlanView,
    checksums: Seq<Seq<char>>,
    applied: Seq<AppliedView>,
)
    requires
        plan.is_valid(),
        checksums.len() == plan.migrations.len(),
    ensures
        plan.verdict(checksums, applied) is Ok <==> applied.is_prefix_of(plan.entries(checksums)),
        applied.is_prefix_of(plan.entries(checksums)) ==> plan.verdict(checksums, applied) == Ok::<
            u64,
            ErrorView,
        >(applied.len() as u64),
{
    let entries = plan.entries(checksums);
    lemma_agreement(applied, entries);
    crate::plan::law_valid_plan(plan);
    law_highest_version(applied);
    if plan.verdict(checksums, applied) is Ok {
        assert(applied =~= entries.subrange(0, applied.len() as int));
    }
    if applied.is_prefix_of(entries) {
        let agreed = agreement(applied, entries) as int;
        assert forall|i: int| 0 <= i < applied.len() implies #[trigger] applied[i]
            == entries[i] by {
            assert(entries.subrange(0, applied.len() as int)[i] == entries[i]);
        }
        if agreed < applied.len() {
            assert(applied[agreed] == entries[agreed]);
        }
        if applied.len() > 0 {
            let top = choose|i: int|
                0 <= i < applied.len() && (#[trigger] applied[i]).version == highest_version(
                    applied,
                );
            assert(applied[top] == entries[top]);
            assert(applied.last() == entries[applied.len() - 1]);
        }
    }
}

/// A history is refused as newer than the linked Module if, and only if, it
/// reaches above the plan's own version. So the error always tells the truth:
/// the actual version is above the expected one.
pub proof fn law_ahead_means_newer(
    plan: PlanView,
    checksums: Seq<Seq<char>>,
    applied: Seq<AppliedView>,
)
    ensures
        plan.verdict(checksums, applied) matches Err(ErrorView::SchemaAhead { .. })
            <==> highest_version(applied) > plan.current_version(),
        plan.verdict(checksums, applied) matches Err(
            ErrorView::SchemaAhead { schema, actual, expected },
        ) ==> schema == plan.schema && actual == highest_version(applied) && expected
            == plan.current_version() && actual > expected,
{
}

/// A history with a version above the plan's own is refused as newer than the
/// linked Module, whatever else it holds.
pub proof fn law_newer_history_is_ahead(
    plan: PlanView,
    checksums: Seq<Seq<char>>,
    applied: Seq<AppliedView>,
    index: int,
)
    requires
        0 <= index < applied.len(),
        applied[index].version > plan.current_version(),
    ensures
        plan.verdict(checksums, applied) == Err::<u64, ErrorView>(
            ErrorView::SchemaAhead {
                schema: plan.schema,
                actual: highest_version(applied),
                expected: plan.current_version(),
            },
        ),
{
    law_highest_version(applied);
}

/// Where no version is above the plan's own, the first entry that differs from
/// the plan in version, name or checksum, or that comes after all of the plan's
/// entries, is reported as the divergence.
pub proof fn law_first_drift_is_reported(
    plan: PlanView,
    checksums: Seq<Seq<char>>,
    applied: Seq<AppliedView>,
    index: int,
)
    requires
        checksums.len() == plan.migrations.len(),
        highest_version(applied) <= plan.current_version(),
        0 <= index < applied.len(),
        index <= plan.migrations.len(),
        forall|i: int|
            0 <= i < index ==> #[trigger] applied[i] == plan.entries(checksums)[i],
        index < plan.migrations.len() ==> applied[index] != plan.entries(checksums)[index],
    ensures
        plan.verdict(checksums, applied) == Err::<u64, ErrorView>(
            ErrorView::HistoryDiverged { schema: plan.schema, version: applied[index].version },
        ),
{
    let entries = plan.entries(checksums);
    lemma_agreement(applied, entries);
    let agreed = agreement(applied, entries) as int;
    if agreed < index {
        assert(applied[agreed] == entries[agreed]);
    }
    if agreed > index {
        assert(applied[index] == entries[index]);
    }
}

/// Appending migrations keeps the history: a newer plan that only appends to an
/// older one accepts the complete history of the older at the older's version,
/// and the older plan refuses the complete history of the newer as ahead of it.
pub proof fn law_appended_migrations(
    older: PlanView,
    older_checksums: Seq<Seq<char>>,
    newer: PlanView,
    newer_checksums: Seq<Seq<char>>,
)
    requires
        older.is_valid(),
        newer.is_valid(),
        older_checksums.len() == older.migrations.len(),
        newer_checksums.len() == newer.migrations.len(),
        older.migrations.is_prefix_of(newer.migrations),
        older_checksums.is_prefix_of(newer_checksums),
    ensures
        newer.verdict(newer_checksums, older.entries(older_checksums)) == Ok::<u64, ErrorView>(
            older.current_version(),
        ),
        older.migrations.len() < newer.migrations.len() ==> older.verdict(
            older_checksums,
            newer.entries(newer_checksums),
        ) == Err::<u64, ErrorView>(
            ErrorView::SchemaAhead {
                schema: older.schema,
                actual: newer.current_version(),
                expected: older.current_version(),
            },
        ),
{
    crate::plan::law_valid_plan(older);
    crate::plan::law_valid_plan(newer);
    let short = older.entries(older_checksums);
    let long = newer.entries(newer_checksums);
    assert forall|i: int| 0 <= i < short.len() implies #[trigger] short[i] == long[i] by {
        assert(older.migrations[i] == newer.migrations.subrange(0, short.len() as int)[i]);
        assert(older_checksums[i] == newer_checksums.subrange(0, short.len() as int)[i]);
    }
    assert(short =~= long.subrange(0, short.len() as int));
    law_accepted_histories(newer, newer_checksums, short);
    if older.migrations.len() < newer.migrations.len() {
        let last = long.len() - 1;
        assert(long[last].version == newer.migrations.len());
        law_newer_history_is_ahead(older, older_checksums, long, last);
        law_highest_version(long);
        let top = choose|i: int|
            0 <= i < long.len() && (#[trigger] long[i]).version == highest_version(long);
        assert(newer.migrations[top].version == top + 1);
    }
}

/// The model of a ledger row keeps each column as it was decoded, and that of a
/// series of rows, of applied migrations or of texts keeps each item at its place.
pub proof fn law_ledger_models(
    row: LedgerRow,
    migration: AppliedMigration,
    rows: Seq<LedgerRow>,
    applied: Seq<AppliedMigration>,
    texts: Seq<String>,
)
    ensures
        row@.version == row.version,
        row.name matches Ok(name) ==> row@.name == Ok::<Seq<char>, sqlx_core::error::Error>(name@),
        row.name matches Err(error) ==> row@.name == Err::<Seq<char>, sqlx_core::error::Error>(
            error,
        ),
        row.checksum matches Ok(checksum) ==> row@.checksum == Ok::<
            Seq<char>,
            sqlx_core::error::Error,
        >(checksum@),
        row.checksum matches Err(error) ==> row@.checksum == Err::<
            Seq<char>,
            sqlx_core::error::Error,
        >(error),
        migration@.version == migration.version,
        migration@.name == migration.name@,
        migration@.checksum == migration.checksum@,
        rows_view(rows).len() == rows.len(),
        forall|i: int| 0 <= i < rows.len() ==> #[trigger] rows_view(rows)[i] == rows[i]@,
        applied_view(applied).len() == applied.len(),
        forall|i: int| 0 <= i < applied.len() ==> #[trigger] applied_view(applied)[i] == applied[i]@,
        texts_view(texts).len() == texts.len(),
        forall|i: int| 0 <= i < texts.len() ==> #[trigger] texts_view(texts)[i] == texts[i]@,
{
}

/// What a row decodes to: with three readable columns and a version that is not
/// negative, exactly these three. Otherwise the first column that is at fault
/// decides, in the order version, name, checksum.
pub proof fn law_rows_decode(row: RowView, schema: Seq<char>)
    ensures
        row.decoded(schema) matches Ok(migration) ==> {
            &&& row.version matches Ok(version) && version == migration.version
            &&& row.name == Ok::<Seq<char>, sqlx_core::error::Error>(migration.name)
            &&& row.checksum == Ok::<Seq<char>, sqlx_core::error::Error>(migration.checksum)
        },
        row.decoded(schema) is Ok <==> row.version is Ok && row.version->Ok_0 >= 0 && row.name is Ok
            && row.checksum is Ok,
        row.version matches Err(source) ==> row.decoded(schema) == Err::<AppliedView, ErrorView>(
            ErrorView::Database { operation: "decode migration version"@, source },
        ),
        row.version matches Ok(version) && version < 0 ==> row.decoded(schema) == Err::<
            AppliedView,
            ErrorView,
        >(ErrorView::HistoryDiverged { schema, version: 0 }),
        row.version is Ok && row.version->Ok_0 >= 0 ==> {
            &&& row.name matches Err(source) ==> row.decoded(schema) == Err::<
                AppliedView,
                ErrorView,
            >(ErrorView::Database { operation: "decode migration name"@, source })
            &&& row.name is Ok ==> (row.checksum matches Err(source) ==> row.decoded(schema)
                == Err::<AppliedView, ErrorView>(
                ErrorView::Database { operation: "decode migration checksum"@, source },
            ))
        },
{
}

/// A ledger decodes exactly when each of its rows does, and then to what its rows
/// decode to, each at its place.
pub proof fn law_ledgers_decode(rows: Seq<RowView>, schema: Seq<char>)
    ensures
        decoded_rows(rows, schema) is Ok <==> forall|i: int|
            0 <= i < rows.len() ==> (#[trigger] rows[i]).decoded(schema) is Ok,
        decoded_rows(rows, schema) matches Ok(applied) ==> {
            &&& applied.len() == rows.len()
            &&& forall|i: int|
                #![trigger applied[i]]
                0 <= i < rows.len() ==> rows[i].decoded(schema) == Ok::<AppliedView, ErrorView>(
                    applied[i],
                )
        },
    decreases rows.len(),
{
    if rows.len() > 0 {
        let rest = rows.drop_last();
        law_ledgers_decode(rest, schema);
        assert(rows.last() == rows[rows.len() - 1]);
        if decoded_rows(rows, schema) is Ok {
            let applied = decoded_rows(rows, schema)->Ok_0;
            let before = decoded_rows(rest, schema)->Ok_0;
            assert forall|i: int| #![trigger applied[i]] 0 <= i < rows.len() implies rows[i].decoded(
                schema,
            ) == Ok::<AppliedView, ErrorView>(applied[i]) by {
                if i < rest.len() {
                    assert(rest[i] == rows[i]);
                    assert(applied[i] == before[i]);
                }
            }
            assert forall|i: int| 0 <= i < rows.len() implies (#[trigger] rows[i]).decoded(
                schema,
            ) is Ok by {
                assert(rows[i].decoded(schema) == Ok::<AppliedView, ErrorView>(applied[i]));
            }
        } else if forall|i: int|
            0 <= i < rows.len() ==> (#[trigger] rows[i]).decoded(schema) is Ok {
            assert forall|i: int| 0 <= i < rest.len() implies (#[trigger] rest[i]).decoded(
                schema,
            ) is Ok by {
                assert(rest[i] == rows[i]);
            }
        }
    }
}

/// A ledger with a bad row is told the fault of its first bad row.
pub proof fn law_first_bad_row_is_reported(rows: Seq<RowView>, schema: Seq<char>, index: int)
    requires
        0 <= index < rows.len(),
        forall|i: int| 0 <= i < index ==> (#[trigger] rows[i]).decoded(schema) is Ok,
        rows[index].decoded(schema) is Err,
    ensures
        decoded_rows(rows, schema) == Err::<Seq<AppliedView>, ErrorView>(
            rows[index].decoded(schema)->Err_0,
        ),
{
    let head = rows.take(index);
    let upto = rows.take(index + 1);
    assert(upto.drop_last() == head);
    assert(upto.last() == rows[index]);
    assert forall|i: int| 0 <= i < head.len() implies (#[trigger] head[i]).decoded(schema) is Ok by {
        assert(head[i] == rows[i]);
    }
    law_ledgers_decode(head, schema);
    lemma_bad_row_stays(rows, schema, index + 1);
}

/// The ledger entries of a plan, field by field: each entry has the version, the
/// name and the checksum of the migration at its own place.
pub proof fn law_entries_follow_the_plan(plan: PlanView, checksums: Seq<Seq<char>>)
    ensures
        plan.entries(checksums).len() == plan.migrations.len(),
        forall|i: int|
            #![trigger plan.entries(checksums)[i]]
            0 <= i < plan.migrations.len() ==> {
                &&& plan.entries(checksums)[i].version == plan.migrations[i].version
                &&& plan.entries(checksums)[i].name == plan.migrations[i].name@
                &&& plan.entries(checksums)[i].checksum == checksums[i]
            },
{
}

/// A history is accepted only where every entry of it is that of the migration at
/// its place, in version, name and checksum alike, and every such history is.
pub proof fn law_accepted_entries(
    plan: PlanView,
    checksums: Seq<Seq<char>>,
    applied: Seq<AppliedView>,
)
    requires
        plan.is_valid(),
        checksums.len() == plan.migrations.len(),
    ensures
        plan.verdict(checksums, applied) is Ok <==> {
            &&& applied.len() <= plan.migrations.len()
            &&& forall|i: int|
                #![trigger applied[i]]
                0 <= i < applied.len() ==> {
                    &&& applied[i].version == i + 1
                    &&& applied[i].name == plan.migrations[i].name@
                    &&& applied[i].checksum == checksums[i]
                }
        },
        plan.verdict(checksums, applied) matches Ok(version) ==> version == applied.len(),
{
    let entries = plan.entries(checksums);
    law_accepted_histories(plan, checksums, applied);
    law_entries_follow_the_plan(plan, checksums);
    crate::plan::law_valid_plan(plan);
    if applied.is_prefix_of(entries) {
        assert forall|i: int| #![trigger applied[i]] 0 <= i < applied.len() implies {
            &&& applied[i].version == i + 1
            &&& applied[i].name == plan.migrations[i].name@
            &&& applied[i].checksum == checksums[i]
        } by {
            assert(entries.subrange(0, applied.len() as int)[i] == entries[i]);
            assert(plan.migrations[i].version == i + 1);
        }
    } else if applied.len() <= entries.len() {
        let head = entries.subrange(0, applied.len() as int);
        assert(applied != head);
        if forall|i: int|
            #![trigger applied[i]]
            0 <= i < applied.len() ==> {
                &&& applied[i].version == i + 1
                &&& applied[i].name == plan.migrations[i].name@
                &&& applied[i].checksum == checksums[i]
            } {
            assert forall|i: int| 0 <= i < applied.len() implies #[trigger] applied[i]
                == head[i] by {
                assert(head[i] == entries[i]);
                assert(plan.migrations[i].version == i + 1);
            }
            assert(applied =~= head);
        }
    }
}

/// A history that one plan recorded is accepted by another only where the two agree
/// in name and exact SQL of every migration that the history holds, or where the
/// preimages of two migrations that differ collide under SHA-256. So an edit of any
/// applied migration is noticed.
pub proof fn law_edited_migrations_are_noticed(
    recorded: PlanView,
    linked: PlanView,
    count: int,
    index: int,
)
    requires
        recorded.is_valid(),
        linked.is_valid(),
        0 <= index < count <= recorded.migrations.len(),
        linked.verdict(
            linked.checksums(),
            recorded.entries(recorded.checksums()).take(count),
        ) is Ok,
    ensures
        count <= linked.migrations.len(),
        ({
            let x = recorded.migrations[index];
            let y = linked.migrations[index];
            let p = crate::checksum::preimage(x.version, x.name@, x.sql@);
            let q = crate::checksum::preimage(y.version, y.name@, y.sql@);
            ||| x.version == y.version && x.name@ == y.name@ && x.sql@ == y.sql@
            ||| p != q && crate::checksum::sha256(p) == crate::checksum::sha256(q)
        }),
{
    let applied = recorded.entries(recorded.checksums()).take(count);
    crate::plan::law_plan_checksums(recorded);
    crate::plan::law_plan_checksums(linked);
    law_entries_follow_the_plan(recorded, recorded.checksums());
    law_accepted_entries(linked, linked.checksums(), applied);
    assert(applied[index] == recorded.entries(recorded.checksums())[index]);
    assert(recorded.checksums()[index] == linked.checksums()[index]);
    crate::plan::law_plan_checksums_bind(recorded, index, linked, index);
}

} // verus!
