//! The SQL that the lifecycle sends.

use vstd::prelude::*;

verus! {

/// The table, inside the owned schema, that records applied migrations.
pub const LEDGER_TABLE: &'static str = "_lenso_schema_migrations";

/// Takes the advisory lock of one owned schema until the transaction ends.
pub const LOCK_SCHEMA: &'static str = "SELECT pg_advisory_xact_lock(\n\
     hashtextextended(current_database() || ':' || $1, 0)\n\
     )";

/// Reads the owner of a schema, if the schema exists.
pub const READ_OWNER: &'static str = "SELECT roles.rolname::text\n\
     FROM pg_namespace AS namespaces\n\
     JOIN pg_roles AS roles ON roles.oid = namespaces.nspowner\n\
     WHERE namespaces.nspname = $1";

/// Reads the role that the connection acts as.
pub const READ_ROLE: &'static str = "SELECT current_user::text";

/// Reads whether a schema holds a table.
pub const READ_LEDGER_PRESENCE: &'static str = "SELECT EXISTS (\n\
     SELECT 1\n\
     FROM pg_class AS relations\n\
     JOIN pg_namespace AS namespaces ON namespaces.oid = relations.relnamespace\n\
     WHERE namespaces.nspname = $1\n\
     AND relations.relname = $2\n\
     AND relations.relkind = 'r'\n\
     )";

/// The identifier in double quotes.
pub open spec fn quoted(identifier: Seq<char>) -> Seq<char> {
    "\""@ + identifier + "\""@
}

/// A table named together with its schema, both in double quotes.
pub open spec fn qualified(schema: Seq<char>, table: Seq<char>) -> Seq<char> {
    quoted(schema) + "."@ + quoted(table)
}

/// Reads the whole ledger in the order of versions.
pub open spec fn read_ledger_text(schema: Seq<char>) -> Seq<char> {
    "SELECT version, name, checksum FROM "@ + qualified(schema, LEDGER_TABLE@)
        + " ORDER BY version"@
}

/// Creates the owned schema.
pub open spec fn create_schema_text(schema: Seq<char>) -> Seq<char> {
    "CREATE SCHEMA "@ + quoted(schema)
}

/// Creates the ledger inside the owned schema.
pub open spec fn create_ledger_text(schema: Seq<char>) -> Seq<char> {
    "CREATE TABLE "@ + qualified(schema, LEDGER_TABLE@)
        + " (\nversion bigint PRIMARY KEY CHECK (version > 0),\nname text NOT NULL,\nchecksum text NOT NULL,\napplied_at timestamptz NOT NULL DEFAULT transaction_timestamp()\n)"@
}

/// Selects the owned schema for the rest of the transaction.
pub open spec fn select_schema_text(schema: Seq<char>) -> Seq<char> {
    "SET LOCAL search_path TO "@ + quoted(schema) + ", pg_catalog"@
}

/// Adds one entry to the ledger.
pub open spec fn record_migration_text(schema: Seq<char>) -> Seq<char> {
    "INSERT INTO "@ + qualified(schema, LEDGER_TABLE@)
        + " (version, name, checksum) VALUES ($1, $2, $3)"@
}

/// The search path of a runtime connection.
pub open spec fn search_path_text(schema: Seq<char>) -> Seq<char> {
    schema + ",pg_catalog"@
}

/// Puts an identifier in double quotes.
pub fn quote_identifier(identifier: &str) -> (text: String)
    ensures
        text@ == quoted(identifier@),
{
    let mut text = String::new();
    text.append("\"");
    text.append(identifier);
    text.append("\"");
    assert(text@ =~= quoted(identifier@));
    text
}

/// Names a table together with its schema.
pub fn qualified_table(schema: &str, table: &str) -> (text: String)
    ensures
        text@ == qualified(schema@, table@),
{
    let mut text = quote_identifier(schema);
    text.append(".");
    text.append(quote_identifier(table).as_str());
    text
}

/// Composes the statement that reads the ledger.
pub fn read_ledger(schema: &str) -> (sql: String)
    ensures
        sql@ == read_ledger_text(schema@),
{
    let mut sql = "SELECT version, name, checksum FROM ".to_owned();
    sql.append(qualified_table(schema, LEDGER_TABLE).as_str());
    sql.append(" ORDER BY version");
    sql
}

/// Composes the statement that creates the owned schema.
pub fn create_schema(schema: &str) -> (sql: String)
    ensures
        sql@ == create_schema_text(schema@),
{
    let mut sql = "CREATE SCHEMA ".to_owned();
    sql.append(quote_identifier(schema).as_str());
    sql
}

/// Composes the statement that creates the ledger.
pub fn create_ledger(schema: &str) -> (sql: String)
    ensures
        sql@ == create_ledger_text(schema@),
{
    let mut sql = "CREATE TABLE ".to_owned();
    sql.append(qualified_table(schema, LEDGER_TABLE).as_str());
    sql.append(
        " (\nversion bigint PRIMARY KEY CHECK (version > 0),\nname text NOT NULL,\nchecksum text NOT NULL,\napplied_at timestamptz NOT NULL DEFAULT transaction_timestamp()\n)",
    );
    sql
}

/// Composes the statement that selects the owned schema.
pub fn select_schema(schema: &str) -> (sql: String)
    ensures
        sql@ == select_schema_text(schema@),
{
    let mut sql = "SET LOCAL search_path TO ".to_owned();
    sql.append(quote_identifier(schema).as_str());
    sql.append(", pg_catalog");
    sql
}

/// Composes the statement that adds one entry to the ledger.
pub fn record_migration(schema: &str) -> (sql: String)
    ensures
        sql@ == record_migration_text(schema@),
{
    let mut sql = "INSERT INTO ".to_owned();
    sql.append(qualified_table(schema, LEDGER_TABLE).as_str());
    sql.append(" (version, name, checksum) VALUES ($1, $2, $3)");
    sql
}

/// Composes the search path of a runtime connection.
pub fn search_path(schema: &str) -> (path: String)
    ensures
        path@ == search_path_text(schema@),
{
    let mut path = schema.to_owned();
    path.append(",pg_catalog");
    path
}

/// The name of an owned schema is safe to compose into SQL: it holds no double
/// quote, so the two that enclose it in its quoted form are the only ones there,
/// and no comma, so it is one entry of a search path.
pub proof fn law_schema_names_compose(schema: Seq<char>)
    requires
        crate::plan::is_schema_name(schema),
    ensures
        quoted(schema).len() == schema.len() + 2,
        forall|i: int|
            0 <= i < quoted(schema).len() ==> (#[trigger] quoted(schema)[i] == '"' <==> i == 0 || i
                == schema.len() + 1),
        forall|i: int| 0 <= i < schema.len() ==> #[trigger] schema[i] != ',',
{
    reveal_strlit("\"");
    assert forall|i: int| 0 <= i < quoted(schema).len() implies (#[trigger] quoted(schema)[i]
        == '"' <==> i == 0 || i == schema.len() + 1) by {
        if 0 < i <= schema.len() {
            assert(quoted(schema)[i] == schema[i - 1]);
        }
    }
}

/// Taking the schema lock and every query that inspects a schema is a `SELECT`.
pub proof fn law_queries_are_selects(schema: Seq<char>)
    ensures
        "SELECT "@.is_prefix_of(LOCK_SCHEMA@),
        "SELECT "@.is_prefix_of(READ_OWNER@),
        "SELECT "@.is_prefix_of(READ_ROLE@),
        "SELECT "@.is_prefix_of(READ_LEDGER_PRESENCE@),
        "SELECT "@.is_prefix_of(read_ledger_text(schema)),
{
    reveal_strlit("SELECT ");
    reveal_strlit(
        "SELECT pg_advisory_xact_lock(\nhashtextextended(current_database() || ':' || $1, 0)\n)",
    );
    reveal_strlit(
        "SELECT roles.rolname::text\nFROM pg_namespace AS namespaces\nJOIN pg_roles AS roles ON roles.oid = namespaces.nspowner\nWHERE namespaces.nspname = $1",
    );
    reveal_strlit("SELECT current_user::text");
    reveal_strlit(
        "SELECT EXISTS (\nSELECT 1\nFROM pg_class AS relations\nJOIN pg_namespace AS namespaces ON namespaces.oid = relations.relnamespace\nWHERE namespaces.nspname = $1\nAND relations.relname = $2\nAND relations.relkind = 'r'\n)",
    );
    reveal_strlit("SELECT version, name, checksum FROM ");
    let head = "SELECT "@;
    assert(head =~= LOCK_SCHEMA@.subrange(0, 7));
    assert(head =~= READ_OWNER@.subrange(0, 7));
    assert(head =~= READ_ROLE@.subrange(0, 7));
    assert(head =~= READ_LEDGER_PRESENCE@.subrange(0, 7));
    assert(head =~= read_ledger_text(schema).subrange(0, 7));
}

/// No character of `text` is `c`.
pub open spec fn lacks(text: Seq<char>, c: char) -> bool {
    forall|i: int| 0 <= i < text.len() ==> #[trigger] text[i] != c
}

/// How many of the first `n` characters of `text` are `c`.
pub open spec fn count_of(text: Seq<char>, c: char, n: nat) -> nat
    decreases n,
{
    if n == 0 {
        0
    } else if text[n - 1] == c {
        count_of(text, c, (n - 1) as nat) + 1
    } else {
        count_of(text, c, (n - 1) as nat)
    }
}

/// How many dollar signs, each the start of a placeholder, a statement holds.
pub open spec fn dollars(sql: Seq<char>) -> nat {
    count_of(sql, '$', sql.len())
}

/// The placeholder of the parameter with this number, counted from one, stands in
/// the statement.
pub open spec fn holds_placeholder(sql: Seq<char>, number: int) -> bool {
    exists|i: int|
        0 <= i < sql.len() - 1 && #[trigger] sql[i] == '$' && sql[i + 1] as int == 48 + number
}

/// What stands before the first `c`.
pub open spec fn cut_before(text: Seq<char>, c: char) -> Seq<char>
    decreases text.len(),
{
    if text.len() == 0 || text[0] == c {
        Seq::empty()
    } else {
        seq![text[0]] + cut_before(text.drop_first(), c)
    }
}

/// What stands after the first `c`.
pub open spec fn cut_after(text: Seq<char>, c: char) -> Seq<char>
    decreases text.len(),
{
    if text.len() == 0 {
        Seq::empty()
    } else if text[0] == c {
        text.drop_first()
    } else {
        cut_after(text.drop_first(), c)
    }
}

/// The item at `k` of a list whose items are set apart by a comma and a blank.
pub open spec fn list_item(list: Seq<char>, k: nat) -> Seq<char>
    decreases k,
{
    if k == 0 {
        cut_before(list, ',')
    } else {
        list_item(cut_after(list, ',').drop_first(), (k - 1) as nat)
    }
}

/// The column list of an `INSERT`: what stands in its first brackets.
pub open spec fn columns_of(sql: Seq<char>) -> Seq<char> {
    cut_before(cut_after(sql, '('), ')')
}

/// The value list of an `INSERT`: what stands in its second brackets.
pub open spec fn values_of(sql: Seq<char>) -> Seq<char> {
    cut_before(cut_after(cut_after(sql, ')'), '('), ')')
}

/// The number of the parameter that an `INSERT` of three columns writes to a
/// column: that of the placeholder at the column's place in the value list.
pub open spec fn parameter_of(sql: Seq<char>, column: Seq<char>) -> int {
    let columns = columns_of(sql);
    let place: nat = if list_item(columns, 0) == column {
        0
    } else if list_item(columns, 1) == column {
        1
    } else {
        2
    };
    list_item(values_of(sql), place)[1] as int - 48
}

proof fn lemma_cut(head: Seq<char>, c: char, tail: Seq<char>)
    requires
        lacks(head, c),
    ensures
        cut_before(head + seq![c] + tail, c) == head,
        cut_after(head + seq![c] + tail, c) == tail,
    decreases head.len(),
{
    let text = head + seq![c] + tail;
    if head.len() == 0 {
        assert(text.drop_first() == tail);
    } else {
        let rest = head.drop_first();
        assert(text[0] == head[0]);
        assert(text.drop_first() == rest + seq![c] + tail);
        assert forall|i: int| 0 <= i < rest.len() implies #[trigger] rest[i] != c by {
            assert(rest[i] == head[i + 1]);
        }
        lemma_cut(rest, c, tail);
        assert(seq![head[0]] + rest == head);
    }
}

proof fn lemma_cut_nothing(text: Seq<char>, c: char)
    requires
        lacks(text, c),
    ensures
        cut_before(text, c) == text,
    decreases text.len(),
{
    if text.len() > 0 {
        let rest = text.drop_first();
        assert forall|i: int| 0 <= i < rest.len() implies #[trigger] rest[i] != c by {
            assert(rest[i] == text[i + 1]);
        }
        lemma_cut_nothing(rest, c);
        assert(seq![text[0]] + rest == text);
    }
}

proof fn lemma_count_depends_on_start(a: Seq<char>, b: Seq<char>, c: char, n: nat)
    requires
        n <= a.len(),
        n <= b.len(),
        forall|i: int| 0 <= i < n ==> #[trigger] a[i] == b[i],
    ensures
        count_of(a, c, n) == count_of(b, c, n),
    decreases n,
{
    if n > 0 {
        assert(a[n - 1] == b[n - 1]);
        lemma_count_depends_on_start(a, b, c, (n - 1) as nat);
    }
}

proof fn lemma_count_adds(a: Seq<char>, b: Seq<char>, c: char, n: nat)
    requires
        n <= b.len(),
    ensures
        count_of(a + b, c, a.len() + n) == count_of(a, c, a.len()) + count_of(b, c, n),
    decreases n,
{
    if n == 0 {
        lemma_count_depends_on_start(a + b, a, c, a.len());
    } else {
        lemma_count_adds(a, b, c, (n - 1) as nat);
        assert((a + b)[a.len() + n - 1] == b[n - 1]);
        assert((a.len() + n - 1) as nat == a.len() + (n - 1) as nat);
    }
}

proof fn lemma_dollars_add(a: Seq<char>, b: Seq<char>)
    ensures
        dollars(a + b) == dollars(a) + dollars(b),
{
    lemma_count_adds(a, b, '$', b.len());
}

proof fn lemma_no_dollars(text: Seq<char>, n: nat)
    requires
        lacks(text, '$'),
        n <= text.len(),
    ensures
        count_of(text, '$', n) == 0,
    decreases n,
{
    if n > 0 {
        lemma_no_dollars(text, (n - 1) as nat);
        assert(text[n - 1] != '$');
    }
}

proof fn lemma_lock_dollars()
    ensures
        "SELECT pg_advisory_xact_lock(\nhashtextextended(current_database() || ':' || $1, 0)\n)"@.len() == 84,
        dollars("SELECT pg_advisory_xact_lock(\nhashtextextended(current_database() || ':' || $1, 0)\n)"@) == 1,
        "SELECT pg_advisory_xact_lock(\nhashtextextended(current_database() || ':' || $1, 0)\n)"@[76] == '$' && "SELECT pg_advisory_xact_lock(\nhashtextextended(current_database() || ':' || $1, 0)\n)"@[77] == '1',
{
    reveal_strlit("SELECT pg_advisory_xact_lock(\nhashtextextended(current_database() || ':' || $1, 0)\n)");
    reveal_with_fuel(count_of, 22);
    let text = "SELECT pg_advisory_xact_lock(\nhashtextextended(current_database() || ':' || $1, 0)\n)"@;
    assert(count_of(text, '$', 20) == 0);
    assert(count_of(text, '$', 40) == 0);
    assert(count_of(text, '$', 60) == 0);
    assert(count_of(text, '$', 80) == 1);
    assert(count_of(text, '$', 84) == 1);
}

proof fn lemma_owner_dollars()
    ensures
        "SELECT roles.rolname::text\nFROM pg_namespace AS namespaces\nJOIN pg_roles AS roles ON roles.oid = namespaces.nspowner\nWHERE namespaces.nspname = $1"@.len() == 146,
        dollars("SELECT roles.rolname::text\nFROM pg_namespace AS namespaces\nJOIN pg_roles AS roles ON roles.oid = namespaces.nspowner\nWHERE namespaces.nspname = $1"@) == 1,
        "SELECT roles.rolname::text\nFROM pg_namespace AS namespaces\nJOIN pg_roles AS roles ON roles.oid = namespaces.nspowner\nWHERE namespaces.nspname = $1"@[144] == '$' && "SELECT roles.rolname::text\nFROM pg_namespace AS namespaces\nJOIN pg_roles AS roles ON roles.oid = namespaces.nspowner\nWHERE namespaces.nspname = $1"@[145] == '1',
{
    reveal_strlit("SELECT roles.rolname::text\nFROM pg_namespace AS namespaces\nJOIN pg_roles AS roles ON roles.oid = namespaces.nspowner\nWHERE namespaces.nspname = $1");
    reveal_with_fuel(count_of, 22);
    let text = "SELECT roles.rolname::text\nFROM pg_namespace AS namespaces\nJOIN pg_roles AS roles ON roles.oid = namespaces.nspowner\nWHERE namespaces.nspname = $1"@;
    assert(count_of(text, '$', 20) == 0);
    assert(count_of(text, '$', 40) == 0);
    assert(count_of(text, '$', 60) == 0);
    assert(count_of(text, '$', 80) == 0);
    assert(count_of(text, '$', 100) == 0);
    assert(count_of(text, '$', 120) == 0);
    assert(count_of(text, '$', 140) == 0);
    assert(count_of(text, '$', 146) == 1);
}

proof fn lemma_role_dollars()
    ensures
        "SELECT current_user::text"@.len() == 25,
        dollars("SELECT current_user::text"@) == 0,
{
    reveal_strlit("SELECT current_user::text");
    reveal_with_fuel(count_of, 22);
    let text = "SELECT current_user::text"@;
    assert(count_of(text, '$', 20) == 0);
    assert(count_of(text, '$', 25) == 0);
}

proof fn lemma_presence_dollars()
    ensures
        "SELECT EXISTS (\nSELECT 1\nFROM pg_class AS relations\nJOIN pg_namespace AS namespaces ON namespaces.oid = relations.relnamespace\nWHERE namespaces.nspname = $1\nAND relations.relname = $2\nAND relations.relkind = 'r'\n)"@.len() == 213,
        dollars("SELECT EXISTS (\nSELECT 1\nFROM pg_class AS relations\nJOIN pg_namespace AS namespaces ON namespaces.oid = relations.relnamespace\nWHERE namespaces.nspname = $1\nAND relations.relname = $2\nAND relations.relkind = 'r'\n)"@) == 2,
        "SELECT EXISTS (\nSELECT 1\nFROM pg_class AS relations\nJOIN pg_namespace AS namespaces ON namespaces.oid = relations.relnamespace\nWHERE namespaces.nspname = $1\nAND relations.relname = $2\nAND relations.relkind = 'r'\n)"@[154] == '$' && "SELECT EXISTS (\nSELECT 1\nFROM pg_class AS relations\nJOIN pg_namespace AS namespaces ON namespaces.oid = relations.relnamespace\nWHERE namespaces.nspname = $1\nAND relations.relname = $2\nAND relations.relkind = 'r'\n)"@[155] == '1',
        "SELECT EXISTS (\nSELECT 1\nFROM pg_class AS relations\nJOIN pg_namespace AS namespaces ON namespaces.oid = relations.relnamespace\nWHERE namespaces.nspname = $1\nAND relations.relname = $2\nAND relations.relkind = 'r'\n)"@[181] == '$' && "SELECT EXISTS (\nSELECT 1\nFROM pg_class AS relations\nJOIN pg_namespace AS namespaces ON namespaces.oid = relations.relnamespace\nWHERE namespaces.nspname = $1\nAND relations.relname = $2\nAND relations.relkind = 'r'\n)"@[182] == '2',
{
    reveal_strlit("SELECT EXISTS (\nSELECT 1\nFROM pg_class AS relations\nJOIN pg_namespace AS namespaces ON namespaces.oid = relations.relnamespace\nWHERE namespaces.nspname = $1\nAND relations.relname = $2\nAND relations.relkind = 'r'\n)");
    reveal_with_fuel(count_of, 22);
    let text = "SELECT EXISTS (\nSELECT 1\nFROM pg_class AS relations\nJOIN pg_namespace AS namespaces ON namespaces.oid = relations.relnamespace\nWHERE namespaces.nspname = $1\nAND relations.relname = $2\nAND relations.relkind = 'r'\n)"@;
    assert(count_of(text, '$', 20) == 0);
    assert(count_of(text, '$', 40) == 0);
    assert(count_of(text, '$', 60) == 0);
    assert(count_of(text, '$', 80) == 0);
    assert(count_of(text, '$', 100) == 0);
    assert(count_of(text, '$', 120) == 0);
    assert(count_of(text, '$', 140) == 0);
    assert(count_of(text, '$', 160) == 1);
    assert(count_of(text, '$', 180) == 1);
    assert(count_of(text, '$', 200) == 2);
    assert(count_of(text, '$', 213) == 2);
}

proof fn lemma_table_dollars()
    ensures
        " (\nversion bigint PRIMARY KEY CHECK (version > 0),\nname text NOT NULL,\nchecksum text NOT NULL,\napplied_at timestamptz NOT NULL DEFAULT transaction_timestamp()\n)"@.len() == 160,
        dollars(" (\nversion bigint PRIMARY KEY CHECK (version > 0),\nname text NOT NULL,\nchecksum text NOT NULL,\napplied_at timestamptz NOT NULL DEFAULT transaction_timestamp()\n)"@) == 0,
{
    reveal_strlit(" (\nversion bigint PRIMARY KEY CHECK (version > 0),\nname text NOT NULL,\nchecksum text NOT NULL,\napplied_at timestamptz NOT NULL DEFAULT transaction_timestamp()\n)");
    reveal_with_fuel(count_of, 22);
    let text = " (\nversion bigint PRIMARY KEY CHECK (version > 0),\nname text NOT NULL,\nchecksum text NOT NULL,\napplied_at timestamptz NOT NULL DEFAULT transaction_timestamp()\n)"@;
    assert(count_of(text, '$', 20) == 0);
    assert(count_of(text, '$', 40) == 0);
    assert(count_of(text, '$', 60) == 0);
    assert(count_of(text, '$', 80) == 0);
    assert(count_of(text, '$', 100) == 0);
    assert(count_of(text, '$', 120) == 0);
    assert(count_of(text, '$', 140) == 0);
    assert(count_of(text, '$', 160) == 0);
}

/// A schema name is short plain text: neither a bracket nor a comma, a blank, a
/// quote or a dollar sign stands in it.
proof fn lemma_schema_name_is_plain(schema: Seq<char>)
    requires
        crate::plan::is_schema_name(schema),
    ensures
        lacks(schema, '('),
        lacks(schema, ')'),
        lacks(schema, ','),
        lacks(schema, '$'),
        lacks(schema, '"'),
{
}

proof fn lemma_lacks_adds(a: Seq<char>, b: Seq<char>, c: char)
    requires
        lacks(a, c),
        lacks(b, c),
    ensures
        lacks(a + b, c),
{
}

/// The identifier stands whole between two double quotes.
pub proof fn law_quoted_identifiers(identifier: Seq<char>)
    ensures
        quoted(identifier).len() == identifier.len() + 2,
        quoted(identifier)[0] as int == 34,
        quoted(identifier)[identifier.len() as int + 1] as int == 34,
        quoted(identifier).subrange(1, identifier.len() as int + 1) == identifier,
{
    reveal_strlit("\"");
    assert(quoted(identifier).subrange(1, identifier.len() as int + 1) =~= identifier);
}

/// A qualified table is the quoted schema, a dot and the quoted table. So two of
/// them are the same only where schema and table are, for schemas without a quote.
pub proof fn law_qualified_tables(
    schema: Seq<char>,
    table: Seq<char>,
    other_schema: Seq<char>,
    other_table: Seq<char>,
)
    ensures
        qualified(schema, table) == "\""@ + schema + "\""@ + "."@ + "\""@ + table + "\""@,
        lacks(schema, '"') && lacks(other_schema, '"') && qualified(schema, table) == qualified(
            other_schema,
            other_table,
        ) ==> schema == other_schema && table == other_table,
{
    reveal_strlit("\"");
    reveal_strlit(".");
    let text = qualified(schema, table);
    assert(text =~= "\""@ + schema + "\""@ + "."@ + "\""@ + table + "\""@);
    if lacks(schema, '"') && lacks(other_schema, '"') && text == qualified(
        other_schema,
        other_table,
    ) {
        let n = schema.len() as int;
        let m = other_schema.len() as int;
        let other = qualified(other_schema, other_table);
        assert(text[n + 1] == '"' && other[m + 1] == '"');
        if n < m {
            assert(other[n + 1] == other_schema[n]);
        }
        if m < n {
            assert(text[m + 1] == schema[m]);
        }
        assert(text.subrange(1, n + 1) =~= schema);
        assert(other.subrange(1, n + 1) =~= other_schema);
        assert(text.subrange(n + 4, text.len() - 1) =~= table);
        assert(other.subrange(n + 4, other.len() - 1) =~= other_table);
    }
}

/// What each statement on a schema says, word for word: only the name of the
/// schema varies, and it stands whole.
pub proof fn law_statement_texts(schema: Seq<char>)
    ensures
        read_ledger_text(schema) == "SELECT version, name, checksum FROM "@ + "\""@ + schema
            + "\""@ + "."@ + "\""@ + "_lenso_schema_migrations"@ + "\""@ + " ORDER BY version"@,
        create_schema_text(schema) == "CREATE SCHEMA "@ + "\""@ + schema + "\""@,
        create_ledger_text(schema) == "CREATE TABLE "@ + "\""@ + schema + "\""@ + "."@ + "\""@
            + "_lenso_schema_migrations"@ + "\""@
            + " (\nversion bigint PRIMARY KEY CHECK (version > 0),\nname text NOT NULL,\nchecksum text NOT NULL,\napplied_at timestamptz NOT NULL DEFAULT transaction_timestamp()\n)"@,
        select_schema_text(schema) == "SET LOCAL search_path TO "@ + "\""@ + schema + "\""@
            + ", pg_catalog"@,
        record_migration_text(schema) == "INSERT INTO "@ + "\""@ + schema + "\""@ + "."@ + "\""@
            + "_lenso_schema_migrations"@ + "\""@
            + " (version, name, checksum) VALUES ($1, $2, $3)"@,
        search_path_text(schema) == schema + ",pg_catalog"@,
{
    let table = "\""@ + schema + "\""@ + "."@ + "\""@ + "_lenso_schema_migrations"@ + "\""@;
    law_qualified_tables(schema, "_lenso_schema_migrations"@, schema, LEDGER_TABLE@);
    assert(qualified(schema, LEDGER_TABLE@) == table);
    assert(read_ledger_text(schema) =~= "SELECT version, name, checksum FROM "@ + "\""@ + schema
        + "\""@ + "."@ + "\""@ + "_lenso_schema_migrations"@ + "\""@ + " ORDER BY version"@);
    assert(create_schema_text(schema) =~= "CREATE SCHEMA "@ + "\""@ + schema + "\""@);
    assert(create_ledger_text(schema) =~= "CREATE TABLE "@ + "\""@ + schema + "\""@ + "."@ + "\""@
        + "_lenso_schema_migrations"@ + "\""@
        + " (\nversion bigint PRIMARY KEY CHECK (version > 0),\nname text NOT NULL,\nchecksum text NOT NULL,\napplied_at timestamptz NOT NULL DEFAULT transaction_timestamp()\n)"@);
    assert(select_schema_text(schema) =~= "SET LOCAL search_path TO "@ + "\""@ + schema + "\""@
        + ", pg_catalog"@);
    assert(record_migration_text(schema) =~= "INSERT INTO "@ + "\""@ + schema + "\""@ + "."@ + "\""@
        + "_lenso_schema_migrations"@ + "\""@
        + " (version, name, checksum) VALUES ($1, $2, $3)"@);
}

/// What each statement that names its schema by parameter says, word for word, and
/// the name of the ledger's table.
pub proof fn law_parameterised_texts()
    ensures
        LEDGER_TABLE@ == "_lenso_schema_migrations"@,
        LOCK_SCHEMA@
            == "SELECT pg_advisory_xact_lock(\nhashtextextended(current_database() || ':' || $1, 0)\n)"@,
        READ_OWNER@
            == "SELECT roles.rolname::text\nFROM pg_namespace AS namespaces\nJOIN pg_roles AS roles ON roles.oid = namespaces.nspowner\nWHERE namespaces.nspname = $1"@,
        READ_ROLE@ == "SELECT current_user::text"@,
        READ_LEDGER_PRESENCE@
            == "SELECT EXISTS (\nSELECT 1\nFROM pg_class AS relations\nJOIN pg_namespace AS namespaces ON namespaces.oid = relations.relnamespace\nWHERE namespaces.nspname = $1\nAND relations.relname = $2\nAND relations.relkind = 'r'\n)"@,
{
}

/// Each parameter of a statement has its placeholder, once, and no placeholder is
/// without its parameter: the lock and the owner take one, the presence of the
/// ledger two, a record three, and the other statements none.
pub proof fn law_placeholders(schema: Seq<char>)
    requires
        crate::plan::is_schema_name(schema),
    ensures
        dollars(LOCK_SCHEMA@) == 1 && holds_placeholder(LOCK_SCHEMA@, 1),
        dollars(READ_OWNER@) == 1 && holds_placeholder(READ_OWNER@, 1),
        dollars(READ_ROLE@) == 0,
        dollars(READ_LEDGER_PRESENCE@) == 2,
        holds_placeholder(READ_LEDGER_PRESENCE@, 1) && holds_placeholder(READ_LEDGER_PRESENCE@, 2),
        dollars(read_ledger_text(schema)) == 0,
        dollars(create_schema_text(schema)) == 0,
        dollars(create_ledger_text(schema)) == 0,
        dollars(select_schema_text(schema)) == 0,
        dollars(record_migration_text(schema)) == 3,
        forall|k: int|
            1 <= k <= 3 ==> #[trigger] holds_placeholder(record_migration_text(schema), k),
{
    lemma_schema_name_is_plain(schema);
    lemma_lock_dollars();
    lemma_owner_dollars();
    lemma_role_dollars();
    lemma_presence_dollars();
    lemma_table_dollars();
    let lock = LOCK_SCHEMA@;
    assert(lock[76] == '$' && lock[77] as int == 49);
    let owner = READ_OWNER@;
    assert(owner[144] == '$' && owner[145] as int == 49);
    let presence = READ_LEDGER_PRESENCE@;
    assert(presence[154] == '$' && presence[155] as int == 49);
    assert(presence[181] == '$' && presence[182] as int == 50);
    reveal_strlit("\"");
    reveal_strlit(".");
    reveal_strlit("_lenso_schema_migrations");
    reveal_strlit("SELECT version, name, checksum FROM ");
    reveal_strlit(" ORDER BY version");
    reveal_strlit("CREATE SCHEMA ");
    reveal_strlit("CREATE TABLE ");
    reveal_strlit("SET LOCAL search_path TO ");
    reveal_strlit(", pg_catalog");
    reveal_strlit("INSERT INTO ");
    let quote = "\""@;
    lemma_lacks_adds(quote, schema, '$');
    lemma_lacks_adds(quote + schema, quote, '$');
    lemma_lacks_adds(quote, LEDGER_TABLE@, '$');
    lemma_lacks_adds(quote + LEDGER_TABLE@, quote, '$');
    lemma_lacks_adds(quoted(schema), "."@, '$');
    let table = qualified(schema, LEDGER_TABLE@);
    lemma_lacks_adds(quoted(schema) + "."@, quoted(LEDGER_TABLE@), '$');
    lemma_no_dollars(quoted(schema), quoted(schema).len());
    lemma_no_dollars(table, table.len());
    lemma_plain_statement("SELECT version, name, checksum FROM "@, table, " ORDER BY version"@);
    lemma_no_dollars("CREATE SCHEMA "@, "CREATE SCHEMA "@.len());
    lemma_dollars_add("CREATE SCHEMA "@, quoted(schema));
    let rest =
        " (\nversion bigint PRIMARY KEY CHECK (version > 0),\nname text NOT NULL,\nchecksum text NOT NULL,\napplied_at timestamptz NOT NULL DEFAULT transaction_timestamp()\n)"@;
    lemma_no_dollars("CREATE TABLE "@, "CREATE TABLE "@.len());
    lemma_dollars_add("CREATE TABLE "@, table);
    lemma_dollars_add("CREATE TABLE "@ + table, rest);
    lemma_plain_statement("SET LOCAL search_path TO "@, quoted(schema), ", pg_catalog"@);
    let record = record_migration_text(schema);
    let tail = " (version, name, checksum) VALUES ($1, $2, $3)"@;
    lemma_no_dollars("INSERT INTO "@, "INSERT INTO "@.len());
    lemma_dollars_add("INSERT INTO "@, table);
    lemma_dollars_add("INSERT INTO "@ + table, tail);
    lemma_record_dollars();
    let n = ("INSERT INTO "@.len() + table.len()) as int;
    assert(record[n + 35] == tail[35] && record[n + 36] == tail[36]);
    assert(record[n + 39] == tail[39] && record[n + 40] == tail[40]);
    assert(record[n + 43] == tail[43] && record[n + 44] == tail[44]);
    assert(record[n + 35 + 1] as int == 48 + 1);
    assert(record[n + 39 + 1] as int == 48 + 2);
    assert(record[n + 43 + 1] as int == 48 + 3);
    assert forall|k: int| 1 <= k <= 3 implies #[trigger] holds_placeholder(record, k) by {
        let i = n + 31 + 4 * k;
        assert(record[i] == '$' && record[i + 1] as int == 48 + k);
    }
}

proof fn lemma_plain_statement(a: Seq<char>, b: Seq<char>, c: Seq<char>)
    requires
        lacks(a, '$'),
        lacks(b, '$'),
        lacks(c, '$'),
    ensures
        dollars(a + b + c) == 0,
{
    lemma_lacks_adds(a, b, '$');
    lemma_lacks_adds(a + b, c, '$');
    lemma_no_dollars(a + b + c, (a + b + c).len());
}

/// A record writes its first parameter to the version, its second to the name and
/// its third to the checksum: this is read off the column list and the value list
/// of the statement.
pub proof fn law_record_columns(schema: Seq<char>)
    requires
        crate::plan::is_schema_name(schema),
    ensures
        columns_of(record_migration_text(schema)) == "version, name, checksum"@,
        values_of(record_migration_text(schema)) == "$1, $2, $3"@,
        parameter_of(record_migration_text(schema), "version"@) == 1,
        parameter_of(record_migration_text(schema), "name"@) == 2,
        parameter_of(record_migration_text(schema), "checksum"@) == 3,
{
    lemma_schema_name_is_plain(schema);
    reveal_strlit(" (version, name, checksum) VALUES ($1, $2, $3)");
    reveal_strlit("version, name, checksum");
    reveal_strlit(" VALUES ");
    reveal_strlit("$1, $2, $3");
    reveal_strlit("INSERT INTO ");
    reveal_strlit("_lenso_schema_migrations");
    reveal_strlit("\"");
    reveal_strlit(".");
    reveal_strlit(" ");
    let sql = record_migration_text(schema);
    let columns = "version, name, checksum"@;
    let values = "$1, $2, $3"@;
    let none = Seq::<char>::empty();
    let tail = values + seq![')'] + none;
    let middle = " VALUES "@ + seq!['('] + tail;
    let inner = columns + seq![')'] + middle;
    let head = "INSERT INTO "@ + qualified(schema, LEDGER_TABLE@) + " "@;
    assert(" (version, name, checksum) VALUES ($1, $2, $3)"@ =~= " "@ + seq!['('] + inner);
    assert(sql =~= head + seq!['('] + inner);
    assert(lacks(head, '(') && lacks(head, ')'));
    lemma_cut(head, '(', inner);
    lemma_cut(columns, ')', middle);
    let opened = head + seq!['('] + columns;
    assert(lacks(opened, ')'));
    assert(sql =~= opened + seq![')'] + middle);
    lemma_cut(opened, ')', middle);
    lemma_cut(" VALUES "@, '(', tail);
    lemma_cut(values, ')', none);
    reveal_strlit("version");
    reveal_strlit("name");
    reveal_strlit("checksum");
    reveal_strlit("$1");
    reveal_strlit("$2");
    reveal_strlit("$3");
    assert(columns =~= "version"@ + seq![','] + (seq![' '] + ("name"@ + seq![','] + (seq![' ']
        + "checksum"@))));
    assert(values =~= "$1"@ + seq![','] + (seq![' '] + ("$2"@ + seq![','] + (seq![' '] + "$3"@))));
    lemma_three_items("version"@, "name"@, "checksum"@);
    lemma_three_items("$1"@, "$2"@, "$3"@);
    assert("version"@.len() != "name"@.len() && "version"@.len() != "checksum"@.len());
    assert("name"@.len() != "checksum"@.len());
}

proof fn lemma_record_dollars()
    ensures
        " (version, name, checksum) VALUES ($1, $2, $3)"@.len() == 46,
        dollars(" (version, name, checksum) VALUES ($1, $2, $3)"@) == 3,
        " (version, name, checksum) VALUES ($1, $2, $3)"@[35] == '$' && " (version, name, checksum) VALUES ($1, $2, $3)"@[36] == '1',
        " (version, name, checksum) VALUES ($1, $2, $3)"@[39] == '$' && " (version, name, checksum) VALUES ($1, $2, $3)"@[40] == '2',
        " (version, name, checksum) VALUES ($1, $2, $3)"@[43] == '$' && " (version, name, checksum) VALUES ($1, $2, $3)"@[44] == '3',
{
    reveal_strlit(" (version, name, checksum) VALUES ($1, $2, $3)");
    reveal_with_fuel(count_of, 22);
    let text = " (version, name, checksum) VALUES ($1, $2, $3)"@;
    assert(count_of(text, '$', 20) == 0);
    assert(count_of(text, '$', 40) == 2);
    assert(count_of(text, '$', 46) == 3);
}

proof fn lemma_three_items(a: Seq<char>, b: Seq<char>, c: Seq<char>)
    requires
        lacks(a, ','),
        lacks(b, ','),
        lacks(c, ','),
    ensures
        ({
            let list = a + seq![','] + (seq![' '] + (b + seq![','] + (seq![' '] + c)));
            &&& list_item(list, 0) == a
            &&& list_item(list, 1) == b
            &&& list_item(list, 2) == c
        }),
{
    let last = seq![' '] + c;
    let second = b + seq![','] + last;
    let rest = seq![' '] + second;
    lemma_cut(a, ',', rest);
    assert(rest.drop_first() =~= second);
    lemma_cut(b, ',', last);
    assert(last.drop_first() =~= c);
    lemma_cut_nothing(c, ',');
    reveal_with_fuel(list_item, 3);
}

/// What is recorded is what is read: the ledger is created, written and read under
/// one name, and the reader asks for exactly the columns that a record writes, in
/// the order of versions.
pub proof fn law_ledger_statements_agree(schema: Seq<char>)
    requires
        crate::plan::is_schema_name(schema),
    ensures
        read_ledger_text(schema) == "SELECT "@ + columns_of(record_migration_text(schema))
            + " FROM "@ + qualified(schema, "_lenso_schema_migrations"@) + " ORDER BY version"@,
        ("INSERT INTO "@ + qualified(schema, "_lenso_schema_migrations"@) + " ("@).is_prefix_of(
            record_migration_text(schema),
        ),
        ("CREATE TABLE "@ + qualified(schema, "_lenso_schema_migrations"@) + " ("@).is_prefix_of(
            create_ledger_text(schema),
        ),
{
    law_record_columns(schema);
    reveal_strlit("SELECT ");
    reveal_strlit("version, name, checksum");
    reveal_strlit(" FROM ");
    reveal_strlit("SELECT version, name, checksum FROM ");
    reveal_strlit(" (");
    reveal_strlit(" (version, name, checksum) VALUES ($1, $2, $3)");
    reveal_strlit(
        " (\nversion bigint PRIMARY KEY CHECK (version > 0),\nname text NOT NULL,\nchecksum text NOT NULL,\napplied_at timestamptz NOT NULL DEFAULT transaction_timestamp()\n)",
    );
    assert("SELECT version, name, checksum FROM "@ =~= "SELECT "@ + "version, name, checksum"@
        + " FROM "@);
    let insert = "INSERT INTO "@ + qualified(schema, LEDGER_TABLE@) + " ("@;
    assert(insert =~= record_migration_text(schema).subrange(0, insert.len() as int));
    let create = "CREATE TABLE "@ + qualified(schema, LEDGER_TABLE@) + " ("@;
    assert(create =~= create_ledger_text(schema).subrange(0, create.len() as int));
}

/// The search path of a runtime pool, cut at its first comma, is the schema, whole,
/// and after the comma comes only the catalog. So the pools of two schemas search
/// different paths.
pub proof fn law_search_path_leads_with_the_schema(schema: Seq<char>, other: Seq<char>)
    requires
        crate::plan::is_schema_name(schema),
        crate::plan::is_schema_name(other),
    ensures
        cut_before(search_path_text(schema), ',') == schema,
        cut_after(search_path_text(schema), ',') == "pg_catalog"@,
        search_path_text(schema) == search_path_text(other) <==> schema == other,
{
    lemma_schema_name_is_plain(schema);
    lemma_schema_name_is_plain(other);
    reveal_strlit(",pg_catalog");
    reveal_strlit("pg_catalog");
    let catalog = "pg_catalog"@;
    assert(search_path_text(schema) =~= schema + seq![','] + catalog);
    assert(search_path_text(other) =~= other + seq![','] + catalog);
    lemma_cut(schema, ',', catalog);
    lemma_cut(other, ',', catalog);
}

/// The search path that setup and upgrade select, from its first quote on: the
/// schema, whole, in quotes, then only the catalog.
pub proof fn law_selected_path_leads_with_the_schema(schema: Seq<char>)
    requires
        crate::plan::is_schema_name(schema),
    ensures
        cut_before(cut_after(select_schema_text(schema), '"'), '"') == schema,
        cut_after(cut_after(select_schema_text(schema), '"'), '"') == ", pg_catalog"@,
        cut_before(cut_after(create_schema_text(schema), '"'), '"') == schema,
        cut_after(cut_after(create_schema_text(schema), '"'), '"') == Seq::<char>::empty(),
{
    lemma_schema_name_is_plain(schema);
    reveal_strlit("\"");
    reveal_strlit("SET LOCAL search_path TO ");
    reveal_strlit("CREATE SCHEMA ");
    let none = Seq::<char>::empty();
    let rest = ", pg_catalog"@;
    let select = schema + seq!['"'] + rest;
    assert(select_schema_text(schema) =~= "SET LOCAL search_path TO "@ + seq!['"'] + select);
    lemma_cut("SET LOCAL search_path TO "@, '"', select);
    lemma_cut(schema, '"', rest);
    let create = schema + seq!['"'] + none;
    assert(create_schema_text(schema) =~= "CREATE SCHEMA "@ + seq!['"'] + create);
    lemma_cut("CREATE SCHEMA "@, '"', create);
    lemma_cut(schema, '"', none);
}

} // verus!
