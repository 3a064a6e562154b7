# lenso-postgres-kit

`lenso-postgres-kit` gives a stateful Lenso Module an explicit lifecycle for its
own PostgreSQL schema: setup, upgrade and runtime preparation, each fail-closed.

- `src/` is the library, verified with Verus. A `Session` decides what to ask of
  the database next and what each reply means, and a preparation that ends well
  hands out the `Verification` that exposes a pool; `plan` validates schema plans,
  `history` holds the migration ledger against the plan, `statements` composes
  the SQL, and `laws` states what holds of whole runs.
- `app/` is ordinary Rust around it: it opens SQLx pools, carries out what a
  session asks for, and gives the errors `std::error::Error`.
- `tests/` runs the library, the sessions against an in-memory stand-in for the
  database.

## Author one owned schema

Migrations are declared in a constant, in order, and never edited once applied:

```rust
const MIGRATIONS: &[Migration] = &[
    Migration { version: 1, name: "create-orders", sql: "CREATE TABLE orders (id bigint)" },
    Migration { version: 2, name: "add-order-status", sql: "ALTER TABLE orders ADD COLUMN status text" },
];

async fn example(database_url: &str) -> Result<(), Box<dyn std::error::Error>> {
    let plan = schema_plan("orders_module", MIGRATIONS)?;

    // An operator runs this explicitly during installation or deployment.
    SchemaOperator::connect(database_url, plan.clone()).await?.setup().await?;

    // Module preparation only verifies the exact schema and then exposes its pool.
    let postgres = OwnedPostgres::prepare(database_url, plan).await?;
    let count: i64 = sqlx::query_scalar("SELECT count(*) FROM orders")
        .fetch_one(postgres.pool())
        .await?;
    Ok(())
}
```

`schema_plan` is `SchemaPlan::new` with an error that can be boxed.

`sql_migrations!` declares the same list with each SQL body in a file of its own.

## Isolation contract

`search_path` provides convenient unqualified queries; it is not a security
boundary. Give each Module a dedicated non-superuser PostgreSQL role that owns
only its schema. The kit verifies that the current role owns the selected schema.
