use lenso_postgres_kit::{Migration, SchemaPlan};

const MIGRATIONS: &[Migration] = &[
    Migration {
        version: 1,
        name: "create-orders",
        sql: "CREATE TABLE orders (id bigint PRIMARY KEY);\n",
    },
    Migration {
        version: 2,
        name: "add-order-status",
        sql: "ALTER TABLE orders ADD COLUMN status text;\n",
    },
];

#[test]
fn sql_files_form_one_immutable_schema_plan() {
    let plan = SchemaPlan::new("orders_module", MIGRATIONS).unwrap();
    assert_eq!(plan.current_version(), 2);
    assert!(MIGRATIONS[0].sql().contains("CREATE TABLE orders"));
    assert!(MIGRATIONS[1].sql().contains("ADD COLUMN status"));
}
