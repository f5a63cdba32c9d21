use rwf::model::column::Column;
use rwf::model::insert::Insert;
use rwf::model::insert::Model;
use rwf::model::placeholders::Placeholders;
use rwf::model::value::Value;

struct User {
    id: i64,
    email: String,
}

impl Model for User {
    fn table_name() -> String {
        "users".to_string()
    }

    fn column_names() -> Vec<String> {
        vec!["id".to_string(), "email".to_string()]
    }

    fn values(&self) -> Vec<Value> {
        vec![Value::Integer(self.id), Value::String(self.email.clone())]
    }
}

fn sample_user() -> User {
    User { id: 1, email: "test@test.com".to_string() }
}

#[test]
fn test_insert_plain() {
    let insert = Insert::new(sample_user());
    assert_eq!(
        insert.to_sql(),
        r#"INSERT INTO "users" ("id", "email") VALUES ($1, $2) RETURNING *"#
    );
    assert_eq!(insert.placeholders.len(), 2);
}

#[test]
fn test_insert_no_conflict() {
    let sql = Insert::new(sample_user()).no_conflict().to_sql();
    assert_eq!(
        sql,
        r#"INSERT INTO "users" ("id", "email") VALUES ($1, $2) ON CONFLICT DO NOTHING RETURNING *"#
    );
    assert!(!sql.contains("DO UPDATE"));
}

#[test]
fn test_insert_unique_by() {
    let sql = Insert::new(sample_user()).unique_by(&[Column::name("email")]).to_sql();
    assert_eq!(
        sql,
        r#"INSERT INTO "users" ("id", "email") VALUES ($1, $2) ON CONFLICT ("email") DO UPDATE SET "email" = EXCLUDED."email" RETURNING *"#
    );
    assert!(!sql.contains("DO NOTHING"));
}

#[test]
fn test_insert_unique_by_unqualifies() {
    let sql = Insert::new(sample_user())
        .unique_by(&[Column::new("users", "email"), Column::new("users", "id")])
        .to_sql();
    assert_eq!(
        sql,
        r#"INSERT INTO "users" ("id", "email") VALUES ($1, $2) ON CONFLICT ("email", "id") DO UPDATE SET "email" = EXCLUDED."email", "id" = EXCLUDED."id" RETURNING *"#
    );
}

#[test]
fn test_insert_from_columns_unqualifies() {
    let insert = Insert::<User>::from_columns(
        &[Column::new("users", "id"), Column::new("users", "email")],
        &[Value::Integer(5), Value::String("a@b.c".to_string())],
    );
    assert_eq!(
        insert.to_sql(),
        r#"INSERT INTO "users" ("id", "email") VALUES ($1, $2) RETURNING *"#
    );
}

#[test]
fn test_insert_marker_order() {
    let insert = Insert::<User>::from_parts(
        "rows",
        &vec!["a".to_string(), "b".to_string(), "c".to_string()],
        &vec![Value::Integer(1), Value::Integer(2), Value::Integer(3)],
    );
    assert_eq!(
        insert.to_sql(),
        r#"INSERT INTO "rows" ("a", "b", "c") VALUES ($1, $2, $3) RETURNING *"#
    );
}

#[test]
fn test_placeholders_registry() {
    let mut p = Placeholders::new();
    assert_eq!(p.len(), 0);
    p.add(&Value::Integer(7));
    p.add(&Value::String("x".to_string()));
    assert_eq!(p.len(), 2);
    assert_eq!(p.get(0).to_sql(), "7");
    assert_eq!(p.get(1).to_sql(), "'x'");
}
