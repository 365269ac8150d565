use rok_orm::{CountOp, QueryBuilder};

#[test]
fn when_applies_when_true() {
    let (sql, _) = QueryBuilder::<()>::new("users")
        .when(true, |q| q.where_eq("active", true))
        .to_sql();
    assert!(sql.contains("WHERE active"));
}

#[test]
fn when_skips_when_false() {
    let (sql, _) = QueryBuilder::<()>::new("users")
        .when(false, |q| q.where_eq("active", true))
        .to_sql();
    assert!(!sql.contains("WHERE"));
}

#[test]
fn when_else_branches() {
    let (sql_admin, _) = QueryBuilder::<()>::new("u")
        .when_else(true, |q| q, |q| q.where_eq("active", true))
        .to_sql();
    assert!(!sql_admin.contains("WHERE"));

    let (sql_user, _) = QueryBuilder::<()>::new("u")
        .when_else(false, |q| q, |q| q.where_eq("active", true))
        .to_sql();
    assert!(sql_user.contains("WHERE active"));
}

#[test]
fn select_raw_overrides_star() {
    let (sql, _) = QueryBuilder::<()>::new("orders")
        .select_raw("id, SUM(amount) as total")
        .to_sql();
    assert!(sql.contains("SELECT id, SUM(amount) as total"));
}

#[test]
fn tap_does_not_modify() {
    let mut captured = String::new();
    let (sql, _) = QueryBuilder::<()>::new("users")
        .where_eq("id", 1i64)
        .tap(|q| captured = q.to_sql().0.clone())
        .limit(5)
        .to_sql();
    assert!(captured.contains("WHERE id"));
    assert!(sql.contains("LIMIT 5"));
}

#[test]
fn where_has_raw_generates_exists() {
    let (sql, _) = QueryBuilder::<()>::new("users")
        .where_has_raw("SELECT 1 FROM posts WHERE posts.user_id = users.id")
        .to_sql();
    assert!(sql.contains("EXISTS (SELECT 1 FROM posts WHERE posts.user_id = users.id)"));
}

#[test]
fn where_doesnt_have_raw_generates_not_exists() {
    let (sql, _) = QueryBuilder::<()>::new("users")
        .where_doesnt_have_raw("SELECT 1 FROM posts WHERE posts.user_id = users.id")
        .to_sql();
    assert!(sql.contains("NOT EXISTS"));
}

#[test]
fn where_has_count_greater_than() {
    let (sql, _) = QueryBuilder::<()>::new("users")
        .where_has_count("comments", "user_id", "id", 5, CountOp::GreaterThan)
        .to_sql();
    assert!(sql.contains("SELECT COUNT(*) FROM comments WHERE comments.user_id = users.id"));
    assert!(sql.contains("> 5"));
}

#[test]
fn where_has_count_less_than_or_equal() {
    let (sql, _) = QueryBuilder::<()>::new("posts")
        .where_has_count("likes", "post_id", "id", 100, CountOp::LessThanOrEqual)
        .to_sql();
    assert!(sql.contains("<= 100"));
}

#[test]
fn with_count_col_injects_subquery() {
    let (sql, _) = QueryBuilder::<()>::new("users")
        .with_count_col("posts", "user_id", "id", "posts_count")
        .to_sql();
    assert!(sql.contains("SELECT COUNT(*) FROM posts WHERE posts.user_id = users.id"), "sql: {sql}");
    assert!(sql.contains("posts_count"), "sql: {sql}");
}

#[test]
fn with_sum_col_injects_subquery() {
    let (sql, _) = QueryBuilder::<()>::new("users")
        .with_sum_col("orders", "user_id", "id", "amount", "total_spent")
        .to_sql();
    assert!(sql.contains("SELECT SUM(amount) FROM orders"), "sql: {sql}");
    assert!(sql.contains("total_spent"), "sql: {sql}");
}

#[test]
fn multiple_agg_cols_combined() {
    let (sql, _) = QueryBuilder::<()>::new("authors")
        .with_count_col("books", "author_id", "id", "book_count")
        .with_avg_col("books", "author_id", "id", "rating", "avg_rating")
        .to_sql();
    assert!(sql.contains("book_count"), "sql: {sql}");
    assert!(sql.contains("avg_rating"), "sql: {sql}");
}
