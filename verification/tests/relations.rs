use rok_orm::relations::many_to_many::{sync_plan, toggle_plan};
use rok_orm::{
    HasMany, HasManyEager, HasOneThrough, ManyToMany, Model, MorphMany, MorphOne, MorphToMany, MorphToRef,
    MorphedByMany, PivotRow, SqlValue,
};
use rok_orm::relations::eager::{EagerRelation, HasManyThroughEager};

struct User;
impl Model for User {
    fn table_name() -> &'static str { "users" }
    fn columns() -> &'static [&'static str] { &["id", "name"] }
}

struct Post;
impl Model for Post {
    fn table_name() -> &'static str { "posts" }
    fn columns() -> &'static [&'static str] { &["id", "user_id", "title"] }
}

struct Image;
impl Model for Image {
    fn table_name() -> &'static str { "images" }
    fn columns() -> &'static [&'static str] { &["id", "imageable_type", "imageable_id", "url"] }
}

struct Tag;
impl Model for Tag {
    fn table_name() -> &'static str { "tags" }
    fn columns() -> &'static [&'static str] { &["id", "name"] }
}

struct Role;
impl Model for Role {
    fn table_name() -> &'static str { "roles" }
    fn columns() -> &'static [&'static str] { &["id", "name"] }
}

struct Mechanic;
impl Model for Mechanic {
    fn table_name() -> &'static str { "mechanics" }
    fn columns() -> &'static [&'static str] { &["id", "name"] }
}

struct Car;
impl Model for Car {
    fn table_name() -> &'static str { "cars" }
    fn columns() -> &'static [&'static str] { &["id", "mechanic_id"] }
}

struct CarOwner;
impl Model for CarOwner {
    fn table_name() -> &'static str { "car_owners" }
    fn columns() -> &'static [&'static str] { &["id", "car_id", "name"] }
}

fn posts_rel() -> HasMany<User, Post> {
    HasMany::new("users", "id", "posts", "id", "user_id".to_string())
}

fn through_rel() -> HasOneThrough<Mechanic, Car, CarOwner> {
    HasOneThrough::new("cars", "id", "mechanic_id", "car_id", "car_owners")
}

fn roles_rel() -> ManyToMany<User, Role> {
    ManyToMany::new("user_roles", "user_id", "role_id", "roles", "id")
}

// ── has many ─────────────────────────────────────────────────────────────────

#[test]
fn create_sql_prepends_fk() {
    let rel = posts_rel();
    let (sql, params) = rel.create_sql(
        SqlValue::Integer(1),
        &[("title", SqlValue::Text("Hello".into()))],
    );
    assert!(sql.contains("INSERT INTO posts"), "sql: {sql}");
    assert!(sql.contains("user_id"), "sql: {sql}");
    assert_eq!(params[0], SqlValue::Integer(1));
}

#[test]
fn associate_sql_updates_fk() {
    let rel = posts_rel();
    let (sql, _) = rel.associate_sql(SqlValue::Integer(5), SqlValue::Integer(1));
    assert!(sql.contains("UPDATE posts SET user_id"));
    assert!(sql.contains("WHERE id"));
}

#[test]
fn dissociate_sql_sets_null() {
    let rel = posts_rel();
    let (sql, params) = rel.dissociate_sql(SqlValue::Integer(5));
    assert!(sql.contains("SET user_id = NULL"));
    assert_eq!(params[0], SqlValue::Integer(5));
}

#[test]
fn save_sql_inserts_when_no_pk() {
    let rel = posts_rel();
    let (sql, params) = rel.save_sql(
        SqlValue::Integer(1),
        None,
        &[("title", SqlValue::Text("New Post".into()))],
    );
    assert!(sql.starts_with("INSERT INTO posts"), "sql: {sql}");
    assert!(sql.contains("user_id"), "sql: {sql}");
    assert_eq!(params[0], SqlValue::Integer(1));
}

#[test]
fn save_sql_updates_when_pk_given() {
    let rel = posts_rel();
    let (sql, params) = rel.save_sql(
        SqlValue::Integer(1),
        Some(SqlValue::Integer(42)),
        &[("title", SqlValue::Text("Updated".into()))],
    );
    assert!(sql.starts_with("UPDATE posts"), "sql: {sql}");
    assert!(sql.contains("WHERE id = $"), "sql: {sql}");
    assert_eq!(*params.last().unwrap(), SqlValue::Integer(42));
}

#[test]
fn create_many_sql_injects_fk_in_each_row() {
    let rel = posts_rel();
    let row1: &[(&str, SqlValue)] = &[("title", SqlValue::Text("Post 1".into()))];
    let row2: &[(&str, SqlValue)] = &[("title", SqlValue::Text("Post 2".into()))];
    let (sql, params) = rel.create_many_sql(SqlValue::Integer(7), &[row1, row2]);
    assert!(sql.starts_with("INSERT INTO posts"));
    assert!(sql.contains("user_id"));
    assert_eq!(params.len(), 4);
    assert_eq!(params[0], SqlValue::Integer(7));
    assert_eq!(params[2], SqlValue::Integer(7));
}

#[test]
fn has_many_statements_exact() {
    let rel = posts_rel();
    let (sql, _) = rel.create_sql(SqlValue::Integer(1), &[("title", SqlValue::Text("Hi".into()))]);
    assert_eq!(sql, "INSERT INTO posts (user_id, title) VALUES ($1, $2)");
    let (sql, params) = rel.associate_sql(SqlValue::Integer(5), SqlValue::Integer(1));
    assert_eq!(sql, "UPDATE posts SET user_id = $1 WHERE id = $2");
    assert_eq!(params, vec![SqlValue::Integer(1), SqlValue::Integer(5)]);
    let (sql, _) = rel.save_sql(SqlValue::Integer(1), Some(SqlValue::Integer(9)), &[("title", SqlValue::Text("T".into()))]);
    assert_eq!(sql, "UPDATE posts SET user_id = $1, title = $2 WHERE id = $3");
    let (sql, _) = rel.create_many_sql(SqlValue::Integer(7), &[&[("a", SqlValue::Integer(1))], &[("a", SqlValue::Integer(2))]]);
    assert_eq!(sql, "INSERT INTO posts (user_id, a) VALUES ($1, $2), ($3, $4)");
    let (sql, params) = rel.query_for(SqlValue::Integer(3)).to_sql();
    assert_eq!(sql, "SELECT * FROM posts WHERE user_id = $1");
    assert_eq!(params, vec![SqlValue::Integer(3)]);
}

// ── has one through ──────────────────────────────────────────────────────────

#[test]
fn query_for_generates_inner_join_and_limit_1() {
    let (sql, params) = through_rel().query_for(SqlValue::Integer(1)).to_sql();
    assert!(sql.contains("FROM car_owners"), "sql: {sql}");
    assert!(sql.contains("INNER JOIN cars"), "sql: {sql}");
    assert!(sql.contains("cars.mechanic_id = $1"), "sql: {sql}");
    assert!(sql.contains("LIMIT 1"), "sql: {sql}");
    assert_eq!(params[0], SqlValue::Integer(1));
}

#[test]
fn query_for_none_id_still_generates_valid_sql() {
    let (sql, _) = through_rel().query_for(SqlValue::Integer(42)).to_sql();
    assert!(sql.contains("car_owners.car_id"), "join condition: {sql}");
}

#[test]
fn accessors_return_expected_values() {
    let r = through_rel();
    assert_eq!(r.through_table(), "cars");
    assert_eq!(r.first_key(), "mechanic_id");
    assert_eq!(r.second_key(), "car_id");
    assert_eq!(r.child_table(), "car_owners");
}

// ── many to many ─────────────────────────────────────────────────────────────

#[test]
fn query_for_generates_inner_join() {
    let (sql, params) = roles_rel().query_for(SqlValue::Integer(1)).to_sql();
    assert!(sql.contains("INNER JOIN user_roles"), "sql: {sql}");
    assert!(sql.contains("user_roles.user_id = $1"), "sql: {sql}");
    assert_eq!(params.len(), 1);
    assert_eq!(params[0], SqlValue::Integer(1));
}

#[test]
fn attach_sql_inserts_pivot_row() {
    let (sql, params) = roles_rel().attach_sql(SqlValue::Integer(1), SqlValue::Integer(5));
    assert!(sql.contains("INSERT INTO user_roles"), "sql: {sql}");
    assert!(sql.contains("user_id"), "sql: {sql}");
    assert!(sql.contains("role_id"), "sql: {sql}");
    assert_eq!(params[0], SqlValue::Integer(1));
    assert_eq!(params[1], SqlValue::Integer(5));
}

#[test]
fn attach_with_pivot_sql_includes_extra_cols() {
    let (sql, params) = roles_rel().attach_with_pivot_sql(
        SqlValue::Integer(1),
        SqlValue::Integer(5),
        &[("assigned_at", SqlValue::Text("2026-01-01".into()))],
    );
    assert!(sql.contains("assigned_at"), "sql: {sql}");
    assert_eq!(params.len(), 3);
}

#[test]
fn detach_sql_deletes_pivot_row() {
    let (sql, params) = roles_rel().detach_sql(SqlValue::Integer(1), SqlValue::Integer(5));
    assert!(sql.starts_with("DELETE FROM user_roles"), "sql: {sql}");
    assert!(sql.contains("user_id = $1"), "sql: {sql}");
    assert!(sql.contains("role_id = $2"), "sql: {sql}");
    assert_eq!(params[0], SqlValue::Integer(1));
    assert_eq!(params[1], SqlValue::Integer(5));
}

#[test]
fn detach_all_sql_deletes_all_for_parent() {
    let (sql, params) = roles_rel().detach_all_sql(SqlValue::Integer(7));
    assert!(sql.starts_with("DELETE FROM user_roles"), "sql: {sql}");
    assert!(sql.contains("user_id = $1"), "sql: {sql}");
    assert!(!sql.contains("role_id"), "sql: {sql}");
    assert_eq!(params[0], SqlValue::Integer(7));
}

#[test]
fn current_ids_sql_selects_right_key() {
    let (sql, params) = roles_rel().current_ids_sql(SqlValue::Integer(3));
    assert!(sql.contains("SELECT role_id FROM user_roles"), "sql: {sql}");
    assert!(sql.contains("user_id = $1"), "sql: {sql}");
    assert_eq!(params[0], SqlValue::Integer(3));
}

#[test]
fn update_pivot_sql_sets_cols() {
    let (sql, params) = roles_rel().update_pivot_sql(
        SqlValue::Integer(1),
        SqlValue::Integer(2),
        &[("expires_at", SqlValue::Text("2027-01-01".into()))],
    );
    assert!(sql.starts_with("UPDATE user_roles SET"), "sql: {sql}");
    assert!(sql.contains("expires_at = $1"), "sql: {sql}");
    assert!(sql.contains("user_id = $2"), "sql: {sql}");
    assert!(sql.contains("role_id = $3"), "sql: {sql}");
    assert_eq!(params.len(), 3);
}

#[test]
fn with_pivot_includes_extra_cols_in_select() {
    let (sql, _) = roles_rel()
        .with_pivot(&["assigned_at", "expires_at"])
        .query_for(SqlValue::Integer(1))
        .to_sql();
    assert!(sql.contains("user_roles.assigned_at"), "sql: {sql}");
    assert!(sql.contains("user_roles.expires_at"), "sql: {sql}");
}

#[test]
fn sync_plan_attaches_missing_and_detaches_extra() {
    let (attach, detach) = sync_plan(&[1, 2, 3], &[3, 4, 1, 5]);
    assert_eq!(attach, vec![4, 5]);
    assert_eq!(detach, vec![2]);
    let (attach, detach) = sync_plan(&[], &[]);
    assert!(attach.is_empty() && detach.is_empty());
}

#[test]
fn toggle_plan_flips_each_id() {
    let steps = toggle_plan(&[1, 2], &[2, 3]);
    assert_eq!(steps, vec![(2, false), (3, true)]);
}

// ── polymorphic ──────────────────────────────────────────────────────────────

#[test]
fn morph_one_query_filters_type_and_id() {
    let rel: MorphOne<User, Image> = MorphOne::new("images", "imageable", "users");
    let (sql, params) = rel.query_for(SqlValue::Integer(5)).to_sql();
    assert!(sql.contains("FROM images"), "sql: {sql}");
    assert!(sql.contains("imageable_type = $1"), "sql: {sql}");
    assert!(sql.contains("imageable_id = $2"), "sql: {sql}");
    assert!(sql.contains("LIMIT 1"), "sql: {sql}");
    assert_eq!(params[0], SqlValue::Text("users".into()));
    assert_eq!(params[1], SqlValue::Integer(5));
}

#[test]
fn morph_many_query_filters_type_and_id_no_limit() {
    let rel: MorphMany<Post, Image> = MorphMany::new("images", "imageable", "posts");
    let (sql, params) = rel.query_for(SqlValue::Integer(3)).to_sql();
    assert!(sql.contains("FROM images"), "sql: {sql}");
    assert!(sql.contains("imageable_type = $1"), "sql: {sql}");
    assert!(sql.contains("imageable_id = $2"), "sql: {sql}");
    assert!(!sql.contains("LIMIT"), "sql should not have LIMIT: {sql}");
    assert_eq!(params[0], SqlValue::Text("posts".into()));
    assert_eq!(params[1], SqlValue::Integer(3));
}

#[test]
fn morph_to_ref_columns() {
    let r = MorphToRef::new("imageable");
    assert_eq!(r.type_col(), "imageable_type");
    assert_eq!(r.id_col(), "imageable_id");
}

#[test]
fn morph_to_many_query_joins_pivot() {
    let rel: MorphToMany<Post, Tag> = MorphToMany::new("taggables", "taggable", "posts", "tag_id", "tags", "id");
    let (sql, params) = rel.query_for(SqlValue::Integer(1)).to_sql();
    assert!(sql.contains("INNER JOIN taggables"), "sql: {sql}");
    assert!(sql.contains("taggable_type"), "sql: {sql}");
    assert_eq!(params[0], SqlValue::Text("posts".into()));
}

#[test]
fn morph_to_many_attach_sql() {
    let rel: MorphToMany<Post, Tag> = MorphToMany::new("taggables", "taggable", "posts", "tag_id", "tags", "id");
    let (sql, params) = rel.attach_sql(SqlValue::Integer(1), SqlValue::Integer(5));
    assert!(sql.contains("INSERT INTO taggables"), "sql: {sql}");
    assert_eq!(params[0], SqlValue::Text("posts".into()));
}

#[test]
fn morph_to_many_detach_sql() {
    let rel: MorphToMany<Post, Tag> = MorphToMany::new("taggables", "taggable", "posts", "tag_id", "tags", "id");
    let (sql, params) = rel.detach_sql(SqlValue::Integer(1), SqlValue::Integer(5));
    assert!(sql.contains("DELETE FROM taggables"), "sql: {sql}");
    assert_eq!(params[0], SqlValue::Text("posts".into()));
}

#[test]
fn morphed_by_many_query_joins_pivot() {
    let rel: MorphedByMany<Tag, Post> = MorphedByMany::new("taggables", "taggable", "posts", "tag_id", "posts", "id");
    let (sql, _) = rel.query_for(SqlValue::Integer(2)).to_sql();
    assert!(sql.contains("INNER JOIN taggables"), "sql: {sql}");
}

#[test]
fn morph_statements_exact() {
    let rel: MorphToMany<Post, Tag> = MorphToMany::new("taggables", "taggable", "posts", "tag_id", "tags", "id");
    let (sql, _) = rel.attach_sql(SqlValue::Integer(1), SqlValue::Integer(5));
    assert_eq!(sql, "INSERT INTO taggables (taggable_type, taggable_id, tag_id) VALUES ($1, $2, $3)");
    let (sql, _) = rel.sync_current_ids_sql(SqlValue::Integer(1));
    assert_eq!(sql, "SELECT tag_id FROM taggables WHERE taggable_type = $1 AND taggable_id = $2");
    let by: MorphedByMany<Tag, Post> = MorphedByMany::new("taggables", "taggable", "posts", "tag_id", "posts", "id");
    let (sql, _) = by.query_for(SqlValue::Integer(2)).to_sql();
    assert_eq!(
        sql,
        "SELECT * FROM posts INNER JOIN taggables ON posts.id = taggables.taggable_id AND taggables.taggable_type = 'posts' WHERE taggables.tag_id = $1"
    );
    let many: MorphMany<Post, Image> = MorphMany::new("images", "imageable", "posts");
    let (sql, params) = many.create_sql(SqlValue::Integer(3), &[("url", SqlValue::Text("a.png".into()))]);
    assert_eq!(sql, "INSERT INTO images (imageable_type, imageable_id, url) VALUES ($1, $2, $3)");
    assert_eq!(params[0], SqlValue::Text("posts".into()));
    assert_eq!(params[1], SqlValue::Integer(3));
}

// ── the typed parent enum that morph maps declare ────────────────────────────

#[derive(Debug)]
struct Alpha;

#[derive(Debug)]
enum TestMorphParent {
    Alpha(Alpha),
    Unknown(String, i64),
}

#[test]
fn unknown_variant_is_constructable() {
    let p = TestMorphParent::Unknown("betas".to_string(), 99);
    match p {
        TestMorphParent::Unknown(t, id) => {
            assert_eq!(t, "betas");
            assert_eq!(id, 99);
        }
        _ => panic!("expected Unknown"),
    }
}

#[test]
fn alpha_variant_wraps_struct() {
    let a = Alpha;
    let p = TestMorphParent::Alpha(a);
    assert!(matches!(p, TestMorphParent::Alpha(_)));
}

// ── pivot rows ───────────────────────────────────────────────────────────────

#[derive(Debug)]
struct RoleRow {
    pub id: i64,
    pub name: String,
}

#[test]
fn pivot_row_deref_to_model() {
    let pivot_data = vec![("assigned_at".to_string(), SqlValue::Text("2026-01-01".into()))];
    let row = PivotRow::new(RoleRow { id: 1, name: "admin".into() }, pivot_data);
    assert_eq!(row.id, 1);
    assert_eq!(row.name, "admin");
}

#[test]
fn pivot_column_access() {
    let data = vec![("weight".to_string(), SqlValue::Integer(5))];
    let row = PivotRow::new(RoleRow { id: 2, name: "mod".into() }, data);
    assert_eq!(row.pivot("weight"), Some(&SqlValue::Integer(5)));
    assert_eq!(row.pivot("missing"), None);
    assert!(row.has_pivot("weight"));
    assert!(!row.has_pivot("missing"));
}

#[test]
fn pivot_later_pair_overrides() {
    let data = vec![
        ("w".to_string(), SqlValue::Integer(1)),
        ("w".to_string(), SqlValue::Integer(2)),
    ];
    let row = PivotRow::new(RoleRow { id: 3, name: "x".into() }, data);
    assert_eq!(row.pivot("w"), Some(&SqlValue::Integer(2)));
}

// ── eager loading ────────────────────────────────────────────────────────────

#[test]
fn eager_batch_queries() {
    let e: HasManyEager<User> = HasManyEager::new("posts", "user_id".to_string(), "id");
    let (sql, params) = e.build_query::<Post>(&[SqlValue::Integer(1), SqlValue::Integer(2)]).to_sql();
    assert_eq!(sql, "SELECT * FROM posts WHERE user_id IN ($1, $2)");
    assert_eq!(params.len(), 2);
    let (sql, params) = e.build_query::<Post>(&[]).to_sql();
    assert_eq!(sql, "SELECT * FROM posts LIMIT 0");
    assert!(params.is_empty());
    let t: HasManyThroughEager<Mechanic> = HasManyThroughEager::new("cars", "id", "mechanic_id", "car_id", "car_owners");
    let (sql, _) = t.build_query::<CarOwner>(&[SqlValue::Integer(4)]).to_sql();
    assert_eq!(
        sql,
        "SELECT * FROM car_owners INNER JOIN cars ON cars.id = car_owners.car_id WHERE cars.mechanic_id IN ($1)"
    );
    let r = EagerRelation::HasManyThrough(t);
    assert_eq!(r.relation_name(), "has_many_through");
}
