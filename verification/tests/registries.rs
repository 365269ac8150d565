use rok_orm::casting::{decrypt, encrypt, set_encryptor, Encryptor};
use rok_orm::migration::{pending_migrations, rollback_batches, status_rows};
use rok_orm::{
    ConnectionRegistry, HookError, HookExecutor, HookType, ModelHooks, ModelObserver, ObserverEvent,
    ObserverRegistry, QueryBuilder, ScopeRegistry, SqlValue, WithExtras,
};
use rok_orm::global_scope::GlobalScope;
use rok_orm::Model;
use std::cell::RefCell;

struct Rot13;
impl Encryptor for Rot13 {
    fn encrypt(&self, plaintext: &str) -> String {
        plaintext
            .chars()
            .map(|c| match c {
                'a'..='m' | 'A'..='M' => (c as u8 + 13) as char,
                'n'..='z' | 'N'..='Z' => (c as u8 - 13) as char,
                _ => c,
            })
            .collect()
    }
    fn decrypt(&self, ciphertext: &str) -> Result<String, String> {
        Ok(self.encrypt(ciphertext))
    }
}

enum Either {
    Rot,
    Upper,
}
impl Encryptor for Either {
    fn encrypt(&self, plaintext: &str) -> String {
        match self {
            Either::Rot => Rot13.encrypt(plaintext),
            Either::Upper => plaintext.to_uppercase(),
        }
    }
    fn decrypt(&self, ciphertext: &str) -> Result<String, String> {
        match self {
            Either::Rot => Rot13.decrypt(ciphertext),
            Either::Upper => Ok(ciphertext.to_lowercase()),
        }
    }
}

#[test]
fn encryptor_trait_works() {
    let e = Rot13;
    let cipher = e.encrypt("hello");
    assert_eq!(cipher, "uryyb");
    let plain = e.decrypt(&cipher).unwrap();
    assert_eq!(plain, "hello");
}

#[test]
fn encrypt_without_registration_returns_plaintext() {
    let slot: Option<Rot13> = None;
    assert_eq!(encrypt(&slot, "test"), "test");
}

#[test]
fn registered_encryptor_is_used_and_first_wins() {
    let mut slot: Option<Either> = None;
    assert_eq!(
        decrypt(&slot, "x"),
        Err("No encryptor registered — call set_encryptor() first".to_string())
    );
    set_encryptor(&mut slot, Either::Rot);
    set_encryptor(&mut slot, Either::Upper);
    assert_eq!(encrypt(&slot, "hello"), "uryyb");
    assert_eq!(decrypt(&slot, "uryyb"), Ok("hello".to_string()));
}

#[test]
fn connection_registry_struct_exists() {
    let _ = std::mem::size_of::<ConnectionRegistry<u8>>();
}

#[test]
fn connection_registry_get_after_register() {
    let mut reg: ConnectionRegistry<u32> = ConnectionRegistry::new();
    assert_eq!(reg.get("default"), None);
    reg.register("default", 1);
    reg.register("audit_db", 2);
    reg.register("default", 3);
    assert_eq!(reg.get("default"), Some(&3));
    assert_eq!(reg.get("audit_db"), Some(&2));
    assert_eq!(reg.get("other"), None);
}

#[test]
fn remove_scope_unregisters_it() {
    let mut reg: ScopeRegistry<&str> = ScopeRegistry::new();
    reg.add_scope(1, 10, "active");
    reg.add_scope(1, 20, "not_deleted");
    reg.add_scope(2, 20, "other_model");
    reg.remove_scope(1, 20);
    assert_eq!(reg.scopes_to_apply(1, &[]), vec![0]);
    assert_eq!(reg.scopes_to_apply(2, &[]), vec![1]);
}

#[test]
fn scopes_apply_in_order_and_skip_excluded() {
    let mut reg: ScopeRegistry<&str> = ScopeRegistry::new();
    reg.add_scope(1, 10, "active = TRUE");
    reg.add_scope(1, 20, "deleted = FALSE");
    let mut q = QueryBuilder::<()>::new("scope_tests").without_global_scope(10);
    for i in reg.scopes_to_apply(1, q.excluded_scopes()) {
        q = q.where_raw(reg.scope_at(i));
    }
    let (sql, _) = q.to_sql();
    assert_eq!(sql, "SELECT * FROM scope_tests WHERE deleted = FALSE");
}

struct ScopeModel;
impl Model for ScopeModel {
    fn table_name() -> &'static str { "scope_tests" }
    fn columns() -> &'static [&'static str] { &["id", "active", "deleted"] }
}

enum Filter {
    Active,
    NotDeleted,
}

impl GlobalScope<ScopeModel> for Filter {
    fn apply(&self, q: QueryBuilder<ScopeModel>) -> QueryBuilder<ScopeModel> {
        match self {
            Filter::Active => q.where_eq("active", true),
            Filter::NotDeleted => q.where_eq("deleted", false),
        }
    }
}

#[test]
fn apply_scopes_injects_conditions() {
    let mut reg = ScopeRegistry::new();
    reg.add_scope(1, 10, Filter::Active);
    reg.add_scope(1, 20, Filter::NotDeleted);
    let builder = QueryBuilder::<ScopeModel>::new("scope_tests");
    let (builder, _) = reg.apply_scopes(1, builder);
    let (sql, _) = builder.to_sql();
    assert!(sql.contains("WHERE active"), "expected WHERE active in: {sql}");
    assert!(sql.contains("deleted"), "expected deleted in: {sql}");
}

#[test]
fn without_global_scope_excludes_scope() {
    let mut reg = ScopeRegistry::new();
    reg.add_scope(1, 10, Filter::Active);
    let builder = QueryBuilder::<ScopeModel>::new("scope_tests").without_global_scope(10);
    let (builder, applied) = reg.apply_scopes(1, builder);
    let (sql, _) = builder.to_sql();
    assert!(!sql.contains("active = "), "scope should be excluded: {sql}");
    assert!(applied.is_empty());
}

struct Tracking<'a> {
    events: &'a RefCell<Vec<String>>,
}

struct DummyModel {
    pub id: i64,
}

impl<'a> ModelObserver<DummyModel> for Tracking<'a> {
    fn created(&self, model: &DummyModel) {
        self.events.borrow_mut().push(format!("created:{}", model.id));
    }
    fn deleted(&self, model: &DummyModel) {
        self.events.borrow_mut().push(format!("deleted:{}", model.id));
    }
}

#[test]
fn observer_created_event_dispatched() {
    let events = RefCell::new(Vec::<String>::new());
    let mut reg = ObserverRegistry::new();
    reg.observe(1, Tracking { events: &events });
    let m = DummyModel { id: 42 };
    reg.dispatch(1, &m, ObserverEvent::Created);
    assert!(events.borrow().iter().any(|e| e == "created:42"));
}

#[test]
fn observer_noop_for_unregistered_event() {
    let events = RefCell::new(Vec::<String>::new());
    let reg: ObserverRegistry<Tracking> = ObserverRegistry::new();
    let m = DummyModel { id: 99 };
    let notified = reg.dispatch(7, &m, ObserverEvent::Updating);
    assert!(notified.is_empty());
    assert!(events.borrow().is_empty());
}

#[test]
fn observers_of_other_models_are_not_called() {
    let events = RefCell::new(Vec::<String>::new());
    let mut reg = ObserverRegistry::new();
    reg.observe(1, Tracking { events: &events });
    reg.observe(2, Tracking { events: &events });
    reg.observe(1, Tracking { events: &events });
    let m = DummyModel { id: 3 };
    assert_eq!(reg.dispatch(1, &m, ObserverEvent::Deleted), vec![0, 2]);
    assert_eq!(events.borrow().len(), 2);
}

struct Account {
    email: String,
}

impl ModelHooks for Account {
    fn before_create(&mut self) -> Result<(), HookError> {
        if self.email.is_empty() {
            return Err(HookError::Validation("email required".to_string()));
        }
        self.email = self.email.to_lowercase();
        Ok(())
    }
}

#[test]
fn hooks_run_and_report_errors() {
    let mut a = Account { email: "A@B.COM".to_string() };
    assert!(HookExecutor::run_before_create(&mut a).is_ok());
    assert_eq!(a.email, "a@b.com");
    let mut empty = Account { email: String::new() };
    let err = HookExecutor::run_before_create(&mut empty).unwrap_err();
    assert_eq!(err.message(), "Hook validation failed: email required");
    assert!(HookExecutor::run_before_delete(&a).is_ok());
    assert_eq!(HookError::from("boom").message(), "Hook error: boom");
    assert_eq!(HookError::Constraint("fk".into()).message(), "Hook constraint violation: fk");
    assert_ne!(HookType::BeforeCreate, HookType::AfterCreate);
}

struct PostRow {
    pub id: i64,
    pub title: String,
}

#[test]
fn extras_stores_and_retrieves_values() {
    let p = PostRow { id: 1, title: "Hello".into() };
    let we = WithExtras::new(p)
        .with_extra("comments_count", SqlValue::Integer(5))
        .with_extra("avg_rating", SqlValue::Float(4.2f64.to_string()));
    assert_eq!(we.extra_i64("comments_count"), Some(5));
    assert_eq!(we.extra("avg_rating"), Some(&SqlValue::Float("4.2".to_string())));
    assert_eq!(we.extra("missing"), None);
}

#[test]
fn deref_accesses_model_fields() {
    let p = PostRow { id: 42, title: "Rust".into() };
    let we = WithExtras::new(p);
    assert_eq!(we.id, 42);
    assert_eq!(we.title, "Rust");
}

#[test]
fn extra_i64_from_integer_extra() {
    let p = PostRow { id: 1, title: "x".into() };
    let we = WithExtras::new(p).with_extra("n", SqlValue::Integer(99));
    assert_eq!(we.extra_i64("n"), Some(99));
    assert_eq!(we.extra_str("n"), None);
    let we = we.with_extra("s", SqlValue::Text("hi".into()));
    assert_eq!(we.extra_str("s"), Some("hi"));
}

#[test]
fn migration_plans() {
    let registered = ["001_users", "002_posts", "003_tags"];
    let applied = vec!["002_posts".to_string()];
    assert_eq!(pending_migrations(&registered, &applied), vec![0, 2]);
    assert_eq!(status_rows(&registered, &applied), vec![None, Some(0), None]);
    assert_eq!(rollback_batches(3, 1), vec![3]);
    assert_eq!(rollback_batches(3, 2), vec![3, 2]);
    assert_eq!(rollback_batches(2, 5), vec![2, 1]);
    assert_eq!(rollback_batches(0, 1), Vec::<i32>::new());
}
