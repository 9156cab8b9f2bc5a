use chatcore::message::Message;
use chatcore::store::{UserError, UserStore};

#[test]
fn signup_then_authenticate_succeeds() {
    let mut store = UserStore::new();
    let alice = store.signup("alice", "pw").expect("signup failed");
    assert_eq!(alice.name, "alice");
    assert!(alice.is_active);
    assert!(!alice.is_admin);
    let again = store.authenticate("alice", "pw").expect("authenticate failed");
    assert_eq!(again.id, alice.id);
}

#[test]
fn wrong_password_fails_authentication() {
    let mut store = UserStore::new();
    store.signup("alice", "pw").unwrap();
    assert!(matches!(
        store.authenticate("alice", "PW"),
        Err(UserError::AuthenticationFailed)
    ));
}

#[test]
fn unknown_user_fails_the_same_way() {
    let mut store = UserStore::new();
    store.signup("alice", "pw").unwrap();
    assert!(matches!(
        store.authenticate("bob", "pw"),
        Err(UserError::AuthenticationFailed)
    ));
}

#[test]
fn duplicate_signup_is_refused() {
    let mut store = UserStore::new();
    store.signup("alice", "pw").unwrap();
    match store.signup("alice", "other") {
        Err(UserError::UserAlreadyExists(n)) => assert_eq!(n, "alice"),
        _ => panic!("duplicate signup accepted"),
    }
}

#[test]
fn change_password_switches_which_password_works() {
    let mut store = UserStore::new();
    let alice = store.signup("alice", "pw").unwrap();
    store.change_password(&alice, "pw2").expect("change failed");
    assert!(matches!(
        store.authenticate("alice", "pw"),
        Err(UserError::AuthenticationFailed)
    ));
    assert!(store.authenticate("alice", "pw2").is_ok());
}

#[test]
fn change_password_rotates_the_salt() {
    let mut store = UserStore::new();
    let alice = store.signup("alice", "pw").unwrap();
    let salt_before = store.salt_of("alice").unwrap();
    store.change_password(&alice, "pw2").unwrap();
    let salt_after = store.salt_of("alice").unwrap();
    assert_ne!(salt_before, salt_after);
}

#[test]
fn stored_digest_is_the_salted_sha256_hex() {
    let mut store = UserStore::new();
    store.signup("alice", "pw").unwrap();
    let salt = store.salt_of("alice").unwrap();
    let digest = store.digest_of("alice").unwrap();
    assert_eq!(digest, sha256::digest(format!("pw{}", salt)));
}

#[test]
fn two_accounts_draw_distinct_ids_and_salts() {
    let mut store = UserStore::new();
    let a = store.signup("alice", "pw").unwrap();
    let b = store.signup("bob", "pw").unwrap();
    assert_ne!(a.id, b.id);
    assert_ne!(
        store.salt_of("alice").unwrap(),
        store.salt_of("bob").unwrap()
    );
}

#[test]
fn deactivation_blocks_authentication() {
    let mut store = UserStore::new();
    let alice = store.signup("alice", "pw2").unwrap();
    store.update_user(&alice.id, false, false).expect("update failed");
    assert!(matches!(
        store.authenticate("alice", "pw2"),
        Err(UserError::AuthenticationFailed)
    ));
}

#[test]
fn update_of_a_missing_user_reports_no_such_user() {
    let mut store = UserStore::new();
    assert!(matches!(
        store.update_user("ghost", true, true),
        Err(UserError::NoSuchUser(_))
    ));
}

#[test]
fn bootstrap_creates_the_default_admin() {
    let mut store = UserStore::new();
    let admin = store.bootstrap();
    assert_eq!(admin.name, "admin");
    assert!(admin.is_admin);
    assert!(admin.is_active);
    let fetched = store.authenticate("admin", "admin").unwrap();
    assert!(fetched.is_admin);
}

#[test]
fn history_is_rendered_and_sorted_newest_first() {
    let mut store = UserStore::new();
    let alice = store.signup("alice", "pw").unwrap();
    store
        .save_user_message(&alice, &Message::Text(String::from("first")), 5)
        .unwrap();
    store
        .save_user_message(
            &alice,
            &Message::File(String::from("notes.txt"), vec![1]),
            9,
        )
        .unwrap();
    store
        .save_user_message(&alice, &Message::Image(vec![2]), 1)
        .unwrap();
    // control payloads are never persisted
    store
        .save_user_message(&alice, &Message::Quit, 99)
        .unwrap();
    let rows = store.get_user_messages();
    assert_eq!(rows.len(), 3);
    assert_eq!(rows[0].sent_at_instant, 9);
    assert_eq!(rows[0].message, "[Shared file notes.txt]");
    assert_eq!(rows[1].sent_at_instant, 5);
    assert_eq!(rows[1].message, "first");
    assert_eq!(rows[2].sent_at_instant, 1);
    assert_eq!(rows[2].message, "[Shared an image]");
    assert_eq!(rows[0].author_name, "alice");
}

#[test]
fn get_all_users_lists_every_account() {
    let mut store = UserStore::new();
    store.signup("alice", "pw").unwrap();
    store.signup("bob", "pw").unwrap();
    let users = store.get_all_users();
    assert_eq!(users.len(), 2);
    assert_eq!(users[0].name, "alice");
    assert_eq!(users[1].name, "bob");
}

#[test]
fn lookup_by_id_and_name_agree() {
    let mut store = UserStore::new();
    let alice = store.signup("alice", "pw").unwrap();
    let by_id = store.get_user_by_id(&alice.id).unwrap();
    assert_eq!(by_id.name, "alice");
    let by_name = store.get_user_by_name("alice").unwrap();
    assert_eq!(by_name.id, alice.id);
    assert!(matches!(
        store.get_user_by_id("missing"),
        Err(UserError::NoSuchUser(_))
    ));
    assert!(store.get_user_by_name("missing").is_none());
}
