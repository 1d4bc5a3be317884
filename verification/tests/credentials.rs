use readsync::credentials::{CredentialStore, RegisterOutcome, VerifyOutcome};

#[test]
fn register_then_verify_roundtrip() {
    let mut store = CredentialStore::new();
    let user = String::from("alice");
    let pass = String::from("pw1");
    assert_eq!(store.register(&user, &pass), RegisterOutcome::Created);
    assert_eq!(store.verify(&user, &pass), VerifyOutcome::Authenticated);
}

#[test]
fn wrong_password_is_rejected() {
    let mut store = CredentialStore::new();
    let user = String::from("alice");
    assert_eq!(
        store.register(&user, &String::from("pw1")),
        RegisterOutcome::Created
    );
    assert_eq!(
        store.verify(&user, &String::from("pw2")),
        VerifyOutcome::Rejected
    );
    assert_eq!(
        store.verify(&user, &String::from("")),
        VerifyOutcome::Rejected
    );
}

#[test]
fn unknown_username_is_rejected() {
    let mut store = CredentialStore::new();
    assert_eq!(
        store.register(&String::from("alice"), &String::from("pw1")),
        RegisterOutcome::Created
    );
    assert_eq!(
        store.verify(&String::from("bob"), &String::from("pw1")),
        VerifyOutcome::Rejected
    );
}

#[test]
fn duplicate_registration_is_reported_and_writes_nothing() {
    let mut store = CredentialStore::new();
    let user = String::from("alice");
    assert_eq!(
        store.register(&user, &String::from("pw1")),
        RegisterOutcome::Created
    );
    assert_eq!(
        store.register(&user, &String::from("other")),
        RegisterOutcome::AlreadyExists
    );
    assert_eq!(store.user_count(), 1);
    // The first secret still stands.
    assert_eq!(
        store.verify(&user, &String::from("pw1")),
        VerifyOutcome::Authenticated
    );
    assert_eq!(
        store.verify(&user, &String::from("other")),
        VerifyOutcome::Rejected
    );
}

#[test]
fn empty_username_or_password_is_invalid() {
    let mut store = CredentialStore::new();
    assert_eq!(
        store.register(&String::from(""), &String::from("pw1")),
        RegisterOutcome::InvalidInput
    );
    assert_eq!(
        store.register(&String::from("alice"), &String::from("")),
        RegisterOutcome::InvalidInput
    );
    assert_eq!(store.user_count(), 0);
}

#[test]
fn distinct_users_keep_distinct_secrets() {
    let mut store = CredentialStore::new();
    assert_eq!(
        store.register(&String::from("alice"), &String::from("pw1")),
        RegisterOutcome::Created
    );
    assert_eq!(
        store.register(&String::from("bob"), &String::from("pw2")),
        RegisterOutcome::Created
    );
    assert_eq!(store.user_count(), 2);
    assert_eq!(
        store.verify(&String::from("alice"), &String::from("pw2")),
        VerifyOutcome::Rejected
    );
    assert_eq!(
        store.verify(&String::from("bob"), &String::from("pw2")),
        VerifyOutcome::Authenticated
    );
}
