use rops::VaultError;
use rops::cli::{cli_identity, CliReply, IdentityCommand};
use rops::identity_store::IdentityStore;
use rops::keys::{derive_public, generate_keypair};

fn pubkey_of(store: &mut IdentityStore, name: &str) -> String {
    let cmd = IdentityCommand::Pubkey { name: name.to_string() };
    match cli_identity(store, &cmd, 0, &Vec::new()) {
        Ok(CliReply::PublicKey(pk)) => pk,
        _ => panic!("expected a public key"),
    }
}

#[test]
fn derive_public_is_deterministic() {
    let (sk, pk) = generate_keypair();
    let first = derive_public(&sk).expect("generated key derives");
    let second = derive_public(&sk).expect("generated key derives");
    assert_eq!(first, second);
    assert_eq!(first, pk);
}

#[test]
fn derive_public_rejects_garbage() {
    let r = derive_public(&"not a key".to_string());
    assert_eq!(r, Err(VaultError::MalformedKey));
}

#[test]
fn keygen_then_pubkey_twice_matches() {
    let mut store = IdentityStore::new();
    let created = match cli_identity(
        &mut store,
        &IdentityCommand::Keygen { name: "alice".to_string() },
        100,
        &Vec::new(),
    ) {
        Ok(CliReply::Created(pk)) => pk,
        _ => panic!("keygen failed"),
    };
    let once = pubkey_of(&mut store, "alice");
    let twice = pubkey_of(&mut store, "alice");
    assert_eq!(once, twice);
    assert_eq!(once, created);
}

#[test]
fn creating_existing_name_fails_without_mutation() {
    let mut store = IdentityStore::new();
    store.create_generated(&"alice".to_string(), 5).expect("first create");
    let before = pubkey_of(&mut store, "alice");
    let second = store.create_generated(&"alice".to_string(), 9);
    assert_eq!(second, Err(VaultError::AlreadyExists));
    assert_eq!(store.list().len(), 1);
    assert_eq!(pubkey_of(&mut store, "alice"), before);
}

#[test]
fn listing_is_ordered_by_creation_time() {
    let mut store = IdentityStore::new();
    store.create_generated(&"late".to_string(), 300).expect("create");
    store.create_generated(&"early".to_string(), 100).expect("create");
    store.create_generated(&"middle".to_string(), 200).expect("create");
    let listed = store.list();
    let names: Vec<&str> = listed.iter().map(|r| r.name.as_str()).collect();
    assert_eq!(names, vec!["early", "middle", "late"]);
    let times: Vec<u64> = listed.iter().map(|r| r.created_at).collect();
    assert_eq!(times, vec![100, 200, 300]);
}

#[test]
fn get_missing_identity_is_not_found() {
    let store = IdentityStore::new();
    let r = store.get(&"nobody".to_string());
    assert!(matches!(r, Err(VaultError::NotFound)));
}

#[test]
fn import_record_with_single_key() {
    let mut store = IdentityStore::new();
    let (sk, pk) = generate_keypair();
    let lines = vec![
        "# created: some day".to_string(),
        format!("# public key: {}", pk),
        String::new(),
        sk.clone(),
    ];
    let imported = store
        .create_imported(&"carol".to_string(), &lines, 7)
        .expect("import succeeds");
    assert_eq!(imported, pk);
    let rec = store.get(&"carol".to_string()).expect("stored");
    assert_eq!(rec.private_key, sk);
    assert_eq!(rec.public_key, pk);
    assert_eq!(rec.created_at, 7);
}

#[test]
fn import_rejects_multiple_keys() {
    let mut store = IdentityStore::new();
    let (sk1, _) = generate_keypair();
    let (sk2, _) = generate_keypair();
    let lines = vec![sk1, sk2];
    let r = store.create_imported(&"carol".to_string(), &lines, 7);
    assert_eq!(r, Err(VaultError::MalformedKey));
    assert_eq!(store.list().len(), 0);
}

#[test]
fn import_rejects_empty_record() {
    let mut store = IdentityStore::new();
    let lines = vec!["# nothing but comments".to_string(), String::new()];
    let r = store.create_imported(&"carol".to_string(), &lines, 7);
    assert_eq!(r, Err(VaultError::MalformedKey));
}

#[test]
fn import_rejects_unsupported_key_kind() {
    let mut store = IdentityStore::new();
    let lines = vec!["ssh-ed25519 AAAAC3NzaC1lZDI1NTE5AAAAIIwl".to_string()];
    let r = store.create_imported(&"carol".to_string(), &lines, 7);
    assert_eq!(r, Err(VaultError::UnsupportedKeyKind));
}

#[test]
fn import_rejects_garbled_native_key() {
    let mut store = IdentityStore::new();
    let lines = vec!["AGE-SECRET-KEY-NOTREALLYAKEY".to_string()];
    let r = store.create_imported(&"carol".to_string(), &lines, 7);
    assert_eq!(r, Err(VaultError::MalformedKey));
}

#[test]
fn delete_missing_identity_is_not_found() {
    let mut store = IdentityStore::new();
    let r = store.delete(&"nobody".to_string(), &Vec::new());
    assert_eq!(r, Err(VaultError::NotFound));
}

#[test]
fn delete_blocked_while_key_is_a_recipient() {
    let mut store = IdentityStore::new();
    let pk = store.create_generated(&"alice".to_string(), 1).expect("create");
    let blocking = vec![pk];
    let r = store.delete(&"alice".to_string(), &blocking);
    assert_eq!(r, Err(VaultError::InUse));
    assert_eq!(store.list().len(), 1);
}

#[test]
fn delete_removes_identity() {
    let mut store = IdentityStore::new();
    store.create_generated(&"alice".to_string(), 1).expect("create");
    store.create_generated(&"bob".to_string(), 2).expect("create");
    store.delete(&"alice".to_string(), &Vec::new()).expect("delete");
    assert_eq!(store.list().len(), 1);
    assert!(matches!(store.get(&"alice".to_string()), Err(VaultError::NotFound)));
    assert!(store.get(&"bob".to_string()).is_ok());
}

#[test]
fn listing_keeps_identities_with_equal_creation_times() {
    let mut store = IdentityStore::new();
    store.create_generated(&"one".to_string(), 50).expect("create");
    store.create_generated(&"two".to_string(), 50).expect("create");
    let listed = store.list();
    assert_eq!(listed.len(), 2);
    assert_eq!(listed[0].created_at, 50);
    assert_eq!(listed[1].created_at, 50);
}
