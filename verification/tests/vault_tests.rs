use rops::VaultError;
use rops::envelope::{decrypt_envelope, encrypt_envelope};
use rops::keys::generate_keypair;
use rops::recipients::RecipientSet;
use rops::vault::{PutStatus, Vault};

#[test]
fn envelope_round_trip_for_every_recipient() {
    let (sk_a, pk_a) = generate_keypair();
    let (sk_b, pk_b) = generate_keypair();
    let (sk_c, _) = generate_keypair();
    let plaintext = b"pw123".to_vec();
    let env = encrypt_envelope(&plaintext, &vec![pk_a, pk_b]).expect("encrypt");
    assert_eq!(decrypt_envelope(&env, &sk_a).expect("member decrypts"), plaintext);
    assert_eq!(decrypt_envelope(&env, &sk_b).expect("member decrypts"), plaintext);
    assert_eq!(decrypt_envelope(&env, &sk_c), Err(VaultError::AccessDenied));
}

#[test]
fn envelope_refuses_empty_recipient_set() {
    let r = encrypt_envelope(&b"x".to_vec(), &Vec::new());
    assert_eq!(r, Err(VaultError::EmptyRecipientSet));
}

#[test]
fn envelope_refuses_malformed_recipient() {
    let r = encrypt_envelope(&b"x".to_vec(), &vec!["not a key".to_string()]);
    assert_eq!(r, Err(VaultError::MalformedKey));
}

#[test]
fn envelope_detects_tampering() {
    let (sk, pk) = generate_keypair();
    let mut env = encrypt_envelope(&b"payload".to_vec(), &vec![pk]).expect("encrypt");
    let last: usize = env.len() - 1;
    env[last] ^= 0xff;
    assert_eq!(decrypt_envelope(&env, &sk), Err(VaultError::Corrupted));
}

#[test]
fn envelope_rejects_malformed_private_key() {
    let (_, pk) = generate_keypair();
    let env = encrypt_envelope(&b"payload".to_vec(), &vec![pk]).expect("encrypt");
    assert_eq!(
        decrypt_envelope(&env, &"AGE-SECRET-KEY-JUNK".to_string()),
        Err(VaultError::MalformedKey)
    );
}

#[test]
fn recipient_set_add_is_idempotent() {
    let mut set = RecipientSet::new();
    let (_, pk) = generate_keypair();
    assert_eq!(set.add(&pk, &"alice".to_string()), Ok(true));
    assert_eq!(set.add(&pk, &"alice".to_string()), Ok(false));
    assert_eq!(set.members().len(), 1);
}

#[test]
fn recipient_set_normalizes_key_casing() {
    let mut set = RecipientSet::new();
    let (_, pk) = generate_keypair();
    let shouted = pk.to_uppercase();
    assert_eq!(set.add(&shouted, &"alice".to_string()), Ok(true));
    assert_eq!(set.members()[0].public_key, pk);
    assert_eq!(set.add(&pk, &"alice".to_string()), Ok(false));
}

#[test]
fn recipient_set_rejects_malformed_key() {
    let mut set = RecipientSet::new();
    let r = set.add(&"definitely not bech32".to_string(), &"x".to_string());
    assert_eq!(r, Err(VaultError::MalformedKey));
}

#[test]
fn recipient_set_remove_is_idempotent() {
    let mut set = RecipientSet::new();
    let (_, pk) = generate_keypair();
    set.add(&pk, &"alice".to_string()).expect("add");
    assert!(set.remove(&pk));
    assert!(!set.remove(&pk));
    assert_eq!(set.members().len(), 0);
}

#[test]
fn recipient_set_keeps_insertion_order() {
    let mut set = RecipientSet::new();
    let (_, pk_a) = generate_keypair();
    let (_, pk_b) = generate_keypair();
    set.add(&pk_a, &"alice".to_string()).expect("add");
    set.add(&pk_b, &"bob".to_string()).expect("add");
    let members = set.members();
    assert_eq!(members[0].source_name, "alice");
    assert_eq!(members[1].source_name, "bob");
}

#[test]
fn removing_recipient_revokes_access() {
    let (sk_alice, pk_alice) = generate_keypair();
    let (sk_bob, pk_bob) = generate_keypair();
    let mut vault = Vault::new();
    vault
        .add_recipient(&pk_alice, &"alice".to_string(), &Vec::new())
        .expect("add alice");
    vault
        .add_recipient(&pk_bob, &"bob".to_string(), &vec![sk_alice.clone()])
        .expect("add bob");
    let status = vault.put_secret(&"db".to_string(), &b"pw123".to_vec());
    assert_eq!(status, PutStatus::Encrypted);

    let report = vault.remove_recipient(&pk_bob, &vec![sk_alice.clone()]);
    assert!(report.unrotated.is_empty());

    let denied = vault.get_secret(&"db".to_string(), &sk_bob);
    assert_eq!(denied, Err(VaultError::AccessDenied));
    let allowed = vault.get_secret(&"db".to_string(), &sk_alice).expect("alice still reads");
    assert_eq!(allowed, b"pw123".to_vec());
}

#[test]
fn adding_recipient_grants_access_after_cascade() {
    let (sk_alice, pk_alice) = generate_keypair();
    let (sk_bob, pk_bob) = generate_keypair();
    let mut vault = Vault::new();
    vault
        .add_recipient(&pk_alice, &"alice".to_string(), &Vec::new())
        .expect("add alice");
    vault.put_secret(&"db".to_string(), &b"hunter2".to_vec());
    let report = vault
        .add_recipient(&pk_bob, &"bob".to_string(), &vec![sk_alice.clone()])
        .expect("add bob");
    assert!(report.unrotated.is_empty());
    assert_eq!(vault.get_secret(&"db".to_string(), &sk_bob).expect("bob reads"), b"hunter2");
}

#[test]
fn cascade_without_keys_reports_unrotated() {
    let (sk_alice, pk_alice) = generate_keypair();
    let (sk_bob, pk_bob) = generate_keypair();
    let mut vault = Vault::new();
    vault
        .add_recipient(&pk_alice, &"alice".to_string(), &Vec::new())
        .expect("add alice");
    vault.put_secret(&"db".to_string(), &b"pw".to_vec());

    let report = vault
        .add_recipient(&pk_bob, &"bob".to_string(), &Vec::new())
        .expect("add bob");
    assert_eq!(report.unrotated, vec!["db".to_string()]);
    assert!(vault.secrets()[0].stale);
    assert_eq!(vault.get_secret(&"db".to_string(), &sk_bob), Err(VaultError::AccessDenied));

    let retry = vault.reencrypt_all(&vec![sk_alice]);
    assert!(retry.unrotated.is_empty());
    assert!(!vault.secrets()[0].stale);
    assert_eq!(vault.get_secret(&"db".to_string(), &sk_bob).expect("bob reads"), b"pw");
}

#[test]
fn empty_recipient_set_put_warns_and_stores_unreadable() {
    let (sk, _) = generate_keypair();
    let mut vault = Vault::new();
    let status = vault.put_secret(&"x".to_string(), &b"y".to_vec());
    assert_eq!(status, PutStatus::EmptyRecipientSetWarning);
    assert_eq!(vault.secrets().len(), 1);
    assert_eq!(vault.get_secret(&"x".to_string(), &sk), Err(VaultError::AccessDenied));
}

#[test]
fn put_secret_replaces_existing_name() {
    let (sk, pk) = generate_keypair();
    let mut vault = Vault::new();
    vault.add_recipient(&pk, &"a".to_string(), &Vec::new()).expect("add");
    vault.put_secret(&"db".to_string(), &b"old".to_vec());
    vault.put_secret(&"db".to_string(), &b"new".to_vec());
    assert_eq!(vault.secrets().len(), 1);
    assert_eq!(vault.get_secret(&"db".to_string(), &sk).expect("read"), b"new");
}

#[test]
fn get_secret_errors() {
    let (sk, pk) = generate_keypair();
    let mut vault = Vault::new();
    vault.add_recipient(&pk, &"a".to_string(), &Vec::new()).expect("add");
    vault.put_secret(&"db".to_string(), &b"v".to_vec());
    assert_eq!(vault.get_secret(&"nope".to_string(), &sk), Err(VaultError::NotFound));
    assert_eq!(
        vault.get_secret(&"db".to_string(), &"garbage".to_string()),
        Err(VaultError::MalformedKey)
    );
}

#[test]
fn remove_secret_requires_presence() {
    let (_, pk) = generate_keypair();
    let mut vault = Vault::new();
    vault.add_recipient(&pk, &"a".to_string(), &Vec::new()).expect("add");
    assert_eq!(vault.remove_secret(&"db".to_string()), Err(VaultError::NotFound));
    vault.put_secret(&"db".to_string(), &b"v".to_vec());
    vault.remove_secret(&"db".to_string()).expect("remove");
    assert_eq!(vault.secrets().len(), 0);
}

#[test]
fn adding_present_recipient_changes_nothing() {
    let (_, pk) = generate_keypair();
    let mut vault = Vault::new();
    vault.add_recipient(&pk, &"a".to_string(), &Vec::new()).expect("add");
    vault.put_secret(&"db".to_string(), &b"v".to_vec());
    let report = vault.add_recipient(&pk, &"a".to_string(), &Vec::new()).expect("re-add");
    assert!(report.unrotated.is_empty());
    assert_eq!(vault.recipients().len(), 1);
    assert!(!vault.secrets()[0].stale);
}

#[test]
fn degenerate_recipient_keys_are_rejected_before_age_sees_them() {
    // Encodings of the small-order curve points: valid Bech32 that age
    // itself parses, but whose shared secret is all zero, so age refuses
    // to wrap a key to them. The vault must treat them as malformed.
    let degenerate = [
        "age1qqqqqqqqqqqqqqqqqqqqqqqqqqqqqqqqqqqqqqqqqqqqqqqqqqqq5cu47z",
        "age1qqqqqqqqqqqqqqqqqqqqqqqqqqqqqqqqqqqqqqqqqqqqqqqqqzqqsuwj9m",
        "age1qyqqqqqqqqqqqqqqqqqqqqqqqqqqqqqqqqqqqqqqqqqqqqqqqqqqj7vrya",
        "age1qyqqqqqqqqqqqqqqqqqqqqqqqqqqqqqqqqqqqqqqqqqqqqqqqzqqk67yly",
        "age1ur4h5lpmgxu2u9jku0a0r87ydtdqnr0tnsetrlvxvgz3vh6fhqqqzyt4v9",
        "age1ur4h5lpmgxu2u9jku0a0r87ydtdqnr0tnsetrlvxvgz3vh6fhzqqxqejhu",
        "age1t7wft09r2zxzfvwsk92eeql0tvzyghxytqwgapkcyf8dm5ylz9ts6wm9s8",
        "age1t7wft09r2zxzfvwsk92eeql0tvzyghxytqwgapkcyf8dm5ylz8ts72fzt7",
        "age1anlllllllllllllllllllllllllllllllllllllllllllllllals4n2t7m",
        "age1anllllllllllllllllllllllllllllllllllllllllllllllllls3hcv9z",
        "age1ahlllllllllllllllllllllllllllllllllllllllllllllllalsn46ayy",
        "age1ahlllllllllllllllllllllllllllllllllllllllllllllllllsh3g6la",
        "age1amlllllllllllllllllllllllllllllllllllllllllllllllalselrwrv",
        "age1amlllllllllllllllllllllllllllllllllllllllllllllllllsam3fc4",
    ];
    for pk in degenerate {
        assert!(
            pk.parse::<age::x25519::Recipient>().is_ok(),
            "the blocklist entry must be a key age would accept"
        );
        let mut set = RecipientSet::new();
        assert_eq!(set.add(&pk.to_string(), &"x".to_string()), Err(VaultError::MalformedKey));
        assert_eq!(
            encrypt_envelope(&b"v".to_vec(), &vec![pk.to_string()]),
            Err(VaultError::MalformedKey)
        );
        let mut vault = Vault::new();
        assert!(vault.add_recipient(&pk.to_string(), &"x".to_string(), &Vec::new()).is_err());
        assert_eq!(vault.recipients().len(), 0);
    }
}
