use tpm_provider::error::OperationError;
use tpm_provider::key_attributes::{Algorithm, KeyAttributes, KeyType, UsageFlags};
use tpm_provider::key_info::{ApplicationIdentity, KeyInfo, KeyInfoManagerClient, KeyRecord};

fn attributes(bits: u32) -> KeyAttributes {
    KeyAttributes {
        key_type: KeyType::RsaKeyPair,
        bits,
        algorithm: Algorithm::RsaPkcs1v15Sign,
        usage: UsageFlags {
            sign_hash: true,
            verify_hash: true,
            encrypt: false,
            decrypt: false,
        },
    }
}

fn record(bits: u32, context: &[u8]) -> KeyRecord {
    KeyRecord {
        attributes: attributes(bits),
        context: context.to_vec(),
    }
}

fn app(name: &str) -> ApplicationIdentity {
    ApplicationIdentity::new(name.to_string())
}

#[test]
fn application_identity_keeps_its_name() {
    assert_eq!(app("alice").name(), "alice");
}

#[test]
fn new_store_is_empty() {
    let store = KeyInfoManagerClient::new();
    assert!(!store.contains(&app("alice"), &"key".to_string()));
    assert_eq!(store.get(&app("alice"), &"key".to_string()), None);
    assert!(store.list_keys(&app("alice")).is_empty());
    assert!(store.list_clients().is_empty());
}

#[test]
fn inserted_key_is_found() {
    let mut store = KeyInfoManagerClient::new();
    assert_eq!(
        store.insert(&app("alice"), "key".to_string(), record(2048, &[1, 2])),
        Ok(())
    );
    assert!(store.contains(&app("alice"), &"key".to_string()));
    assert_eq!(
        store.get(&app("alice"), &"key".to_string()),
        Some(&record(2048, &[1, 2]))
    );
    assert!(!store.contains(&app("alice"), &"other".to_string()));
    assert!(!store.contains(&app("bob"), &"key".to_string()));
}

#[test]
fn second_insert_of_a_name_is_a_conflict() {
    let mut store = KeyInfoManagerClient::new();
    assert_eq!(
        store.insert(&app("alice"), "key".to_string(), record(2048, &[1])),
        Ok(())
    );
    assert_eq!(
        store.insert(&app("alice"), "key".to_string(), record(1024, &[2])),
        Err(OperationError::Conflict)
    );
    assert_eq!(
        store.get(&app("alice"), &"key".to_string()),
        Some(&record(2048, &[1]))
    );
    assert_eq!(store.list_keys(&app("alice")).len(), 1);
}

#[test]
fn two_applications_may_use_one_name() {
    let mut store = KeyInfoManagerClient::new();
    assert_eq!(
        store.insert(&app("alice"), "key".to_string(), record(2048, &[1])),
        Ok(())
    );
    assert_eq!(
        store.insert(&app("bob"), "key".to_string(), record(1024, &[2])),
        Ok(())
    );
    assert_eq!(
        store.get(&app("alice"), &"key".to_string()),
        Some(&record(2048, &[1]))
    );
    assert_eq!(
        store.get(&app("bob"), &"key".to_string()),
        Some(&record(1024, &[2]))
    );
}

#[test]
fn removed_key_is_handed_back_and_gone() {
    let mut store = KeyInfoManagerClient::new();
    store
        .insert(&app("alice"), "one".to_string(), record(2048, &[1]))
        .unwrap();
    store
        .insert(&app("alice"), "two".to_string(), record(1024, &[2]))
        .unwrap();
    store
        .insert(&app("bob"), "one".to_string(), record(4096, &[3]))
        .unwrap();
    assert_eq!(
        store.remove(&app("alice"), &"one".to_string()),
        Ok(record(2048, &[1]))
    );
    assert!(!store.contains(&app("alice"), &"one".to_string()));
    assert_eq!(
        store.get(&app("alice"), &"two".to_string()),
        Some(&record(1024, &[2]))
    );
    assert_eq!(
        store.get(&app("bob"), &"one".to_string()),
        Some(&record(4096, &[3]))
    );
}

#[test]
fn removing_a_missing_key_changes_nothing() {
    let mut store = KeyInfoManagerClient::new();
    store
        .insert(&app("alice"), "one".to_string(), record(2048, &[1]))
        .unwrap();
    assert_eq!(
        store.remove(&app("alice"), &"two".to_string()),
        Err(OperationError::NotFound)
    );
    assert_eq!(
        store.remove(&app("bob"), &"one".to_string()),
        Err(OperationError::NotFound)
    );
    assert_eq!(
        store.get(&app("alice"), &"one".to_string()),
        Some(&record(2048, &[1]))
    );
    assert_eq!(store.list_keys(&app("alice")).len(), 1);
}

#[test]
fn removed_name_can_be_used_again() {
    let mut store = KeyInfoManagerClient::new();
    store
        .insert(&app("alice"), "key".to_string(), record(2048, &[1]))
        .unwrap();
    store.remove(&app("alice"), &"key".to_string()).unwrap();
    assert_eq!(
        store.insert(&app("alice"), "key".to_string(), record(1024, &[9])),
        Ok(())
    );
    assert_eq!(
        store.get(&app("alice"), &"key".to_string()),
        Some(&record(1024, &[9]))
    );
}

#[test]
fn keys_are_listed_by_application() {
    let mut store = KeyInfoManagerClient::new();
    store
        .insert(&app("alice"), "one".to_string(), record(2048, &[1]))
        .unwrap();
    store
        .insert(&app("bob"), "two".to_string(), record(1024, &[2]))
        .unwrap();
    store
        .insert(&app("alice"), "three".to_string(), record(4096, &[3]))
        .unwrap();
    assert_eq!(
        store.list_keys(&app("alice")),
        vec![
            KeyInfo {
                name: "one".to_string(),
                attributes: attributes(2048)
            },
            KeyInfo {
                name: "three".to_string(),
                attributes: attributes(4096)
            },
        ]
    );
    assert_eq!(
        store.list_keys(&app("bob")),
        vec![KeyInfo {
            name: "two".to_string(),
            attributes: attributes(1024)
        }]
    );
    assert!(store.list_keys(&app("carol")).is_empty());
}

#[test]
fn clients_are_listed_once_each() {
    let mut store = KeyInfoManagerClient::new();
    store
        .insert(&app("alice"), "one".to_string(), record(2048, &[1]))
        .unwrap();
    store
        .insert(&app("bob"), "two".to_string(), record(1024, &[2]))
        .unwrap();
    store
        .insert(&app("alice"), "three".to_string(), record(4096, &[3]))
        .unwrap();
    assert_eq!(store.list_clients(), vec![app("alice"), app("bob")]);
}

#[test]
fn client_without_keys_is_not_listed() {
    let mut store = KeyInfoManagerClient::new();
    store
        .insert(&app("alice"), "one".to_string(), record(2048, &[1]))
        .unwrap();
    store
        .insert(&app("bob"), "two".to_string(), record(1024, &[2]))
        .unwrap();
    store.remove(&app("alice"), &"one".to_string()).unwrap();
    let clients = store.list_clients();
    assert_eq!(clients, vec![app("bob")]);
}

fn names_of(keys: Vec<KeyInfo>) -> Vec<String> {
    keys.into_iter().map(|key| key.name).collect()
}

#[test]
fn keys_are_listed_in_the_order_of_recording() {
    let mut store = KeyInfoManagerClient::new();
    for name in ["zulu", "alpha", "mike"] {
        store
            .insert(&app("alice"), name.to_string(), record(2048, &[1]))
            .unwrap();
    }
    assert_eq!(
        names_of(store.list_keys(&app("alice"))),
        vec!["zulu".to_string(), "alpha".to_string(), "mike".to_string()]
    );
}

#[test]
fn removal_keeps_the_order_of_the_other_keys() {
    let mut store = KeyInfoManagerClient::new();
    for name in ["zulu", "alpha", "mike", "bravo"] {
        store
            .insert(&app("alice"), name.to_string(), record(2048, &[1]))
            .unwrap();
    }
    store.remove(&app("alice"), &"alpha".to_string()).unwrap();
    assert_eq!(
        names_of(store.list_keys(&app("alice"))),
        vec!["zulu".to_string(), "mike".to_string(), "bravo".to_string()]
    );
    store
        .insert(&app("alice"), "alpha".to_string(), record(1024, &[2]))
        .unwrap();
    assert_eq!(
        names_of(store.list_keys(&app("alice"))),
        vec![
            "zulu".to_string(),
            "mike".to_string(),
            "bravo".to_string(),
            "alpha".to_string()
        ]
    );
}

#[test]
fn clients_are_listed_in_the_order_of_their_first_keys() {
    let mut store = KeyInfoManagerClient::new();
    for (owner, name) in [
        ("zoe", "one"),
        ("alice", "one"),
        ("zoe", "two"),
        ("mallory", "one"),
        ("alice", "two"),
    ] {
        store
            .insert(&app(owner), name.to_string(), record(2048, &[1]))
            .unwrap();
    }
    assert_eq!(
        store.list_clients(),
        vec![app("zoe"), app("alice"), app("mallory")]
    );
    store.remove(&app("zoe"), &"one".to_string()).unwrap();
    assert_eq!(
        store.list_clients(),
        vec![app("alice"), app("zoe"), app("mallory")]
    );
}
