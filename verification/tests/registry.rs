use nostr::key::PublicKey as NostrPublicKey;
use nostr::nips::nip19::ToBech32;
use nostr_sync::router::handler::add_user::{
    get, post, AddUserForm, AddUserResponse, INVALID_PUBLIC_KEY_MESSAGE,
    PUBLIC_KEY_EXISTS_MESSAGE,
};
use nostr_sync::state::{PubkeyRegistry, PublicKey, PublicKeySyncData, SyncStatus};

const HEX: &str = "79be667ef9dcbbac55a06295ce870b07029bfcdb2dce28d959f2815b16f81798";
const OTHER_HEX: &str = "c6047f9441ed7d6d3045406e95c07cd85c778e4b8cef3ca7abac09b95c709ee5";

fn form(public_key: &str) -> AddUserForm {
    AddUserForm { public_key: public_key.to_string() }
}

fn error_of(response: AddUserResponse) -> Option<&'static str> {
    match response {
        AddUserResponse::Form(template) => template.error,
        AddUserResponse::RedirectToDashboard => None,
    }
}

#[test]
fn add_user_page_has_no_error() {
    assert_eq!(get().error, None);
}

#[test]
fn invalid_key_is_refused_and_changes_nothing() {
    let mut registry = PubkeyRegistry::new();
    let response = post(&mut registry, form("not a key"));
    assert_eq!(error_of(response), Some(INVALID_PUBLIC_KEY_MESSAGE));
    assert_eq!(INVALID_PUBLIC_KEY_MESSAGE, "Invalid public key.");
    assert_eq!(registry.len(), 0);
}

#[test]
fn new_key_is_added_and_redirects() {
    let mut registry = PubkeyRegistry::new();
    let response = post(&mut registry, form(HEX));
    assert!(matches!(response, AddUserResponse::RedirectToDashboard));
    assert_eq!(registry.len(), 1);
    let key = PublicKey::parse(HEX).unwrap();
    assert_eq!(registry.get(&key), Some(PublicKeySyncData::default()));
    assert_eq!(
        registry.get(&key).unwrap(),
        PublicKeySyncData { status: SyncStatus::Success, last_sync_attempt: 0, last_success_sync: 0 }
    );
}

#[test]
fn second_add_of_a_key_is_refused() {
    let mut registry = PubkeyRegistry::new();
    assert!(matches!(post(&mut registry, form(HEX)), AddUserResponse::RedirectToDashboard));
    let response = post(&mut registry, form(HEX));
    assert_eq!(error_of(response), Some(PUBLIC_KEY_EXISTS_MESSAGE));
    assert_eq!(PUBLIC_KEY_EXISTS_MESSAGE, "Public key already exists.");
    assert_eq!(registry.len(), 1);
}

#[test]
fn same_key_in_bech32_is_the_same_user() {
    let npub = NostrPublicKey::from_hex(HEX).unwrap().to_bech32().unwrap();
    let mut registry = PubkeyRegistry::new();
    assert!(matches!(post(&mut registry, form(HEX)), AddUserResponse::RedirectToDashboard));
    assert_eq!(error_of(post(&mut registry, form(&npub))), Some(PUBLIC_KEY_EXISTS_MESSAGE));
    assert!(PublicKey::parse(&npub).unwrap().same_key(&PublicKey::parse(HEX).unwrap()));
}

#[test]
fn different_keys_are_both_added() {
    let mut registry = PubkeyRegistry::new();
    assert!(matches!(post(&mut registry, form(HEX)), AddUserResponse::RedirectToDashboard));
    assert!(matches!(post(&mut registry, form(OTHER_HEX)), AddUserResponse::RedirectToDashboard));
    assert_eq!(registry.len(), 2);
    assert!(registry.contains(&PublicKey::parse(OTHER_HEX).unwrap()));
}

#[test]
fn public_key_bytes_are_the_decoded_hex() {
    let key = PublicKey::parse(HEX).unwrap();
    let bytes = key.to_bytes();
    assert_eq!(bytes[0], 0x79);
    assert_eq!(bytes[31], 0x98);
    assert!(!key.same_key(&PublicKey::parse(OTHER_HEX).unwrap()));
}

#[test]
fn registry_insert_new_keeps_first_data() {
    let mut registry = PubkeyRegistry::new();
    let key = PublicKey::parse(HEX).unwrap();
    let data = PublicKeySyncData { status: SyncStatus::Failed, last_sync_attempt: 5, last_success_sync: 3 };
    assert!(registry.insert_new(key.clone(), data));
    assert!(!registry.insert_new(key.clone(), PublicKeySyncData::default()));
    assert_eq!(registry.get(&key), Some(data));
}

#[test]
fn sync_status_default_and_is_syncing() {
    assert_eq!(SyncStatus::default(), SyncStatus::Success);
    assert!(SyncStatus::Syncing.is_syncing());
    assert!(!SyncStatus::Success.is_syncing());
    assert!(!SyncStatus::Failed.is_syncing());
}

#[test]
fn short_or_non_hex_keys_are_refused() {
    assert!(PublicKey::parse("abcd").is_none());
    assert!(PublicKey::parse("").is_none());
    let not_hex = "z9be667ef9dcbbac55a06295ce870b07029bfcdb2dce28d959f2815b16f81798";
    assert!(PublicKey::parse(not_hex).is_none());
}

#[test]
fn upper_case_hex_is_the_same_key() {
    let upper = HEX.to_uppercase();
    assert!(PublicKey::parse(&upper).unwrap().same_key(&PublicKey::parse(HEX).unwrap()));
}
