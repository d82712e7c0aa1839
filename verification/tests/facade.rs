use safe_app_core::client::{AppClient, REQUEST_TIMEOUT_SECS};
use safe_app_core::contacts::Contact;
use safe_app_core::errors::{AppError, BootstrapFailure};
use safe_app_core::keys::{ClientKeys, NetworkPublicKey};
use safe_app_core::manager::{BootstrapEvent, ConnectionManager, ConnectionStatus};

fn contact(addr: u32, port: u16, node_id: u64) -> Contact {
    Contact { addr, port, node_id }
}

fn fixed_keys() -> ClientKeys {
    ClientKeys::from_existing([1; 32], [2; 64], [3; 32], [4; 32], [5; 32], [6; 48], [7; 32])
}

fn owner() -> NetworkPublicKey {
    NetworkPublicKey { bytes: [9; 48] }
}

#[test]
fn unregistered_with_no_reachable_contact_fails() {
    // Strict path: every contact unreachable aborts construction.
    let defaults = vec![contact(1, 1000, 11), contact(2, 2000, 22)];
    let events = vec![BootstrapEvent::Unreachable, BootstrapEvent::Unreachable];
    let r = AppClient::unregistered(&defaults, None, &events);
    match r {
        Err(AppError::Bootstrap(BootstrapFailure::NoReachableContact)) => {}
        _ => panic!("expected a bootstrap failure with no reachable contact"),
    }
}

#[test]
fn unregistered_with_empty_contact_set_fails() {
    let defaults: Vec<Contact> = Vec::new();
    let events: Vec<BootstrapEvent> = Vec::new();
    let r = AppClient::unregistered(&defaults, None, &events);
    match r {
        Err(AppError::Bootstrap(BootstrapFailure::NoReachableContact)) => {}
        _ => panic!("expected a bootstrap failure on an empty contact set"),
    }
}

#[test]
fn unregistered_rejected_identity_is_reported() {
    let defaults = vec![contact(1, 1000, 11)];
    let events = vec![BootstrapEvent::Rejected];
    match AppClient::unregistered(&defaults, None, &events) {
        Err(AppError::Bootstrap(BootstrapFailure::IdentityRejected)) => {}
        _ => panic!("expected an identity rejection"),
    }
}

#[test]
fn unregistered_missing_answers_time_out() {
    let defaults = vec![contact(1, 1000, 11)];
    let events: Vec<BootstrapEvent> = Vec::new();
    match AppClient::unregistered(&defaults, None, &events) {
        Err(AppError::Bootstrap(BootstrapFailure::TimedOut)) => {}
        _ => panic!("expected a bootstrap timeout"),
    }
}

#[test]
fn unregistered_invalid_contact_is_a_setup_error() {
    let defaults = vec![contact(1, 0, 11)];
    let events = vec![BootstrapEvent::Accepted];
    match AppClient::unregistered(&defaults, None, &events) {
        Err(AppError::ConnectionSetup) => {}
        _ => panic!("expected a connection setup error"),
    }
}

#[test]
fn unregistered_connects_through_first_accepting_contact() {
    let a = contact(1, 1000, 11);
    let b = contact(2, 2000, 22);
    let defaults = vec![a];
    let supplied = vec![b, a];
    let events = vec![BootstrapEvent::Unreachable, BootstrapEvent::Accepted];
    // Resolved order is [A, B], so the accepting contact is B.
    let client = AppClient::unregistered(&defaults, Some(supplied.clone()), &events).unwrap();
    assert_eq!(client.connected_contact().unwrap(), b);
    assert_eq!(client.config(), Some(supplied));
    assert_eq!(client.request_timeout_secs(), REQUEST_TIMEOUT_SECS);
    // An ephemeral identity owns itself: owner key equals its BLS key.
    assert_eq!(client.owner_key().bytes, client.public_bls_key());
}

#[test]
fn from_keys_survives_unreachable_contacts() {
    // Lenient path: bootstrap failure is discarded, the context usable.
    let defaults = vec![contact(1, 1000, 11)];
    let config = vec![contact(2, 2000, 22)];
    let events = vec![BootstrapEvent::Unreachable, BootstrapEvent::Unreachable];
    let mut client =
        AppClient::from_keys(fixed_keys(), owner(), &defaults, config.clone(), &events).unwrap();
    // The connection-dependent call fails distinctly and lazily...
    match client.connected_contact() {
        Err(AppError::Bootstrap(BootstrapFailure::NoReachableContact)) => {}
        _ => panic!("expected the recorded bootstrap failure"),
    }
    // ...while identity and cache accessors still succeed.
    assert_eq!(client.public_signing_key(), [1; 32]);
    assert_eq!(client.owner_key().bytes, [9; 48]);
    assert_eq!(client.config(), Some(config));
    assert_eq!(client.cache_insert(b"h".to_vec(), b"b".to_vec()), None);
    assert_eq!(client.cache_get(&b"h".to_vec()), Some(b"b".to_vec()));
}

#[test]
fn from_keys_connects_when_a_contact_accepts() {
    let a = contact(1, 1000, 11);
    let events = vec![BootstrapEvent::Accepted];
    let client = AppClient::from_keys(fixed_keys(), owner(), &vec![a], Vec::new(), &events).unwrap();
    assert_eq!(client.connected_contact().unwrap(), a);
}

#[test]
fn from_keys_invalid_config_is_a_setup_error() {
    let events = vec![BootstrapEvent::Accepted];
    match AppClient::from_keys(fixed_keys(), owner(), &vec![contact(1, 0, 1)], Vec::new(), &events)
    {
        Err(AppError::ConnectionSetup) => {}
        _ => panic!("expected a connection setup error"),
    }
}

#[test]
fn from_keys_with_hook_can_inject_a_fault() {
    let a = contact(1, 1000, 11);
    let events = vec![BootstrapEvent::Accepted];
    let fault = |mut m: ConnectionManager| -> ConnectionManager {
        m.status = ConnectionStatus::BootstrapFailed(BootstrapFailure::TimedOut);
        m
    };
    let client =
        AppClient::from_keys_with_hook(fixed_keys(), owner(), &vec![a], Vec::new(), &events, fault)
            .unwrap();
    match client.connected_contact() {
        Err(AppError::Bootstrap(BootstrapFailure::TimedOut)) => {}
        _ => panic!("expected the injected fault"),
    }
}

#[test]
fn accessors_return_bit_identical_key_material() {
    let defaults = vec![contact(1, 1000, 11)];
    let events = vec![BootstrapEvent::Accepted];
    let client =
        AppClient::from_keys(fixed_keys(), owner(), &defaults, Vec::new(), &events).unwrap();
    assert_eq!(client.public_signing_key(), [1; 32]);
    assert_eq!(client.secret_signing_key(), [2; 64]);
    assert_eq!(client.public_encryption_key(), [3; 32]);
    assert_eq!(client.secret_encryption_key(), [4; 32]);
    assert_eq!(client.secret_symmetric_key(), [5; 32]);
    assert_eq!(client.public_bls_key(), [6; 48]);
    assert_eq!(client.secret_bls_key(), [7; 32]);
    assert_eq!(client.public_key().bytes, [6; 48]);
    // Repeated reads observe the same bytes: accessors are pure.
    assert_eq!(client.public_signing_key(), client.public_signing_key());
    let full = client.full_id();
    assert_eq!(full.sign_sk, [2; 64]);
    assert_eq!(full.bls_sk, [7; 32]);
    assert_eq!(full.owner.bytes, [9; 48]);
    let public = client.public_id();
    assert_eq!(public.public_key.bytes, [6; 48]);
    assert_eq!(public.owner.bytes, [9; 48]);
}

#[test]
fn cache_is_shared_across_uses_of_one_context() {
    // One context, reached through one handle at a time: an insert done
    // through the capability surface is observed by every later reader.
    let defaults = vec![contact(1, 1000, 11)];
    let events = vec![BootstrapEvent::Accepted];
    let mut client =
        AppClient::from_keys(fixed_keys(), owner(), &defaults, Vec::new(), &events).unwrap();
    assert_eq!(client.cache_len(), 0);
    client.cache_insert(b"hash".to_vec(), b"block".to_vec());
    assert_eq!(client.cache_len(), 1);
    assert_eq!(client.cache_get(&b"hash".to_vec()), Some(b"block".to_vec()));
}

#[test]
fn error_messages_name_each_kind() {
    assert_eq!(AppError::KeyGeneration.message(), "secure random source failure");
    assert_eq!(
        AppError::ConnectionSetup.message(),
        "structurally invalid contact configuration"
    );
    assert_eq!(
        AppError::Bootstrap(BootstrapFailure::NoReachableContact).message(),
        "no reachable contact"
    );
    assert_eq!(
        AppError::Bootstrap(BootstrapFailure::IdentityRejected).message(),
        "identity rejected by the network"
    );
    assert_eq!(
        AppError::Bootstrap(BootstrapFailure::TimedOut).message(),
        "bootstrap timed out"
    );
    assert_eq!(AppError::RequestTimeout.message(), "request timed out");
}

#[test]
fn unregistered_without_supplied_contacts_stores_no_config() {
    let defaults = vec![contact(1, 1000, 11)];
    let events = vec![BootstrapEvent::Accepted];
    let client = AppClient::unregistered(&defaults, None, &events).unwrap();
    assert_eq!(client.config(), None);
    assert_eq!(client.connected_contact().unwrap(), defaults[0]);
}
