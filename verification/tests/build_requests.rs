use credits::{Credits, CreditsError, Engine};

use snarkvm::console::account::{Address, PrivateKey};
use snarkvm::console::network::Testnet3;
use snarkvm::prelude::TestRng;
use snarkvm::synthesizer::Authorization;

/// Samples a fresh account: a private key string and an address string.
fn sample_account() -> (String, String) {
    let rng = &mut TestRng::default();
    let key = PrivateKey::<Testnet3>::new(rng).unwrap();
    let address = Address::try_from(&key).unwrap();
    (key.to_string(), address.to_string())
}

#[test]
fn invalid_private_key_is_invalid_input() {
    let engine = Engine::load().unwrap();
    let r = Credits::claim_unbond_public(&engine, "not a key", 1000, false);
    assert!(matches!(r, Err(CreditsError::InvalidInput(_))));
}

#[test]
fn invalid_recipient_is_invalid_input() {
    let engine = Engine::load().unwrap();
    let (key, _) = sample_account();
    let r = Credits::transfer_public(&engine, &key, "not an address", 1000, 500, false);
    assert!(matches!(r, Err(CreditsError::InvalidInput(_))));
}

#[test]
fn zero_fee_builds_request_without_fee() {
    let engine = Engine::load().unwrap();
    let (key, _) = sample_account();
    let request = Credits::claim_unbond_public(&engine, &key, 0, false).unwrap();
    assert!(!request.has_fee());
    assert!(!request.broadcast());
}

#[test]
fn nonzero_fee_builds_request_with_fee() {
    let engine = Engine::load().unwrap();
    let (key, _) = sample_account();
    let request = Credits::claim_unbond_public(&engine, &key, 167230, true).unwrap();
    assert!(request.has_fee());
    assert!(request.broadcast());
}

#[test]
fn wire_round_trip_preserves_flags() {
    let engine = Engine::load().unwrap();
    let (key, _) = sample_account();
    let request = Credits::claim_unbond_public(&engine, &key, 0, true).unwrap();
    let wire = request.to_wire_bytes().unwrap();
    assert!(!String::from_utf8(wire.clone()).unwrap().contains("\"fee\""));
    let back = credits::Authorized::from_wire_bytes(&wire).unwrap();
    assert!(back.broadcast());
    assert!(!back.has_fee());
    let wire2 = back.to_wire_bytes().unwrap();
    let back2 = credits::Authorized::from_wire_bytes(&wire2).unwrap();
    assert!(back2.broadcast());
    assert!(!back2.has_fee());
}

#[test]
fn fresh_randomness_never_repeats() {
    let engine = Engine::load().unwrap();
    let (key, _) = sample_account();
    let first = Credits::claim_unbond_public(&engine, &key, 0, false).unwrap();
    let second = Credits::claim_unbond_public(&engine, &key, 0, false).unwrap();
    let w1 = first.to_wire_bytes().unwrap();
    let w2 = second.to_wire_bytes().unwrap();
    assert_ne!(w1, w2);
}

#[test]
fn duplicate_preserves_request() {
    let engine = Engine::load().unwrap();
    let (key, _) = sample_account();
    let request = Credits::claim_unbond_public(&engine, &key, 5, true).unwrap();
    let copy = request.duplicate();
    assert_eq!(copy.broadcast(), request.broadcast());
    assert_eq!(copy.has_fee(), request.has_fee());
    assert_eq!(copy.to_wire_bytes().unwrap(), request.to_wire_bytes().unwrap());
}

#[test]
fn bond_public_builds() {
    let engine = Engine::load().unwrap();
    let (key, _) = sample_account();
    let (_, validator) = sample_account();
    let request = Credits::bond_public(&engine, &key, &validator, 1_000_000, 0, false).unwrap();
    assert!(!request.has_fee());
}

#[test]
fn unbond_public_builds() {
    let engine = Engine::load().unwrap();
    let (key, _) = sample_account();
    let request = Credits::unbond_public(&engine, &key, 1_000_000, 0, false).unwrap();
    assert!(!request.has_fee());
}

#[test]
fn unbond_delegator_as_validator_builds() {
    let engine = Engine::load().unwrap();
    let (key, _) = sample_account();
    let (_, delegator) = sample_account();
    let request =
        Credits::unbond_delegator_as_validator(&engine, &key, &delegator, 0, false).unwrap();
    assert!(!request.has_fee());
}

#[test]
fn set_validator_state_builds() {
    let engine = Engine::load().unwrap();
    let (key, _) = sample_account();
    let request = Credits::set_validator_state(&engine, &key, true, 0, false).unwrap();
    assert!(!request.has_fee());
}

#[test]
fn transfer_public_builds() {
    let engine = Engine::load().unwrap();
    let (key, _) = sample_account();
    let (_, recipient) = sample_account();
    let request =
        Credits::transfer_public(&engine, &key, &recipient, 1000, 500, false).unwrap();
    assert!(request.has_fee());
    assert!(!request.broadcast());
}

#[test]
fn transfer_public_to_private_builds() {
    let engine = Engine::load().unwrap();
    let (key, _) = sample_account();
    let (_, recipient) = sample_account();
    let request =
        Credits::transfer_public_to_private(&engine, &key, &recipient, 1000, 0, false).unwrap();
    assert!(!request.has_fee());
}

#[test]
fn fee_is_bound_to_execution_id() {
    let engine = Engine::load().unwrap();
    let (key, _) = sample_account();
    let request = Credits::claim_unbond_public(&engine, &key, 167230, false).unwrap();
    let wire = request.to_wire_bytes().unwrap();

    // Read the wire form back with the engine's own serialization.
    let value: serde_json::Value = serde_json::from_slice(&wire).unwrap();
    let function: Authorization<Testnet3> =
        serde_json::from_value(value.get("function").unwrap().clone()).unwrap();
    let fee: Authorization<Testnet3> =
        serde_json::from_value(value.get("fee").unwrap().clone()).unwrap();

    // The fee request's third input is the execution identifier it is
    // bound to; it must be the function authorization's own.
    let execution_id = function.to_execution_id().unwrap();
    let fee_request = fee.get(0).unwrap();
    assert_eq!(fee_request.inputs()[2].to_string(), execution_id.to_string());
}
