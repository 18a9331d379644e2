use credits::{get_base_fee_in_microcredits, CreditsError};

#[test]
fn base_fee_transfer_public() {
    assert_eq!(
        get_base_fee_in_microcredits("credits.aleo", "transfer_public").unwrap(),
        263388
    );
}

#[test]
fn base_fee_unknown_function() {
    let r = get_base_fee_in_microcredits("credits.aleo", "unknown_fn");
    assert!(matches!(
        r,
        Err(CreditsError::UnknownOperation { .. })
    ));
}

#[test]
fn base_fee_unknown_function_carries_names() {
    match get_base_fee_in_microcredits("credits.aleo", "unknown_fn") {
        Err(CreditsError::UnknownOperation { program_id, function_name }) => {
            assert_eq!(program_id, "credits.aleo");
            assert_eq!(function_name, "unknown_fn");
        }
        _ => panic!("expected an UnknownOperation error"),
    }
}

#[test]
fn base_fee_unknown_program() {
    let r = get_base_fee_in_microcredits("other.aleo", "transfer_public");
    assert!(matches!(
        r,
        Err(CreditsError::UnknownOperation { .. })
    ));
}

#[test]
fn base_fee_known_set() {
    let expected: [(&str, u64); 7] = [
        ("bond_public", 843880),
        ("claim_unbond_public", 167230),
        ("set_validator_state", 128275),
        ("transfer_public", 263388),
        ("transfer_public_to_private", 136587),
        ("unbond_delegator_as_validator", 324857),
        ("unbond_public", 1233777),
    ];
    for (name, fee) in expected {
        assert_eq!(get_base_fee_in_microcredits("credits.aleo", name).unwrap(), fee);
    }
}
