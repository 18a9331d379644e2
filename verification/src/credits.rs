//! The operation catalog: one constructor per supported `credits.aleo`
//! staking or transfer operation, each validating its caller-supplied
//! values, and the builder that drives the engine to produce the function
//! authorization and, for a non-zero fee, the fee authorization bound to
//! its execution identifier.

use vstd::prelude::*;
use crate::authorized::Authorized;
use crate::engine;
use crate::engine::ArgShape;
use crate::engine::CallShape;
use crate::engine::Engine;
use crate::errors::CreditsError;

verus! {

/// The catalog of supported operations.
pub struct Credits;

/// What every constructor promises of its result: an `Ok` carries the
/// broadcast flag as given and a fee authorization exactly when the fee is
/// non-zero; an `Err` is the engine's refusal.
pub open spec fn built_request_ok(
    r: Result<Authorized, CreditsError>,
    fee_in_microcredits: u64,
    broadcast: bool,
) -> bool {
    match r {
        Ok(a) => a.spec_broadcast() == broadcast && (a.spec_has_fee() <==> fee_in_microcredits
            != 0),
        Err(e) => e is AuthorizationFailed,
    }
}

/// What a successfully built request is *for*: its function authorization
/// consents to exactly the named `credits.aleo` function with the given
/// arguments in order, signed by the given key; and its fee authorization,
/// when present, is a `fee_public` payment of the asked amount, signed by
/// the same key, bound to the function authorization's own execution
/// identifier.
pub open spec fn authorized_request_shape(
    a: Authorized,
    signer: Seq<char>,
    function_name: Seq<char>,
    args: Seq<ArgShape>,
    fee_in_microcredits: u64,
) -> bool {
    &&& a.spec_function().spec_call() == (CallShape {
        signer,
        program_id: "credits.aleo"@,
        function_name,
        args,
    })
    &&& (a.spec_fee() matches Some(f) ==> f.spec_call() == engine::fee_call_shape(
        signer,
        fee_in_microcredits,
        a.spec_function().spec_exec_id(),
    ))
}

impl Credits {
    /// Returns a request that allows any staker to bond their
    /// microcredits to a validator.
    pub fn bond_public(
        engine: &Engine,
        private_key: &str,
        validator: &str,
        amount_in_microcredits: u64,
        fee_in_microcredits: u64,
        broadcast: bool,
    ) -> (r: Result<Authorized, CreditsError>)
        ensures
            (r matches Err(e) && e is InvalidInput) <==> (!engine::private_key_ok(private_key@)
                || !engine::address_ok(validator@)),
            (engine::private_key_ok(private_key@) && engine::address_ok(validator@))
                ==> built_request_ok(r, fee_in_microcredits, broadcast),
            (r matches Ok(a) ==> authorized_request_shape(
                a,
                private_key@,
                "bond_public"@,
                seq![
                    ArgShape::AddressArg(validator@),
                    ArgShape::U64Arg(amount_in_microcredits),
                ],
                fee_in_microcredits,
            )),
    {
        let key = match engine::parse_private_key(private_key) {
            Ok(k) => k,
            Err(e) => {
                return Err(CreditsError::InvalidInput(engine::error_text(&e)));
            },
        };
        let validator_address = match engine::parse_address(validator) {
            Ok(a) => a,
            Err(e) => {
                return Err(CreditsError::InvalidInput(engine::error_text(&e)));
            },
        };
        let mut inputs: Vec<engine::InputValue> = Vec::new();
        inputs.push(engine::value_from_address(validator_address));
        inputs.push(engine::value_from_u64(amount_in_microcredits));
        proof {
            assert(engine::args_of(inputs@) =~= seq![
                ArgShape::AddressArg(validator@),
                ArgShape::U64Arg(amount_in_microcredits),
            ]);
        }
        Self::authorize(
            engine,
            &key,
            "credits.aleo",
            "bond_public",
            inputs,
            fee_in_microcredits,
            broadcast,
        )
    }

    /// Returns a request that allows any staker to unbond their
    /// microcredits from a validator.
    pub fn unbond_public(
        engine: &Engine,
        private_key: &str,
        amount_in_microcredits: u64,
        fee_in_microcredits: u64,
        broadcast: bool,
    ) -> (r: Result<Authorized, CreditsError>)
        ensures
            (r matches Err(e) && e is InvalidInput) <==> !engine::private_key_ok(private_key@),
            engine::private_key_ok(private_key@) ==> built_request_ok(
                r,
                fee_in_microcredits,
                broadcast,
            ),
            (r matches Ok(a) ==> authorized_request_shape(
                a,
                private_key@,
                "unbond_public"@,
                seq![ArgShape::U64Arg(amount_in_microcredits)],
                fee_in_microcredits,
            )),
    {
        let key = match engine::parse_private_key(private_key) {
            Ok(k) => k,
            Err(e) => {
                return Err(CreditsError::InvalidInput(engine::error_text(&e)));
            },
        };
        let mut inputs: Vec<engine::InputValue> = Vec::new();
        inputs.push(engine::value_from_u64(amount_in_microcredits));
        proof {
            assert(engine::args_of(inputs@) =~= seq![
                ArgShape::U64Arg(amount_in_microcredits),
            ]);
        }
        Self::authorize(
            engine,
            &key,
            "credits.aleo",
            "unbond_public",
            inputs,
            fee_in_microcredits,
            broadcast,
        )
    }

    /// Returns a request that allows a validator to unbond any delegator
    /// that is bonded to them.
    pub fn unbond_delegator_as_validator(
        engine: &Engine,
        private_key: &str,
        delegator: &str,
        fee_in_microcredits: u64,
        broadcast: bool,
    ) -> (r: Result<Authorized, CreditsError>)
        ensures
            (r matches Err(e) && e is InvalidInput) <==> (!engine::private_key_ok(private_key@)
                || !engine::address_ok(delegator@)),
            (engine::private_key_ok(private_key@) && engine::address_ok(delegator@))
                ==> built_request_ok(r, fee_in_microcredits, broadcast),
            (r matches Ok(a) ==> authorized_request_shape(
                a,
                private_key@,
                "unbond_delegator_as_validator"@,
                seq![ArgShape::AddressArg(delegator@)],
                fee_in_microcredits,
            )),
    {
        let key = match engine::parse_private_key(private_key) {
            Ok(k) => k,
            Err(e) => {
                return Err(CreditsError::InvalidInput(engine::error_text(&e)));
            },
        };
        let delegator_address = match engine::parse_address(delegator) {
            Ok(a) => a,
            Err(e) => {
                return Err(CreditsError::InvalidInput(engine::error_text(&e)));
            },
        };
        let mut inputs: Vec<engine::InputValue> = Vec::new();
        inputs.push(engine::value_from_address(delegator_address));
        proof {
            assert(engine::args_of(inputs@) =~= seq![ArgShape::AddressArg(delegator@)]);
        }
        Self::authorize(
            engine,
            &key,
            "credits.aleo",
            "unbond_delegator_as_validator",
            inputs,
            fee_in_microcredits,
            broadcast,
        )
    }

    /// Returns a request that allows any staker to claim their
    /// microcredits after the unbonding period.
    pub fn claim_unbond_public(
        engine: &Engine,
        private_key: &str,
        fee_in_microcredits: u64,
        broadcast: bool,
    ) -> (r: Result<Authorized, CreditsError>)
        ensures
            (r matches Err(e) && e is InvalidInput) <==> !engine::private_key_ok(private_key@),
            engine::private_key_ok(private_key@) ==> built_request_ok(
                r,
                fee_in_microcredits,
                broadcast,
            ),
            (r matches Ok(a) ==> authorized_request_shape(
                a,
                private_key@,
                "claim_unbond_public"@,
                Seq::<ArgShape>::empty(),
                fee_in_microcredits,
            )),
    {
        let key = match engine::parse_private_key(private_key) {
            Ok(k) => k,
            Err(e) => {
                return Err(CreditsError::InvalidInput(engine::error_text(&e)));
            },
        };
        let inputs: Vec<engine::InputValue> = Vec::new();
        proof {
            assert(engine::args_of(inputs@) =~= Seq::<ArgShape>::empty());
        }
        Self::authorize(
            engine,
            &key,
            "credits.aleo",
            "claim_unbond_public",
            inputs,
            fee_in_microcredits,
            broadcast,
        )
    }

    /// Returns a request that allows a validator to set their state to be
    /// either open or closed to stakers.
    pub fn set_validator_state(
        engine: &Engine,
        private_key: &str,
        is_open: bool,
        fee_in_microcredits: u64,
        broadcast: bool,
    ) -> (r: Result<Authorized, CreditsError>)
        ensures
            (r matches Err(e) && e is InvalidInput) <==> !engine::private_key_ok(private_key@),
            engine::private_key_ok(private_key@) ==> built_request_ok(
                r,
                fee_in_microcredits,
                broadcast,
            ),
            (r matches Ok(a) ==> authorized_request_shape(
                a,
                private_key@,
                "set_validator_state"@,
                seq![ArgShape::BoolArg(is_open)],
                fee_in_microcredits,
            )),
    {
        let key = match engine::parse_private_key(private_key) {
            Ok(k) => k,
            Err(e) => {
                return Err(CreditsError::InvalidInput(engine::error_text(&e)));
            },
        };
        let mut inputs: Vec<engine::InputValue> = Vec::new();
        inputs.push(engine::value_from_bool(is_open));
        proof {
            assert(engine::args_of(inputs@) =~= seq![ArgShape::BoolArg(is_open)]);
        }
        Self::authorize(
            engine,
            &key,
            "credits.aleo",
            "set_validator_state",
            inputs,
            fee_in_microcredits,
            broadcast,
        )
    }

    /// Returns a request that transfers public credits from the sender to
    /// the recipient.
    pub fn transfer_public(
        engine: &Engine,
        private_key: &str,
        recipient: &str,
        amount_in_microcredits: u64,
        fee_in_microcredits: u64,
        broadcast: bool,
    ) -> (r: Result<Authorized, CreditsError>)
        ensures
            (r matches Err(e) && e is InvalidInput) <==> (!engine::private_key_ok(private_key@)
                || !engine::address_ok(recipient@)),
            (engine::private_key_ok(private_key@) && engine::address_ok(recipient@))
                ==> built_request_ok(r, fee_in_microcredits, broadcast),
            (r matches Ok(a) ==> authorized_request_shape(
                a,
                private_key@,
                "transfer_public"@,
                seq![
                    ArgShape::AddressArg(recipient@),
                    ArgShape::U64Arg(amount_in_microcredits),
                ],
                fee_in_microcredits,
            )),
    {
        let key = match engine::parse_private_key(private_key) {
            Ok(k) => k,
            Err(e) => {
                return Err(CreditsError::InvalidInput(engine::error_text(&e)));
            },
        };
        let recipient_address = match engine::parse_address(recipient) {
            Ok(a) => a,
            Err(e) => {
                return Err(CreditsError::InvalidInput(engine::error_text(&e)));
            },
        };
        let mut inputs: Vec<engine::InputValue> = Vec::new();
        inputs.push(engine::value_from_address(recipient_address));
        inputs.push(engine::value_from_u64(amount_in_microcredits));
        proof {
            assert(engine::args_of(inputs@) =~= seq![
                ArgShape::AddressArg(recipient@),
                ArgShape::U64Arg(amount_in_microcredits),
            ]);
        }
        Self::authorize(
            engine,
            &key,
            "credits.aleo",
            "transfer_public",
            inputs,
            fee_in_microcredits,
            broadcast,
        )
    }

    /// Returns a request that converts public credits of the sender into
    /// private credits of the recipient.
    pub fn transfer_public_to_private(
        engine: &Engine,
        private_key: &str,
        recipient: &str,
        amount_in_microcredits: u64,
        fee_in_microcredits: u64,
        broadcast: bool,
    ) -> (r: Result<Authorized, CreditsError>)
        ensures
            (r matches Err(e) && e is InvalidInput) <==> (!engine::private_key_ok(private_key@)
                || !engine::address_ok(recipient@)),
            (engine::private_key_ok(private_key@) && engine::address_ok(recipient@))
                ==> built_request_ok(r, fee_in_microcredits, broadcast),
            (r matches Ok(a) ==> authorized_request_shape(
                a,
                private_key@,
                "transfer_public_to_private"@,
                seq![
                    ArgShape::AddressArg(recipient@),
                    ArgShape::U64Arg(amount_in_microcredits),
                ],
                fee_in_microcredits,
            )),
    {
        let key = match engine::parse_private_key(private_key) {
            Ok(k) => k,
            Err(e) => {
                return Err(CreditsError::InvalidInput(engine::error_text(&e)));
            },
        };
        let recipient_address = match engine::parse_address(recipient) {
            Ok(a) => a,
            Err(e) => {
                return Err(CreditsError::InvalidInput(engine::error_text(&e)));
            },
        };
        let mut inputs: Vec<engine::InputValue> = Vec::new();
        inputs.push(engine::value_from_address(recipient_address));
        inputs.push(engine::value_from_u64(amount_in_microcredits));
        proof {
            assert(engine::args_of(inputs@) =~= seq![
                ArgShape::AddressArg(recipient@),
                ArgShape::U64Arg(amount_in_microcredits),
            ]);
        }
        Self::authorize(
            engine,
            &key,
            "credits.aleo",
            "transfer_public_to_private",
            inputs,
            fee_in_microcredits,
            broadcast,
        )
    }
}

impl Credits {
    /// The builder behind every constructor: authorizes the function call,
    /// derives its execution identifier, authorizes the fee against that
    /// identifier when the fee is non-zero, and assembles the request.
    /// Either every engine call succeeds or the whole call fails; no
    /// partial request is returned.
    fn authorize(
        engine: &Engine,
        key: &engine::AccountPrivateKey,
        program_id: &str,
        function_name: &str,
        inputs: Vec<engine::InputValue>,
        fee_in_microcredits: u64,
        broadcast: bool,
    ) -> (r: Result<Authorized, CreditsError>)
        ensures
            built_request_ok(r, fee_in_microcredits, broadcast),
            (r matches Ok(a) ==> a.spec_function().spec_call() == (CallShape {
                signer: key.spec_text(),
                program_id: program_id@,
                function_name: function_name@,
                args: engine::args_of(inputs@),
            })),
            (r matches Ok(a) ==> (a.spec_fee() matches Some(f) ==> f.spec_call()
                == engine::fee_call_shape(
                key.spec_text(),
                fee_in_microcredits,
                a.spec_function().spec_exec_id(),
            ))),
    {
        // Authorize the main function.
        let function = match engine::authorize_call(engine, key, program_id, function_name, inputs)
            {
            Ok(a) => a,
            Err(e) => {
                return Err(CreditsError::AuthorizationFailed(engine::error_text(&e)));
            },
        };
        // Retrieve the execution ID.
        let execution_id = match engine::execution_id_of(&function) {
            Ok(id) => id,
            Err(e) => {
                return Err(CreditsError::AuthorizationFailed(engine::error_text(&e)));
            },
        };
        // Authorize the fee, unless the operation is fee-exempt.
        let fee = if fee_in_microcredits == 0 {
            None
        } else {
            match engine::authorize_fee(engine, key, fee_in_microcredits, execution_id) {
                Ok(a) => Some(a),
                Err(e) => {
                    return Err(CreditsError::AuthorizationFailed(engine::error_text(&e)));
                },
            }
        };
        // Construct the authorized request.
        Ok(Authorized::new(function, fee, broadcast))
    }
}

} // verus!
