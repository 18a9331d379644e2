//! The authorized request: a function authorization, an optional fee
//! authorization bound to it, and the broadcast intent flag, together with
//! its canonical wire form and the interpretation of a remote execution
//! response.

use vstd::prelude::*;
use crate::codec;
use crate::engine;
use crate::errors::CreditsError;

verus! {

/// A fully authorized request: the function authorization (required), the
/// fee authorization (present exactly when a non-zero fee was asked for),
/// and the broadcast flag carried through to the remote service. Built
/// once, immutable afterwards.
pub struct Authorized {
    /// The authorization for the main function execution.
    function: engine::FunctionAuthorization,
    /// The authorization for the fee execution.
    fee: Option<engine::FunctionAuthorization>,
    /// Whether to broadcast the transaction.
    broadcast: bool,
}

impl Authorized {
    /// The broadcast flag this request carries.
    pub closed spec fn spec_broadcast(&self) -> bool {
        self.broadcast
    }

    /// Whether this request carries a fee authorization.
    pub closed spec fn spec_has_fee(&self) -> bool {
        self.fee is Some
    }

    /// The function authorization this request carries.
    pub closed spec fn spec_function(&self) -> engine::FunctionAuthorization {
        self.function
    }

    /// The fee authorization this request carries, if any.
    pub closed spec fn spec_fee(&self) -> Option<engine::FunctionAuthorization> {
        self.fee
    }

    /// Initializes a new authorized request: it stores exactly the given
    /// authorizations and flag, unexamined — the binding of the fee to the
    /// function is the builder's guarantee, not checked here.
    pub fn new(
        function: engine::FunctionAuthorization,
        fee: Option<engine::FunctionAuthorization>,
        broadcast: bool,
    ) -> (r: Self)
        ensures
            r.spec_function() == function,
            r.spec_fee() == fee,
            r.spec_broadcast() == broadcast,
            r.spec_has_fee() == (fee is Some),
    {
        Self { function, fee, broadcast }
    }

    /// The broadcast flag this request carries.
    pub fn broadcast(&self) -> (r: bool)
        ensures
            r == self.spec_broadcast(),
    {
        self.broadcast
    }

    /// Whether this request carries a fee authorization.
    pub fn has_fee(&self) -> (r: bool)
        ensures
            r == self.spec_has_fee(),
    {
        self.fee.is_some()
    }

    /// Takes the request apart into the function authorization, the fee
    /// authorization, and the broadcast flag.
    pub fn into_parts(self) -> (r: (
        engine::FunctionAuthorization,
        Option<engine::FunctionAuthorization>,
        bool,
    ))
        ensures
            r.0 == self.spec_function(),
            r.1 == self.spec_fee(),
            (r.1 is Some) == self.spec_has_fee(),
            r.2 == self.spec_broadcast(),
    {
        (self.function, self.fee, self.broadcast)
    }

    /// A copy of the request, for a caller that needs several dispatch
    /// attempts: dispatching consumes a request. The copy carries the same
    /// flag and authorizations for the same calls.
    pub fn duplicate(&self) -> (r: Self)
        ensures
            r.spec_broadcast() == self.spec_broadcast(),
            r.spec_has_fee() == self.spec_has_fee(),
            r.spec_function().spec_call() == self.spec_function().spec_call(),
            r.spec_function().spec_exec_id() == self.spec_function().spec_exec_id(),
            (self.spec_fee() matches Some(f) ==> (r.spec_fee() matches Some(g) && g.spec_call()
                == f.spec_call() && g.spec_exec_id() == f.spec_exec_id())),
    {
        let fee = match &self.fee {
            Some(a) => Some(engine::clone_authorization(a)),
            None => None,
        };
        Authorized {
            function: engine::clone_authorization(&self.function),
            fee,
            broadcast: self.broadcast,
        }
    }

    /// Serializes the request into its canonical wire form: the canonical
    /// envelope of the two authorization payloads — so the fee key is
    /// present exactly when the request carries a fee, the members stand
    /// in the order `function`, `fee`, `broadcast`, and no other member
    /// appears — and decoding the bytes again succeeds and recovers the
    /// same broadcast flag and fee presence.
    pub fn to_wire_bytes(&self) -> (r: Result<Vec<u8>, CreditsError>)
        ensures
            (match r {
                Ok(w) => {
                    &&& codec::spec_parse_envelope(w@) matches Some(env) && env.2
                        == self.spec_broadcast() && ((env.1 is Some) <==> self.spec_has_fee())
                        && engine::auth_json_ok(env.0) && (env.1 matches Some(p)
                        ==> engine::auth_json_ok(p))
                    &&& exists|f: Seq<u8>, p: Option<Seq<u8>>|
                        {
                            &&& codec::json_payload(f)
                            &&& (p matches Some(pp) ==> codec::json_payload(pp))
                            &&& (p is Some) == self.spec_has_fee()
                            &&& w@ == #[trigger] codec::spec_encode_envelope(
                                f,
                                p,
                                self.spec_broadcast(),
                            )
                        }
                },
                Err(e) => e is SerializationError,
            }),
    {
        let fbytes = match engine::auth_to_json_bytes(&self.function) {
            Ok(b) => b,
            Err(e) => {
                return Err(CreditsError::SerializationError(engine::serde_error_text(&e)));
            },
        };
        let feebytes: Option<Vec<u8>> = match &self.fee {
            Some(a) => match engine::auth_to_json_bytes(a) {
                Ok(b) => Some(b),
                Err(e) => {
                    return Err(CreditsError::SerializationError(engine::serde_error_text(&e)));
                },
            },
            None => None,
        };
        let wire = codec::encode_envelope(&fbytes, &feebytes, self.broadcast);
        proof {
            let fo = match feebytes {
                Some(b) => Some(b@),
                None => None,
            };
            codec::lemma_envelope_round_trip(fbytes@, fo, self.broadcast);
            assert(wire@ == codec::spec_encode_envelope(fbytes@, fo, self.spec_broadcast()));
        }
        Ok(wire)
    }

    /// Deserializes a request from its wire form. Succeeds if and only if
    /// the envelope decodes (any member order, whitespace tolerated, a
    /// `null` fee counting as absent) and each payload is a well-formed
    /// authorization; the recovered broadcast flag and fee presence are
    /// the envelope's. Everything else — a missing or malformed `function`
    /// or `broadcast` member, or an unreadable payload — is a
    /// `SerializationError`, never a panic.
    pub fn from_wire_bytes(s: &[u8]) -> (r: Result<Authorized, CreditsError>)
        ensures
            (match r {
                Ok(a) => codec::spec_parse_envelope(s@) matches Some(env) && a.spec_broadcast()
                    == env.2 && (a.spec_has_fee() <==> (env.1 is Some)),
                Err(e) => e is SerializationError,
            }),
            r is Ok <==> (codec::spec_parse_envelope(s@) matches Some(env)
                && engine::auth_json_ok(env.0) && (env.1 matches Some(p)
                ==> engine::auth_json_ok(p))),
    {
        let (fbytes, feebytes, broadcast) = match codec::parse_envelope(s) {
            Ok(parts) => parts,
            Err(e) => {
                return Err(e);
            },
        };
        let function = match engine::auth_from_json_bytes(fbytes.as_slice()) {
            Ok(a) => a,
            Err(e) => {
                return Err(CreditsError::SerializationError(engine::serde_error_text(&e)));
            },
        };
        let fee: Option<engine::FunctionAuthorization> = match feebytes {
            Some(b) => match engine::auth_from_json_bytes(b.as_slice()) {
                Ok(a) => Some(a),
                Err(e) => {
                    return Err(CreditsError::SerializationError(engine::serde_error_text(&e)));
                },
            },
            None => None,
        };
        Ok(Authorized { function, fee, broadcast })
    }
}

/// Interprets the answer of the remote execution service: a success
/// status yields the transaction exactly when the body decodes as one,
/// and an unreadable body is a transport failure; any non-success status
/// is an `ExecutionRejected` carrying the body's text verbatim.
pub fn interpret_execute_response(success: bool, body: &[u8]) -> (r: Result<
    engine::LedgerTransaction,
    CreditsError,
>)
    ensures
        !success ==> (r matches Err(e) && (e matches CreditsError::ExecutionRejected(t) && t@
            == engine::text_of_bytes(body@))),
        success ==> (r is Ok <==> engine::txn_json_ok(body@)),
        success ==> (r matches Err(e) ==> e is TransportFailed),
{
    if !success {
        return Err(CreditsError::ExecutionRejected(engine::bytes_to_text(body)));
    }
    match engine::transaction_from_json_bytes(body) {
        Ok(t) => Ok(t),
        Err(e) => Err(CreditsError::TransportFailed(engine::serde_error_text(&e))),
    }
}

} // verus!

