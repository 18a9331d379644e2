//! The execution engine: the long-lived, read-only handle that authorizes
//! function calls and fee payments, and the trusted boundary to it.
//!
//! Everything cryptographic is delegated to snarkVM. The snarkVM values
//! (keys, addresses, authorizations, identifiers) are opaque here: each is
//! held inside a handle struct whose contents only the trusted wrappers
//! touch. Beside the handle, each carries a ghost model — the string a key
//! or address was parsed from, the call an authorization consents to, an
//! abstract name for an execution identifier — and the wrappers' contracts
//! say how the engine's calls relate those models. Each item below that
//! carries `external_body` is believed on the strength of the snarkVM
//! function its doc comment names.

use vstd::prelude::*;

verus! {

/// The network that every operation of this library targets.
pub type MainNetwork = snarkvm::console::network::Testnet3;

#[verifier::external_type_specification]
#[verifier::external_body]
pub struct ExAnyhowError(anyhow::Error);

#[verifier::external_type_specification]
#[verifier::external_body]
pub struct ExSerdeJsonError(serde_json::Error);

/// The model of one typed argument of an operation: an address by the
/// string it was parsed from, an integer or boolean by its value, a field
/// element by the abstract name of the identifier it carries.
pub enum ArgShape {
    AddressArg(Seq<char>),
    U64Arg(u64),
    BoolArg(bool),
    FieldArg(int),
}

/// The model of the call an authorization consents to: who signs it, and
/// the program, function and ordered arguments it invokes.
pub struct CallShape {
    pub signer: Seq<char>,
    pub program_id: Seq<char>,
    pub function_name: Seq<char>,
    pub args: Seq<ArgShape>,
}

/// The models of a sequence of input values.
pub open spec fn args_of(inputs: Seq<InputValue>) -> Seq<ArgShape> {
    inputs.map_values(|v: InputValue| v.spec_shape())
}

/// The call shape of a public fee payment: `credits.aleo/fee_public` with
/// the base fee amount, a zero priority fee, and the execution identifier
/// the payment is bound to.
pub open spec fn fee_call_shape(signer: Seq<char>, amount: u64, bound: int) -> CallShape {
    CallShape {
        signer,
        program_id: "credits.aleo"@,
        function_name: "fee_public"@,
        args: seq![ArgShape::U64Arg(amount), ArgShape::U64Arg(0u64), ArgShape::FieldArg(bound)],
    }
}

#[verifier::external_body]
struct KeyHandle {
    inner: snarkvm::console::account::PrivateKey<MainNetwork>,
}

#[verifier::external_body]
struct AddressHandle {
    inner: snarkvm::console::types::Address<MainNetwork>,
}

#[verifier::external_body]
struct AuthorizationHandle {
    inner: snarkvm::synthesizer::Authorization<MainNetwork>,
}

#[verifier::external_body]
struct FieldHandle {
    inner: snarkvm::console::types::Field<MainNetwork>,
}

#[verifier::external_body]
struct ValueHandle {
    inner: snarkvm::console::program::Value<MainNetwork>,
}

/// An account private key, parsed and opaque; its model is the string it
/// was parsed from.
pub struct AccountPrivateKey {
    handle: KeyHandle,
    text: Ghost<Seq<char>>,
}

impl AccountPrivateKey {
    /// The canonical string form of this key.
    pub closed spec fn spec_text(&self) -> Seq<char> {
        self.text@
    }
}

/// An account address, parsed and opaque; its model is the string it was
/// parsed from.
pub struct AccountAddress {
    handle: AddressHandle,
    text: Ghost<Seq<char>>,
}

impl AccountAddress {
    /// The canonical string form of this address.
    pub closed spec fn spec_text(&self) -> Seq<char> {
        self.text@
    }
}

/// A cryptographic proof-of-intent for one function call or fee payment,
/// produced by the engine and opaque to everything but it.
pub struct FunctionAuthorization {
    handle: AuthorizationHandle,
    call: Ghost<CallShape>,
    exec_id: Ghost<int>,
}

impl FunctionAuthorization {
    /// The call this authorization consents to.
    pub closed spec fn spec_call(&self) -> CallShape {
        self.call@
    }

    /// An abstract name for the execution identifier derived from this
    /// authorization.
    pub closed spec fn spec_exec_id(&self) -> int {
        self.exec_id@
    }
}

/// The identifier that commits to one exact execution; a fee authorization
/// bound to it cannot be replayed against another call. Its model is the
/// abstract name of the authorization's identifier it was derived from.
pub struct ExecutionId {
    handle: FieldHandle,
    tag: Ghost<int>,
}

impl ExecutionId {
    /// The abstract name of this identifier.
    pub closed spec fn spec_tag(&self) -> int {
        self.tag@
    }
}

/// One typed input value of an operation, with its model.
pub struct InputValue {
    handle: ValueHandle,
    shape: Ghost<ArgShape>,
}

impl InputValue {
    /// What this value holds.
    pub closed spec fn spec_shape(&self) -> ArgShape {
        self.shape@
    }
}

/// A finalized transaction, as the ledger defines it; round-tripped, never
/// inspected.
#[verifier::external_body]
pub struct LedgerTransaction {
    inner: snarkvm::ledger::block::Transaction<MainNetwork>,
}

/// The long-lived execution engine handle. Loading is expensive; the
/// handle is immutable afterwards and is shared, by reference, across any
/// number of builder calls.
#[verifier::external_body]
pub struct Engine {
    process: snarkvm::synthesizer::Process<MainNetwork>,
}

/// Whether a string is a well-formed private key: the exact set of strings
/// that snarkVM's `PrivateKey::from_str` accepts. Parsing is a function of
/// the string alone.
pub uninterp spec fn private_key_ok(s: Seq<char>) -> bool;

/// Whether a string is a well-formed address: the exact set of strings
/// that snarkVM's `Address::from_str` accepts. Parsing is a function of
/// the string alone.
pub uninterp spec fn address_ok(s: Seq<char>) -> bool;

/// Whether a byte sequence is the JSON form of an authorization: the exact
/// set of inputs that snarkVM's `Authorization` deserialization accepts.
/// Decoding is a function of the bytes alone.
pub uninterp spec fn auth_json_ok(b: Seq<u8>) -> bool;

/// Whether a byte sequence is the JSON form of a transaction: the exact
/// set of inputs that snarkVM's `Transaction` deserialization accepts.
/// Decoding is a function of the bytes alone.
pub uninterp spec fn txn_json_ok(b: Seq<u8>) -> bool;

/// The text that a byte sequence reads as, with invalid UTF-8 replaced:
/// what `String::from_utf8_lossy` returns, a function of the bytes alone.
pub uninterp spec fn text_of_bytes(b: Seq<u8>) -> Seq<char>;

/// A ghost value about which nothing is known; the trusted wrappers use
/// it to populate the models their contracts then pin down.
fn ghost_unknown<A>() -> Ghost<A> {
    Ghost(vstd::pervasive::arbitrary())
}

/// Relies on `PrivateKey::from_str` (snarkVM): it parses a base58 private
/// key string, deterministically, succeeding exactly on the well-formed
/// ones; the parsed key's model is that string.
#[verifier::external_body]
pub(crate) fn parse_private_key(s: &str) -> (r: Result<AccountPrivateKey, anyhow::Error>)
    ensures
        r is Ok <==> private_key_ok(s@),
        r matches Ok(k) ==> k.spec_text() == s@,
{
    match core::str::FromStr::from_str(s) {
        Ok(inner) => Ok(AccountPrivateKey { handle: KeyHandle { inner }, text: ghost_unknown() }),
        Err(e) => Err(e),
    }
}

/// Relies on `Address::from_str` (snarkVM): it parses an address string,
/// deterministically, succeeding exactly on the well-formed ones; the
/// parsed address's model is that string.
#[verifier::external_body]
pub(crate) fn parse_address(s: &str) -> (r: Result<AccountAddress, anyhow::Error>)
    ensures
        r is Ok <==> address_ok(s@),
        r matches Ok(a) ==> a.spec_text() == s@,
{
    match core::str::FromStr::from_str(s) {
        Ok(inner) => Ok(
            AccountAddress { handle: AddressHandle { inner }, text: ghost_unknown() },
        ),
        Err(e) => Err(e),
    }
}

/// Relies on `Display` of `anyhow::Error`: the error's message text.
#[verifier::external_body]
pub(crate) fn error_text(e: &anyhow::Error) -> String {
    format!("{e}")
}

/// Relies on `Display` of `serde_json::Error`: the error's message text.
#[verifier::external_body]
pub(crate) fn serde_error_text(e: &serde_json::Error) -> String {
    format!("{e}")
}

/// Relies on `Value::from` and `Literal::Address` (snarkVM): wraps an
/// address as a typed input value holding exactly that address.
#[verifier::external_body]
pub(crate) fn value_from_address(a: AccountAddress) -> (r: InputValue)
    ensures
        r.spec_shape() == ArgShape::AddressArg(a.spec_text()),
{
    InputValue {
        handle: ValueHandle {
            inner: snarkvm::console::program::Value::from(
                snarkvm::console::program::Literal::Address(a.handle.inner),
            ),
        },
        shape: ghost_unknown(),
    }
}

/// Relies on `Value::from`, `Literal::U64` and `U64::new` (snarkVM): wraps
/// an unsigned 64-bit integer as a typed input value holding exactly it.
#[verifier::external_body]
pub(crate) fn value_from_u64(x: u64) -> (r: InputValue)
    ensures
        r.spec_shape() == ArgShape::U64Arg(x),
{
    InputValue {
        handle: ValueHandle {
            inner: snarkvm::console::program::Value::from(
                snarkvm::console::program::Literal::U64(snarkvm::console::types::U64::new(x)),
            ),
        },
        shape: ghost_unknown(),
    }
}

/// Relies on `Value::from`, `Literal::Boolean` and `Boolean::new`
/// (snarkVM): wraps a boolean as a typed input value holding exactly it.
#[verifier::external_body]
pub(crate) fn value_from_bool(x: bool) -> (r: InputValue)
    ensures
        r.spec_shape() == ArgShape::BoolArg(x),
{
    InputValue {
        handle: ValueHandle {
            inner: snarkvm::console::program::Value::from(
                snarkvm::console::program::Literal::Boolean(
                    snarkvm::console::types::Boolean::new(x),
                ),
            ),
        },
        shape: ghost_unknown(),
    }
}

/// Relies on `Process::load` (snarkVM): it initializes a process holding
/// the `credits.aleo` program and its verifying keys.
#[verifier::external_body]
fn load_process() -> Result<Engine, anyhow::Error> {
    Ok(Engine { process: snarkvm::synthesizer::Process::load()? })
}

impl Engine {
    /// Initializes the execution engine. Expensive: do it once and share
    /// the handle.
    pub fn load() -> (r: Result<Engine, crate::errors::CreditsError>)
        ensures
            r is Err ==> r->Err_0 is AuthorizationFailed,
    {
        match load_process() {
            Ok(engine) => Ok(engine),
            Err(e) => Err(crate::errors::CreditsError::AuthorizationFailed(error_text(&e))),
        }
    }
}

/// Relies on `Process::authorize` (snarkVM): it produces a fresh
/// authorization that consents to one call of exactly the named program
/// and function with exactly the given inputs, in order, signed by the
/// key — or fails. The result also depends on the engine's own
/// randomness: two calls on the same arguments differ, and nothing is
/// promised about success or about the identifier of the fresh
/// authorization.
#[verifier::external_body]
pub(crate) fn authorize_call(
    engine: &Engine,
    key: &AccountPrivateKey,
    program_id: &str,
    function_name: &str,
    inputs: Vec<InputValue>,
) -> (r: Result<FunctionAuthorization, anyhow::Error>)
    ensures
        r matches Ok(a) ==> a.spec_call() == (CallShape {
            signer: key.spec_text(),
            program_id: program_id@,
            function_name: function_name@,
            args: args_of(inputs@),
        }),
{
    Ok(
        FunctionAuthorization {
            handle: AuthorizationHandle {
                inner: engine.process.authorize::<snarkvm::circuit::AleoV0, _>(
                    &key.handle.inner,
                    program_id,
                    function_name,
                    inputs.into_iter().map(|v| v.handle.inner),
                    &mut rand::thread_rng(),
                )?,
            },
            call: ghost_unknown(),
            exec_id: ghost_unknown(),
        },
    )
}

/// Relies on `Authorization::to_execution_id` (snarkVM): it derives the
/// identifier that commits to this exact execution — the returned
/// identifier is the authorization's own.
#[verifier::external_body]
pub(crate) fn execution_id_of(auth: &FunctionAuthorization) -> (r: Result<
    ExecutionId,
    anyhow::Error,
>)
    ensures
        r matches Ok(id) ==> id.spec_tag() == auth.spec_exec_id(),
{
    Ok(
        ExecutionId {
            handle: FieldHandle { inner: auth.handle.inner.to_execution_id()? },
            tag: ghost_unknown(),
        },
    )
}

/// Relies on `Process::authorize_fee_public` (snarkVM): it produces a
/// fresh authorization that consents to a `credits.aleo/fee_public` call
/// paying the given amount as base fee with zero priority fee, bound to
/// exactly the given execution identifier, signed by the key — or fails.
#[verifier::external_body]
pub(crate) fn authorize_fee(
    engine: &Engine,
    key: &AccountPrivateKey,
    fee_in_microcredits: u64,
    execution_id: ExecutionId,
) -> (r: Result<FunctionAuthorization, anyhow::Error>)
    ensures
        r matches Ok(a) ==> a.spec_call() == fee_call_shape(
            key.spec_text(),
            fee_in_microcredits,
            execution_id.spec_tag(),
        ),
{
    Ok(
        FunctionAuthorization {
            handle: AuthorizationHandle {
                inner: engine.process.authorize_fee_public::<snarkvm::circuit::AleoV0, _>(
                    &key.handle.inner,
                    fee_in_microcredits,
                    0,
                    execution_id.handle.inner,
                    &mut rand::thread_rng(),
                )?,
            },
            call: ghost_unknown(),
            exec_id: ghost_unknown(),
        },
    )
}

/// Relies on `serde_json::to_vec` and on `Authorization`'s `Serialize` and
/// `Deserialize` (snarkVM): the output is the authorization rendered as
/// one complete JSON object with no leading or trailing padding — so a
/// value scan from its first byte consumes it whole — and that rendering
/// is read back by the authorization's own deserialization.
#[verifier::external_body]
pub(crate) fn auth_to_json_bytes(auth: &FunctionAuthorization) -> (r: Result<
    Vec<u8>,
    serde_json::Error,
>)
    ensures
        r matches Ok(b) ==> crate::codec::json_payload(b@),
        r matches Ok(b) ==> auth_json_ok(b@),
{
    serde_json::to_vec(&auth.handle.inner)
}

/// Relies on `serde_json::from_slice` and on `Authorization`'s
/// `Deserialize` (snarkVM): it decodes an authorization from its JSON
/// form, deterministically, succeeding exactly on the well-formed inputs;
/// nothing is known of the decoded value's model.
#[verifier::external_body]
pub(crate) fn auth_from_json_bytes(bytes: &[u8]) -> (r: Result<
    FunctionAuthorization,
    serde_json::Error,
>)
    ensures
        r is Ok <==> auth_json_ok(bytes@),
{
    Ok(
        FunctionAuthorization {
            handle: AuthorizationHandle { inner: serde_json::from_slice(bytes)? },
            call: ghost_unknown(),
            exec_id: ghost_unknown(),
        },
    )
}

/// Relies on `serde_json::from_slice` and on `Transaction`'s `Deserialize`
/// (snarkVM): it decodes a transaction from its JSON form,
/// deterministically, succeeding exactly on the well-formed inputs.
#[verifier::external_body]
pub(crate) fn transaction_from_json_bytes(bytes: &[u8]) -> (r: Result<
    LedgerTransaction,
    serde_json::Error,
>)
    ensures
        r is Ok <==> txn_json_ok(bytes@),
{
    Ok(LedgerTransaction { inner: serde_json::from_slice(bytes)? })
}

/// Relies on `serde_json::to_vec` and on `Transaction`'s `Serialize`
/// (snarkVM): it renders a transaction as JSON.
#[verifier::external_body]
pub(crate) fn transaction_to_json_bytes(t: &LedgerTransaction) -> Result<
    Vec<u8>,
    serde_json::Error,
> {
    serde_json::to_vec(&t.inner)
}

/// Relies on `Authorization::clone` (snarkVM): a second handle to the same
/// authorization (the derived clone shares the underlying state, which
/// nothing here mutates), so the model is unchanged.
#[verifier::external_body]
pub(crate) fn clone_authorization(auth: &FunctionAuthorization) -> (r: FunctionAuthorization)
    ensures
        r.spec_call() == auth.spec_call(),
        r.spec_exec_id() == auth.spec_exec_id(),
{
    FunctionAuthorization {
        handle: AuthorizationHandle { inner: auth.handle.inner.clone() },
        call: ghost_unknown(),
        exec_id: ghost_unknown(),
    }
}

impl LedgerTransaction {
    /// Renders the transaction as its canonical JSON bytes.
    pub fn to_json_bytes(&self) -> (r: Result<Vec<u8>, crate::errors::CreditsError>)
        ensures
            r matches Err(e) ==> e is SerializationError,
    {
        match transaction_to_json_bytes(self) {
            Ok(b) => Ok(b),
            Err(e) => Err(crate::errors::CreditsError::SerializationError(serde_error_text(&e))),
        }
    }
}

/// Relies on `String::from_utf8_lossy`: the text the bytes read as, a
/// deterministic function of the bytes.
#[verifier::external_body]
pub(crate) fn bytes_to_text(bytes: &[u8]) -> (r: String)
    ensures
        r@ == text_of_bytes(bytes@),
{
    String::from_utf8_lossy(bytes).into_owned()
}

} // verus!
