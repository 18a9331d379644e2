//! Authorization construction for the `credits.aleo` staking and transfer
//! operations: a fixed catalog of operations, a builder that turns a private
//! key and typed arguments into a pair of cryptographic authorizations, a
//! wire format for the combined request, and a static table of base
//! execution fees.

mod errors;
mod config;
mod codec;
mod engine;
mod authorized;
mod credits;

pub use errors::CreditsError;
pub use config::get_base_fee_in_microcredits;
pub use config::spec_base_fee;
pub use engine::Engine;
pub use engine::MainNetwork;
pub use engine::AccountPrivateKey;
pub use engine::AccountAddress;
pub use engine::FunctionAuthorization;
pub use engine::ExecutionId;
pub use engine::InputValue;
pub use engine::LedgerTransaction;
pub use authorized::Authorized;
pub use codec::encode_envelope;
pub use codec::parse_envelope;
pub use codec::json_payload;
pub use codec::spec_encode_envelope;
pub use codec::spec_parse_envelope;
pub use codec::lemma_envelope_round_trip;
pub use credits::Credits;
pub use credits::built_request_ok;
pub use authorized::interpret_execute_response;
pub use engine::private_key_ok;
pub use engine::address_ok;
pub use engine::auth_json_ok;
pub use engine::txn_json_ok;
pub use engine::text_of_bytes;
pub use engine::ArgShape;
pub use engine::CallShape;
pub use engine::args_of;
pub use engine::fee_call_shape;
pub use credits::authorized_request_shape;
