use vstd::prelude::*;
use crate::errors::CreditsError;

verus! {

/// The static fee table: the known base execution cost, in microcredits, of
/// each supported (program, function) pair, and `None` for every other pair.
pub open spec fn spec_base_fee(program_id: Seq<char>, function_name: Seq<char>) -> Option<u64> {
    if program_id == "credits.aleo"@ {
        if function_name == "bond_public"@ {
            Some(843880u64)
        } else if function_name == "claim_unbond_public"@ {
            Some(167230u64)
        } else if function_name == "set_validator_state"@ {
            Some(128275u64)
        } else if function_name == "transfer_public"@ {
            Some(263388u64)
        } else if function_name == "transfer_public_to_private"@ {
            Some(136587u64)
        } else if function_name == "unbond_delegator_as_validator"@ {
            Some(324857u64)
        } else if function_name == "unbond_public"@ {
            Some(1233777u64)
        } else {
            None
        }
    } else {
        None
    }
}

/// Relies on str's `PartialEq`: two string slices are equal exactly when
/// their character sequences are.
#[verifier::external_body]
fn str_eq(a: &str, b: &str) -> (r: bool)
    ensures
        r == (a@ == b@),
{
    a == b
}

/// Retrieves the base fee in microcredits for a given program and function.
///
/// Pure and total over the fixed known set; any other pair fails with
/// `UnknownOperation`. This table is a cross-check used by verification and
/// testing, never by the construction path itself.
pub fn get_base_fee_in_microcredits(program_id: &str, function_name: &str) -> (r: Result<
    u64,
    CreditsError,
>)
    ensures
        (match r {
            Ok(fee) => spec_base_fee(program_id@, function_name@) == Some(fee),
            Err(e) => spec_base_fee(program_id@, function_name@) is None && (e matches
            CreditsError::UnknownOperation { program_id: p, function_name: f } && p@
                == program_id@ && f@ == function_name@),
        }),
{
    if str_eq(program_id, "credits.aleo") {
        if str_eq(function_name, "bond_public") {
            Ok(843880u64)
        } else if str_eq(function_name, "claim_unbond_public") {
            Ok(167230u64)
        } else if str_eq(function_name, "set_validator_state") {
            Ok(128275u64)
        } else if str_eq(function_name, "transfer_public") {
            Ok(263388u64)
        } else if str_eq(function_name, "transfer_public_to_private") {
            Ok(136587u64)
        } else if str_eq(function_name, "unbond_delegator_as_validator") {
            Ok(324857u64)
        } else if str_eq(function_name, "unbond_public") {
            Ok(1233777u64)
        } else {
            Err(CreditsError::UnknownOperation {
                program_id: program_id.to_owned(),
                function_name: function_name.to_owned(),
            })
        }
    } else {
        Err(CreditsError::UnknownOperation {
            program_id: program_id.to_owned(),
            function_name: function_name.to_owned(),
        })
    }
}

} // verus!
