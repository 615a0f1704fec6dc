//! Authorization checks: record ownership by the executing program,
//! presence of a signer proof, and identity of the signer against the
//! identity stored on the record acted on. Every mutation is preceded by
//! these checks.

use vstd::prelude::*;

use crate::errors::DaoError;
use crate::records::Identity;

verus! {

/// Fails when the record's declared owning program is not the executing
/// program.
pub fn check_record_owner(record_owner: &Identity, program_id: &Identity) -> (r: Result<
    (),
    DaoError,
>)
    ensures
        r is Ok <==> *record_owner == *program_id,
        r matches Err(e) ==> e == DaoError::WrongOwningProgram,
{
    if record_owner == program_id {
        Ok(())
    } else {
        Err(DaoError::WrongOwningProgram)
    }
}

/// Fails when the required signer proof is absent.
pub fn check_signer(is_signer: bool) -> (r: Result<(), DaoError>)
    ensures
        r is Ok <==> is_signer,
        r matches Err(e) ==> e == DaoError::MissingAuthorization,
{
    if is_signer {
        Ok(())
    } else {
        Err(DaoError::MissingAuthorization)
    }
}

/// Fails when the proved identity differs from the identity the record
/// expects.
pub fn check_identity(expected: &Identity, proved: &Identity) -> (r: Result<(), DaoError>)
    ensures
        r is Ok <==> *expected == *proved,
        r matches Err(e) ==> e == DaoError::AuthorizationMismatch,
{
    if expected == proved {
        Ok(())
    } else {
        Err(DaoError::AuthorizationMismatch)
    }
}

} // verus!
