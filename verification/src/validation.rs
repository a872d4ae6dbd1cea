//! A standalone check of a single candidate against the alias grammar,
//! reporting the library's invalid-alias error on failure.

use vstd::prelude::*;

use crate::alias::is_valid_alias;
use crate::alias::valid_alias;
use crate::error::ErrorWrapper;

verus! {

/// Check one candidate against the alias grammar: `Ok` exactly when it is a
/// valid alias, otherwise the invalid-alias error naming the candidate.
pub fn validate_alias(alias: &str) -> (r: Result<(), ErrorWrapper>)
    ensures
        r is Ok <==> valid_alias(alias@),
        r matches Err(e) ==> e matches ErrorWrapper::InvalidAliasError { alias: a } && a@
            == alias@,
{
    if is_valid_alias(alias) {
        Ok(())
    } else {
        Err(ErrorWrapper::new_invalid_alias_error(alias))
    }
}

} // verus!
