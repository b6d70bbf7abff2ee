//! Rows of the authorization registry.

use vstd::prelude::*;

use crate::number::{signed_decimal, signed_decimal_text};
use crate::timestamp::Timestamp;

verus! {

/// The version of the registry's schema that the gateway works with.
pub const EXPECTED_SCHEMA_VERSION: i32 = 1;

/// A permission row, with the row of the key that signed it.
#[derive(Debug)]
pub struct CandidatePermission {
    pub permission_id: String,
    pub subject_identity: String,
    /// The subject's key that the permission is bound to. A row without one
    /// lets nobody through.
    pub subject_public_key_spki_der: Option<Vec<u8>>,
    pub destination: String,
    pub signing_key_id: String,
    pub permission_not_before: Timestamp,
    pub permission_not_after: Timestamp,
    pub signature: Vec<u8>,
    pub signer_algorithm: String,
    pub signer_public_key_spki_der: Vec<u8>,
    pub signer_not_before: Timestamp,
    pub signer_not_after: Timestamp,
    pub signer_revoked_at: Option<Timestamp>,
    /// Whether the signing key was neither revoked nor outside its validity
    /// when the row was read.
    pub signer_active_now: bool,
}

/// The text that describes a schema of another version.
pub open spec fn schema_mismatch_text(version: int) -> Seq<char> {
    "authorization registry schema version "@ + signed_decimal(version)
        + " does not match expected "@ + signed_decimal(EXPECTED_SCHEMA_VERSION as int)
}

/// Accepts the expected version of the schema, and no other.
pub fn check_schema_version(version: i32) -> (r: Result<(), String>)
    ensures
        match r {
            Ok(_) => version == EXPECTED_SCHEMA_VERSION,
            Err(e) => version != EXPECTED_SCHEMA_VERSION && e@ == schema_mismatch_text(
                version as int,
            ),
        },
{
    if version == EXPECTED_SCHEMA_VERSION {
        return Ok(());
    }
    let found = signed_decimal_text(version as i64);
    let expected = signed_decimal_text(EXPECTED_SCHEMA_VERSION as i64);
    Err(
        "authorization registry schema version ".to_owned().concat(found.as_str()).concat(
            " does not match expected ",
        ).concat(expected.as_str()),
    )
}

} // verus!
