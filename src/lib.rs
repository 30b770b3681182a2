//! A registry that admits compute workers after their attestation quote
//! has been verified, and records each admitted worker's checksum and
//! code-hash under the account that registered it.
pub mod attestation;
pub mod clock;
pub mod registry;
