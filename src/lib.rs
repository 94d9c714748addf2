//! Two-round MuSig2 multi-signatures over Ed25519, with two nonces per signer.
//!
//! Points and scalars travel as their canonical 32-byte encodings. The curve
//! arithmetic and the hash-to-scalar primitive come from `curv`; key
//! aggregation, nonce derivation, nonce binding and the signing arithmetic
//! are verified here against their specifications.
#![allow(non_snake_case)]

pub mod curve;
pub mod ordering;
pub mod musig;
pub mod laws;


pub use musig::{
    aggregate_partial_signatures, aggregate_signatures, generate_partial_nonces, partial_sign, ExpandedKeyPair,
    MusigError, PartialNonces, PartialSignature, PublicKeyAgg, Signature,
};
