//! Expansion of multi-key signature layouts.
//!
//! Given one transaction's signature envelope, the library decides whether it
//! carries a single-sender multi-key authorization and, if so, emits one flat
//! record per declared public key: its scheme label, hex-encoded key material,
//! slot position, the signing threshold, and whether that slot contributed a
//! signature.

pub mod envelope;
pub mod hexstr;
pub mod layout;
