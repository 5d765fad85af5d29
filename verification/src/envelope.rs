//! The library's model of a transaction signature envelope.
//!
//! Each level mirrors one union of the wire representation. A level whose
//! wire form is an optional field is an `Option` here, so that an absent
//! required sub-field can be reported instead of assumed present.

use vstd::prelude::*;

verus! {

/// One public key declared in a multi-key layout: the scheme tag as it
/// appears on the wire, and the raw key bytes.
#[derive(Clone, Debug)]
pub struct AnyPublicKey {
    pub scheme_tag: i32,
    pub public_key: Vec<u8>,
}

/// One contributing signature. Only the key-slot index is consumed here; the
/// signature bytes themselves are never read.
#[derive(Clone, Debug)]
pub struct IndexedSignature {
    pub index: u32,
}

/// A resolved multi-key signature payload: the declared keys in canonical
/// order, the signatures that actually contributed, and the threshold K.
#[derive(Clone, Debug)]
pub struct MultiKeyPayload {
    pub public_keys: Vec<AnyPublicKey>,
    pub signatures: Vec<IndexedSignature>,
    pub signatures_required: u32,
}

/// The account-level signature union. Only the multi-key variant is
/// consumed; every other variant is collapsed into `Other`.
#[derive(Clone, Debug)]
pub enum AccountSignatureKind {
    MultiKey(MultiKeyPayload),
    Other,
}

/// An account-level signature; its union field is optional on the wire.
#[derive(Clone, Debug)]
pub struct AccountSignature {
    pub signature: Option<AccountSignatureKind>,
}

/// The single-sender wrapper; its sender signature is optional on the wire.
#[derive(Clone, Debug)]
pub struct SingleSenderPayload {
    pub sender: Option<AccountSignature>,
}

/// The transaction-level signature union. Only the single-sender variant is
/// consumed; every other variant is collapsed into `Other`.
#[derive(Clone, Debug)]
pub enum TransactionSignatureKind {
    SingleSender(SingleSenderPayload),
    Other,
}

/// A transaction-level signature envelope; its union field is optional on
/// the wire.
#[derive(Clone, Debug)]
pub struct SignatureEnvelope {
    pub signature: Option<TransactionSignatureKind>,
}

/// The multi-key payload the envelope carries, if the envelope is a
/// single-sender multi-key authorization.
pub open spec fn envelope_payload(env: SignatureEnvelope) -> Option<MultiKeyPayload> {
    match env.signature {
        Some(TransactionSignatureKind::SingleSender(single)) => match single.sender {
            Some(account) => match account.signature {
                Some(AccountSignatureKind::MultiKey(payload)) => Some(payload),
                _ => None,
            },
            None => None,
        },
        _ => None,
    }
}

/// Whether a sub-field that the wire format requires is absent: either the
/// transaction-level union itself, or the sender inside a single-sender
/// envelope.
pub open spec fn envelope_malformed(env: SignatureEnvelope) -> bool {
    match env.signature {
        None => true,
        Some(TransactionSignatureKind::SingleSender(single)) => single.sender is None,
        Some(TransactionSignatureKind::Other) => false,
    }
}

} // verus!
