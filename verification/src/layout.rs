//! Expansion of a multi-key payload into one record per declared public key.

use vstd::prelude::*;

use crate::envelope::AccountSignatureKind;
use crate::envelope::IndexedSignature;
use crate::envelope::MultiKeyPayload;
use crate::envelope::SignatureEnvelope;
use crate::envelope::TransactionSignatureKind;
use crate::envelope::envelope_malformed;
use crate::envelope::envelope_payload;
use crate::hexstr::decode_hex_spec;
use crate::hexstr::encode_hex;
use crate::hexstr::hex_of;
use crate::hexstr::lemma_hex_round_trip;

verus! {

/// The recoverable failure of the unwrapper: a sub-field the wire format
/// requires was absent.
#[derive(Clone, Copy, Debug, PartialEq, Eq, Structural)]
pub enum LayoutError {
    MalformedInput,
}

/// One persistence-ready row describing one public key of a multi-key
/// layout.
#[derive(Clone, Debug)]
pub struct MultiKeyLayout {
    pub transaction_version: i64,
    pub transaction_block_height: i64,
    pub signer: String,
    pub type_: String,
    pub public_key: String,
    pub public_key_index: i64,
    pub threshold: i64,
    pub total_public_keys: i64,
    pub is_used: bool,
}

/// The known cryptographic schemes of a public key, with a fallback for any
/// tag outside the known table.
#[derive(Clone, Copy, Debug, PartialEq, Eq, Structural)]
pub enum KeyScheme {
    Ed25519,
    Secp256k1Ecdsa,
    Secp256r1Ecdsa,
    Keyless,
    Unspecified,
}

/// The scheme a wire tag denotes. Tags outside the known table, the wire's
/// own "unspecified" tag included, fall back to `Unspecified`.
pub open spec fn scheme_of_tag(tag: i32) -> KeyScheme {
    if tag == 1 {
        KeyScheme::Ed25519
    } else if tag == 2 {
        KeyScheme::Secp256k1Ecdsa
    } else if tag == 3 {
        KeyScheme::Secp256r1Ecdsa
    } else if tag == 4 {
        KeyScheme::Keyless
    } else {
        KeyScheme::Unspecified
    }
}

/// The label recorded for each scheme.
pub open spec fn label_of_scheme(scheme: KeyScheme) -> Seq<char> {
    match scheme {
        KeyScheme::Ed25519 => "ed25519"@,
        KeyScheme::Secp256k1Ecdsa => "secp256k1_ecdsa"@,
        KeyScheme::Secp256r1Ecdsa => "secp256r1_ecdsa"@,
        KeyScheme::Keyless => "keyless"@,
        KeyScheme::Unspecified => "unspecified"@,
    }
}

/// The scheme one wire tag denotes, as executable code. The tag values are
/// the wire enumeration's: 1 ed25519, 2 secp256k1_ecdsa, 3 secp256r1_ecdsa,
/// 4 keyless; the wire's own zero tag and every unknown value fall back to
/// `Unspecified`.
fn classify_scheme_tag(tag: i32) -> (r: KeyScheme)
    ensures
        r == scheme_of_tag(tag),
{
    if tag == 1 {
        KeyScheme::Ed25519
    } else if tag == 2 {
        KeyScheme::Secp256k1Ecdsa
    } else if tag == 3 {
        KeyScheme::Secp256r1Ecdsa
    } else if tag == 4 {
        KeyScheme::Keyless
    } else {
        KeyScheme::Unspecified
    }
}

/// The label for one scheme, as an owned string.
fn scheme_label(scheme: KeyScheme) -> (r: String)
    ensures
        r@ == label_of_scheme(scheme),
{
    match scheme {
        KeyScheme::Ed25519 => "ed25519".to_owned(),
        KeyScheme::Secp256k1Ecdsa => "secp256k1_ecdsa".to_owned(),
        KeyScheme::Secp256r1Ecdsa => "secp256r1_ecdsa".to_owned(),
        KeyScheme::Keyless => "keyless".to_owned(),
        KeyScheme::Unspecified => "unspecified".to_owned(),
    }
}

/// Whether `slot` appears among the slot indices of the contributing
/// signatures. Duplicate entries change nothing: only membership counts.
pub open spec fn slot_used(sigs: Seq<IndexedSignature>, slot: int) -> bool {
    exists|j: int| 0 <= j < sigs.len() && sigs[j].index as int == slot
}

/// What the record at position `i` of one expansion holds, field by field.
pub open spec fn record_matches(
    r: MultiKeyLayout,
    payload: MultiKeyPayload,
    signer: Seq<char>,
    version: i64,
    height: i64,
    i: int,
) -> bool {
    &&& r.transaction_version == version
    &&& r.transaction_block_height == height
    &&& r.signer@ == signer
    &&& r.type_@ == label_of_scheme(scheme_of_tag(payload.public_keys@[i].scheme_tag))
    &&& r.public_key@ == "0x"@ + hex_of(payload.public_keys@[i].public_key@)
    &&& r.public_key_index == i
    &&& r.threshold == payload.signatures_required as i64
    &&& r.total_public_keys == payload.public_keys@.len() as i64
    &&& r.is_used == slot_used(payload.signatures@, i)
}

/// Appending one signature to the consumed prefix marks exactly its slot.
proof fn lemma_slot_used_take_step(sigs: Seq<IndexedSignature>, j: int, k: int)
    requires
        0 <= j < sigs.len(),
    ensures
        slot_used(sigs.take(j + 1), k) <==> (slot_used(sigs.take(j), k) || sigs[j].index as int
            == k),
{
    let a = sigs.take(j);
    let b = sigs.take(j + 1);
    if slot_used(b, k) {
        let w = choose|w: int| 0 <= w < b.len() && b[w].index as int == k;
        if w < j {
            assert(a[w] == b[w]);
            assert(0 <= w < a.len() && a[w].index as int == k);
        } else {
            assert(b[j] == sigs[j]);
        }
    }
    if slot_used(a, k) {
        let w = choose|w: int| 0 <= w < a.len() && a[w].index as int == k;
        assert(0 <= w < b.len() && b[w].index as int == k);
    }
    if sigs[j].index as int == k {
        assert(b[j] == sigs[j]);
        assert(0 <= j < b.len() && b[j].index as int == k);
    }
}

impl MultiKeyLayout {
    /// Expand one multi-key payload into one record per declared public
    /// key, in ascending slot order. `sender` is the already canonicalized
    /// signer address; it is copied verbatim into every record.
    pub fn parse_multikey_layout(
        payload: &MultiKeyPayload,
        sender: &str,
        transaction_version: i64,
        transaction_block_height: i64,
    ) -> (r: Vec<MultiKeyLayout>)
        requires
            payload.public_keys@.len() as int <= i64::MAX as int,
        ensures
            r@.len() == payload.public_keys@.len(),
            forall|i: int|
                0 <= i < r@.len() ==> #[trigger] record_matches(
                    r@[i],
                    *payload,
                    sender@,
                    transaction_version,
                    transaction_block_height,
                    i,
                ),
            forall|i: int|
                0 <= i < r@.len() ==> #[trigger] r@[i].total_public_keys
                    == payload.public_keys@.len() as i64,
            forall|i: int|
                0 <= i < r@.len() ==> #[trigger] r@[i].threshold == payload.signatures_required
                    as i64,
    {
        let signer: String = sender.to_owned();
        let total = payload.public_keys.len();

        // Mark which slots contributed a signature, once per expansion.
        let mut used: Vec<bool> = Vec::new();
        let mut t: usize = 0;
        while t < total
            invariant
                t <= total,
                used@.len() == t,
                forall|k: int| 0 <= k < t ==> !(#[trigger] used@[k]),
            decreases total - t,
        {
            used.push(false);
            t = t + 1;
        }

        let sig_count = payload.signatures.len();
        let mut j: usize = 0;
        proof {
            assert(payload.signatures@.take(0) =~= Seq::<IndexedSignature>::empty());
        }
        while j < sig_count
            invariant
                j <= sig_count,
                sig_count == payload.signatures@.len(),
                total == payload.public_keys@.len(),
                used@.len() == total,
                forall|k: int|
                    0 <= k < total ==> #[trigger] used@[k] == slot_used(
                        payload.signatures@.take(j as int),
                        k,
                    ),
            decreases sig_count - j,
        {
            let idx = payload.signatures[j].index as usize;
            let ghost before = used@;
            if idx < total {
                used[idx] = true;
            }
            proof {
                assert forall|k: int|
                    0 <= k < total implies #[trigger] used@[k] == slot_used(
                    payload.signatures@.take(j + 1),
                    k,
                ) by {
                    lemma_slot_used_take_step(payload.signatures@, j as int, k);
                    if k == payload.signatures@[j as int].index as int {
                        assert(used@[k]);
                    } else {
                        assert(used@[k] == before[k]);
                    }
                }
            }
            j = j + 1;
        }
        proof {
            assert(payload.signatures@.take(sig_count as int) =~= payload.signatures@);
        }

        let mut records: Vec<MultiKeyLayout> = Vec::new();
        let mut i: usize = 0;
        while i < total
            invariant
                i <= total,
                total == payload.public_keys@.len(),
                total as int <= i64::MAX as int,
                records@.len() == i,
                signer@ == sender@,
                used@.len() == total,
                forall|k: int|
                    0 <= k < total ==> #[trigger] used@[k] == slot_used(payload.signatures@, k),
                forall|k: int|
                    0 <= k < i ==> #[trigger] record_matches(
                        records@[k],
                        *payload,
                        sender@,
                        transaction_version,
                        transaction_block_height,
                        k,
                    ),
            decreases total - i,
        {
            let key = &payload.public_keys[i];
            let scheme = classify_scheme_tag(key.scheme_tag);
            let type_ = scheme_label(scheme);
            let hex_digits = encode_hex(key.public_key.as_slice());
            let public_key = "0x".to_owned().concat(hex_digits.as_str());
            records.push(
                MultiKeyLayout {
                    transaction_version,
                    transaction_block_height,
                    signer: signer.clone(),
                    type_,
                    public_key,
                    public_key_index: i as i64,
                    threshold: payload.signatures_required as i64,
                    total_public_keys: total as i64,
                    is_used: used[i],
                },
            );
            i = i + 1;
        }
        proof {
            assert forall|k: int|
                0 <= k < records@.len() implies #[trigger] records@[k].total_public_keys
                == payload.public_keys@.len() as i64 by {
                assert(record_matches(
                    records@[k],
                    *payload,
                    sender@,
                    transaction_version,
                    transaction_block_height,
                    k,
                ));
            }
            assert forall|k: int|
                0 <= k < records@.len() implies #[trigger] records@[k].threshold
                == payload.signatures_required as i64 by {
                assert(record_matches(
                    records@[k],
                    *payload,
                    sender@,
                    transaction_version,
                    transaction_block_height,
                    k,
                ));
            }
        }
        records
    }

    /// Resolve one transaction-level signature envelope. A single-sender
    /// multi-key envelope expands to one record per declared key; any other
    /// well-formed envelope yields the empty sequence; an absent required
    /// sub-field yields `MalformedInput`.
    pub fn from_user_transaction(
        envelope: &SignatureEnvelope,
        sender: &str,
        transaction_version: i64,
        transaction_block_height: i64,
    ) -> (r: Result<Vec<MultiKeyLayout>, LayoutError>)
        requires
            envelope_payload(*envelope) matches Some(payload) ==> payload.public_keys@.len() as int
                <= i64::MAX as int,
        ensures
            r is Err <==> envelope_malformed(*envelope),
            r is Err ==> r == Err::<Vec<MultiKeyLayout>, LayoutError>(LayoutError::MalformedInput),
            !envelope_malformed(*envelope) && envelope_payload(*envelope) is None ==> (r matches Ok(
                records,
            ) && records@.len() == 0),
            envelope_payload(*envelope) matches Some(payload) ==> (r matches Ok(records)
                && records@.len() == payload.public_keys@.len() && forall|i: int|
                0 <= i < records@.len() ==> #[trigger] record_matches(
                    records@[i],
                    payload,
                    sender@,
                    transaction_version,
                    transaction_block_height,
                    i,
                )),
    {
        match &envelope.signature {
            Some(TransactionSignatureKind::SingleSender(single)) => match &single.sender {
                Some(account) => match &account.signature {
                    Some(AccountSignatureKind::MultiKey(payload)) => Ok(
                        Self::parse_multikey_layout(
                            payload,
                            sender,
                            transaction_version,
                            transaction_block_height,
                        ),
                    ),
                    _ => Ok(Vec::new()),
                },
                None => Err(LayoutError::MalformedInput),
            },
            Some(TransactionSignatureKind::Other) => Ok(Vec::new()),
            None => Err(LayoutError::MalformedInput),
        }
    }
}

/// The slot-index projection of the contributing signatures.
pub open spec fn slot_index_projection(sigs: Seq<IndexedSignature>) -> Seq<int> {
    sigs.map_values(|s: IndexedSignature| s.index as int)
}

/// A slot is used exactly when it is a member of the slot-index projection,
/// taken as a set: duplicate entries in the projection change nothing.
pub proof fn lemma_slot_used_is_projection_membership(sigs: Seq<IndexedSignature>, slot: int)
    ensures
        slot_used(sigs, slot) == slot_index_projection(sigs).to_set().contains(slot),
{
    let proj = slot_index_projection(sigs);
    if slot_used(sigs, slot) {
        let w = choose|w: int| 0 <= w < sigs.len() && sigs[w].index as int == slot;
        assert(proj[w] == slot);
        assert(proj.contains(slot));
    }
    if proj.to_set().contains(slot) {
        let w = choose|w: int| 0 <= w < proj.len() && proj[w] == slot;
        assert(sigs[w].index as int == slot);
    }
}

/// A record's public key carries the `0x` prefix; stripping it and decoding
/// the rest yields exactly the raw key bytes the record was built from, for
/// empty and non-empty keys alike.
pub proof fn lemma_public_key_round_trip(
    r: MultiKeyLayout,
    payload: MultiKeyPayload,
    signer: Seq<char>,
    version: i64,
    height: i64,
    i: int,
)
    requires
        0 <= i < payload.public_keys@.len(),
        record_matches(r, payload, signer, version, height, i),
    ensures
        r.public_key@.len() >= 2,
        r.public_key@.take(2) == "0x"@,
        decode_hex_spec(r.public_key@.skip(2)) == Some(payload.public_keys@[i].public_key@),
{
    reveal_strlit("0x");
    let raw = payload.public_keys@[i].public_key@;
    assert(r.public_key@.take(2) =~= "0x"@);
    assert(r.public_key@.skip(2) =~= hex_of(raw));
    lemma_hex_round_trip(raw);
}

/// Two signature sequences whose slot-index projections hold the same
/// members decide every slot identically; duplicating an entry in one of
/// them is such a case.
pub proof fn lemma_slot_used_ignores_duplicates(
    sigs1: Seq<IndexedSignature>,
    sigs2: Seq<IndexedSignature>,
    slot: int,
)
    requires
        slot_index_projection(sigs1).to_set() == slot_index_projection(sigs2).to_set(),
    ensures
        slot_used(sigs1, slot) == slot_used(sigs2, slot),
{
    lemma_slot_used_is_projection_membership(sigs1, slot);
    lemma_slot_used_is_projection_membership(sigs2, slot);
}

} // verus!
