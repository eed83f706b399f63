use vstd::prelude::*;
use crate::cipher::decrypt_value;
use crate::cipher::layered_seal;
use crate::models::cols_view;
use crate::models::VibraError;
use crate::serial::cols_of;
use crate::serial::deserialize_columns;
use crate::serial::text_from_bytes;
use vstd::slice::slice_subrange;

verus! {

/// The ciphertext part of a stored record: everything before the flattened
/// layer material of `l` layers.
pub open spec fn rec_ct(rec: Seq<u8>, l: nat) -> Seq<u8> {
    rec.subrange(0, rec.len() - 44 * l)
}

/// The flattened layer keys of a stored record: `32 * l` bytes after the
/// ciphertext.
pub open spec fn rec_keys(rec: Seq<u8>, l: nat) -> Seq<u8> {
    rec.subrange(rec.len() - 44 * l, rec.len() - 12 * l)
}

/// The flattened layer nonces of a stored record: the final `12 * l` bytes.
pub open spec fn rec_nonces(rec: Seq<u8>, l: nat) -> Seq<u8> {
    rec.subrange(rec.len() - 12 * l, rec.len() as int)
}

/// A stored record represents the column list `cv` under `l` layers: it is
/// long enough for its layer material, and its ciphertext is the layered seal,
/// under that material, of a plaintext that decodes to `cv`.
pub open spec fn record_represents(rec: Seq<u8>, l: nat, cv: Seq<(Seq<char>, Seq<char>)>) -> bool {
    &&& rec.len() >= 44 * l
    &&& exists|p: Seq<u8>|
        rec_ct(rec, l) == #[trigger] layered_seal(p, rec_keys(rec, l), rec_nonces(rec, l), l)
            && cols_of(p) == Some(cv)
}

/// Concatenates ciphertext, key material and nonce material into the bytes
/// stored for a row: `ciphertext || keys || nonces`.
pub fn build_stored_record(ct: Vec<u8>, keys: &[u8], nonces: &[u8]) -> (r: Vec<u8>)
    ensures
        r@ == ct@ + keys@ + nonces@,
{
    let ghost ct0 = ct@;
    let mut r = ct;
    r.extend_from_slice(keys);
    r.extend_from_slice(nonces);
    proof {
        assert(r@ =~= ct0 + keys@ + nonces@);
    }
    r
}

/// Splits a stored record into ciphertext, layer keys and layer nonces using
/// the fixed per-layer sizes, reverses the `layers` layers, and decodes the
/// recovered plaintext as a column list. The layers themselves work on raw
/// bytes; this is where the recovered bytes are held to be text. A record
/// shorter than its layer material, a failed tag check, and recovered bytes
/// that are not valid text are all `DecryptionFailure`; valid text that
/// encodes no column list is `SerializationFailure`.
pub fn decode_stored_record(record: &[u8], layers: usize) -> (r: Result<
    (Vec<u8>, Vec<(String, String)>),
    VibraError,
>)
    ensures
        record@.len() < 44 * (layers as int) ==> r == Err::<
            (Vec<u8>, Vec<(String, String)>),
            VibraError,
        >(VibraError::DecryptionFailure),
        forall|p: Seq<u8>|
            (record@.len() >= 44 * (layers as int) && rec_ct(record@, layers as nat)
                == #[trigger] layered_seal(
                p,
                rec_keys(record@, layers as nat),
                rec_nonces(record@, layers as nat),
                layers as nat,
            )) ==> (if !vstd::utf8::valid_utf8(p) {
                r == Err::<(Vec<u8>, Vec<(String, String)>), VibraError>(
                    VibraError::DecryptionFailure,
                )
            } else {
                match cols_of(p) {
                    Some(cv) => r matches Ok(t) && t.0@ == p && cols_view(t.1@) == cv,
                    None => r == Err::<(Vec<u8>, Vec<(String, String)>), VibraError>(
                        VibraError::SerializationFailure,
                    ),
                }
            }),
        r matches Ok(t) ==> record_represents(record@, layers as nat, cols_view(t.1@))
            && vstd::utf8::valid_utf8(t.0@) && cols_of(t.0@) == Some(cols_view(t.1@)) && rec_ct(
            record@,
            layers as nat,
        ) == layered_seal(
            t.0@,
            rec_keys(record@, layers as nat),
            rec_nonces(record@, layers as nat),
            layers as nat,
        ),
        r matches Err(e) ==> (e == VibraError::DecryptionFailure || e
            == VibraError::SerializationFailure),
{
    let rlen = record.len();
    let need = match layers.checked_mul(44) {
        Some(n) => n,
        None => {
            return Err(VibraError::DecryptionFailure);
        },
    };
    if record.len() < need {
        return Err(VibraError::DecryptionFailure);
    }
    let ct_len = record.len() - need;
    let nonces_off = ct_len + 32 * layers;
    let ct = slice_subrange(record, 0, ct_len);
    let keys = slice_subrange(record, ct_len, nonces_off);
    let nonces = slice_subrange(record, nonces_off, record.len());
    proof {
        assert(ct@ == rec_ct(record@, layers as nat));
        assert(keys@ == rec_keys(record@, layers as nat));
        assert(nonces@ == rec_nonces(record@, layers as nat));
        assert(keys@.len() == 32 * layers);
        assert(nonces@.len() == 12 * layers);
    }
    match decrypt_value(ct, keys, nonces, layers) {
        Ok(plain) => {
            if text_from_bytes(plain.as_slice()).is_none() {
                return Err(VibraError::DecryptionFailure);
            }
            match deserialize_columns(plain.as_slice()) {
                Some(cols) => Ok((plain, cols)),
                None => Err(VibraError::SerializationFailure),
            }
        },
        Err(_) => Err(VibraError::DecryptionFailure),
    }
}

} // verus!
