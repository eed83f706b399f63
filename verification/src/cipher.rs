use vstd::prelude::*;
use crate::models::VibraError;
use vstd::slice::slice_subrange;
use vstd::slice::slice_to_vec;
use aes_gcm::Aes256Gcm;
use aes_gcm::Key;
use aes_gcm::Nonce;
use aes_gcm::aead::Aead;
use aes_gcm::aead::KeyInit;
use aes_gcm::aead::generic_array::typenum::U12;
use rand::Rng;

verus! {

/// What AES-256-GCM produces for a key, a nonce and a plaintext: the
/// authenticated ciphertext, tag included. It is a function of the three
/// arguments alone.
pub uninterp spec fn seal_of(key: Seq<u8>, nonce: Seq<u8>, data: Seq<u8>) -> Seq<u8>;

/// The largest plaintext AES-GCM accepts, in bytes: one layer of encryption
/// fails exactly on a longer input.
pub open spec fn max_seal_len() -> int {
    0x10_0000_0000
}

/// The 32-byte key of layer `i` inside flattened key material.
pub open spec fn key_slice(keys: Seq<u8>, i: int) -> Seq<u8> {
    keys.subrange(32 * i, 32 * i + 32)
}

/// The 12-byte nonce of layer `i` inside flattened nonce material.
pub open spec fn nonce_slice(nonces: Seq<u8>, i: int) -> Seq<u8> {
    nonces.subrange(12 * i, 12 * i + 12)
}

/// `n` layers of authenticated encryption over `data`: layer `i` seals the
/// previous running ciphertext (the plaintext for layer 0) under the `i`-th
/// slice of the key and nonce material, in strictly sequential order.
pub open spec fn layered_seal(data: Seq<u8>, keys: Seq<u8>, nonces: Seq<u8>, n: nat) -> Seq<u8>
    decreases n,
{
    if n == 0 {
        data
    } else {
        seal_of(
            key_slice(keys, n - 1),
            nonce_slice(nonces, n - 1),
            layered_seal(data, keys, nonces, (n - 1) as nat),
        )
    }
}

/// Layers `lo..hi` of the seal, applied over `data` from layer `lo` upward.
pub open spec fn seal_layers_from(
    data: Seq<u8>,
    keys: Seq<u8>,
    nonces: Seq<u8>,
    lo: nat,
    hi: nat,
) -> Seq<u8>
    decreases hi - lo,
{
    if hi <= lo {
        data
    } else {
        seal_of(
            key_slice(keys, hi - 1),
            nonce_slice(nonces, hi - 1),
            seal_layers_from(data, keys, nonces, lo, (hi - 1) as nat),
        )
    }
}

/// Sealing from layer 0 up to `hi` is the full layered seal.
proof fn lemma_seal_from_zero(data: Seq<u8>, keys: Seq<u8>, nonces: Seq<u8>, hi: nat)
    ensures
        seal_layers_from(data, keys, nonces, 0, hi) == layered_seal(data, keys, nonces, hi),
    decreases hi,
{
    if hi > 0 {
        lemma_seal_from_zero(data, keys, nonces, (hi - 1) as nat);
    }
}

/// Peeling the lowest layer out of a span of seals.
proof fn lemma_seal_from_unroll(data: Seq<u8>, keys: Seq<u8>, nonces: Seq<u8>, lo: nat, hi: nat)
    requires
        lo < hi,
    ensures
        seal_layers_from(data, keys, nonces, lo, hi) == seal_layers_from(
            seal_of(key_slice(keys, lo as int), nonce_slice(nonces, lo as int), data),
            keys,
            nonces,
            lo + 1,
            hi,
        ),
    decreases hi - lo,
{
    let sealed = seal_of(key_slice(keys, lo as int), nonce_slice(nonces, lo as int), data);
    if lo + 1 < hi {
        lemma_seal_from_unroll(data, keys, nonces, lo, (hi - 1) as nat);
        assert(seal_layers_from(data, keys, nonces, lo, hi) == seal_of(
            key_slice(keys, hi - 1),
            nonce_slice(nonces, hi - 1),
            seal_layers_from(data, keys, nonces, lo, (hi - 1) as nat),
        ));
        assert(seal_layers_from(sealed, keys, nonces, lo + 1, hi) == seal_of(
            key_slice(keys, hi - 1),
            nonce_slice(nonces, hi - 1),
            seal_layers_from(sealed, keys, nonces, lo + 1, (hi - 1) as nat),
        ));
    } else {
        assert(hi == lo + 1);
        assert(seal_layers_from(data, keys, nonces, lo, lo) == data);
        assert(seal_layers_from(sealed, keys, nonces, lo + 1, hi) == sealed);
        assert(seal_layers_from(data, keys, nonces, lo, hi) == sealed);
    }
}

/// The first `n` layers only read the first `32 * n` key bytes and
/// `12 * n` nonce bytes, so appending material changes nothing.
proof fn lemma_layered_seal_extend(
    data: Seq<u8>,
    keys: Seq<u8>,
    nonces: Seq<u8>,
    n: nat,
    ks: Seq<u8>,
    ns: Seq<u8>,
)
    requires
        32 * n <= keys.len(),
        12 * n <= nonces.len(),
    ensures
        layered_seal(data, keys + ks, nonces + ns, n) == layered_seal(data, keys, nonces, n),
    decreases n,
{
    if n > 0 {
        lemma_layered_seal_extend(data, keys, nonces, (n - 1) as nat, ks, ns);
        assert(key_slice(keys + ks, n - 1) =~= key_slice(keys, n - 1));
        assert(nonce_slice(nonces + ns, n - 1) =~= nonce_slice(nonces, n - 1));
    }
}

/// Relies on rand::thread_rng and rand::Rng::fill: 32 bytes drawn from a
/// cryptographically secure source. Nothing is known of their values.
#[verifier::external_body]
fn generate_key() -> (r: Vec<u8>)
    ensures
        r@.len() == 32,
{
    let mut key = [0u8; 32];
    rand::thread_rng().fill(&mut key);
    key.to_vec()
}

/// Relies on rand::thread_rng and rand::Rng::fill: 12 bytes drawn from a
/// cryptographically secure source. Nothing is known of their values.
#[verifier::external_body]
fn generate_nonce() -> (r: Vec<u8>)
    ensures
        r@.len() == 12,
{
    let mut nonce = [0u8; 12];
    rand::thread_rng().fill(&mut nonce);
    nonce.to_vec()
}

/// Relies on aes_gcm::Aes256Gcm through aes_gcm::aead::Aead::encrypt:
/// AES-256-GCM with a postfix tag. The ciphertext is a function of key, nonce
/// and plaintext alone, and is 16 bytes (the tag) longer than the plaintext;
/// encryption refuses only a plaintext beyond the mode's length cap.
#[verifier::external_body]
fn aead_seal(key: &[u8], nonce: &[u8], data: &[u8]) -> (r: Option<Vec<u8>>)
    requires
        key@.len() == 32,
        nonce@.len() == 12,
    ensures
        r matches Some(ct) ==> ct@ == seal_of(key@, nonce@, data@) && ct@.len() == data@.len()
            + 16,
        r is None ==> data@.len() > max_seal_len(),
{
    let cipher = Aes256Gcm::new(Key::<Aes256Gcm>::from_slice(key));
    cipher.encrypt(Nonce::<U12>::from_slice(nonce), data).ok()
}

/// Relies on aes_gcm::Aes256Gcm through aes_gcm::aead::Aead::decrypt:
/// decryption inverts encryption under the same key and nonce, and succeeds
/// only on a ciphertext that encryption produces for the recovered plaintext;
/// everything else fails the tag check.
#[verifier::external_body]
fn aead_open(key: &[u8], nonce: &[u8], data: &[u8]) -> (r: Option<Vec<u8>>)
    requires
        key@.len() == 32,
        nonce@.len() == 12,
    ensures
        r is None ==> forall|p: Seq<u8>| data@ != #[trigger] seal_of(key@, nonce@, p),
        r matches Some(v) ==> data@ == seal_of(key@, nonce@, v@) && (forall|p: Seq<u8>|
            data@ == #[trigger] seal_of(key@, nonce@, p) ==> v@ == p),
{
    let cipher = Aes256Gcm::new(Key::<Aes256Gcm>::from_slice(key));
    cipher.decrypt(Nonce::<U12>::from_slice(nonce), data).ok()
}

/// Applies `layers` layers of authenticated encryption to `value`, drawing a
/// fresh random key and nonce for each layer, in strictly sequential order.
/// Returns the final ciphertext — 16 tag bytes longer per layer — together
/// with the flattened key and nonce material, in layer order. Fails only when
/// a layer's input outgrows the cipher's length cap.
pub fn encrypt_value(value: &[u8], layers: usize) -> (r: Result<
    (Vec<u8>, Vec<u8>, Vec<u8>),
    VibraError,
>)
    ensures
        r matches Ok(t) ==> {
            &&& t.0@.len() == value@.len() + 16 * layers
            &&& t.1@.len() == 32 * layers
            &&& t.2@.len() == 12 * layers
            &&& t.0@ == layered_seal(value@, t.1@, t.2@, layers as nat)
        },
        r matches Err(e) ==> e == VibraError::EncryptionFailure && value@.len() + 16 * (
        layers as int) > max_seal_len(),
        value@.len() + 16 * (layers as int) <= max_seal_len() ==> r is Ok,
{
    let mut data: Vec<u8> = slice_to_vec(value);
    let mut keys: Vec<u8> = Vec::new();
    let mut nonces: Vec<u8> = Vec::new();
    let mut i: usize = 0;
    while i < layers
        invariant
            i <= layers,
            keys@.len() == 32 * i,
            nonces@.len() == 12 * i,
            data@.len() == value@.len() + 16 * i,
            data@ == layered_seal(value@, keys@, nonces@, i as nat),
        decreases layers - i,
    {
        let k = generate_key();
        let n = generate_nonce();
        match aead_seal(k.as_slice(), n.as_slice(), data.as_slice()) {
            Some(ct) => {
                proof {
                    lemma_layered_seal_extend(value@, keys@, nonces@, i as nat, k@, n@);
                }
                let ghost keys0 = keys@;
                let ghost nonces0 = nonces@;
                keys.extend_from_slice(k.as_slice());
                nonces.extend_from_slice(n.as_slice());
                proof {
                    assert(keys@ =~= keys0 + k@);
                    assert(nonces@ =~= nonces0 + n@);
                    assert(key_slice(keys@, i as int) =~= k@);
                    assert(nonce_slice(nonces@, i as int) =~= n@);
                    assert(ct@ == layered_seal(value@, keys@, nonces@, (i + 1) as nat));
                }
                data = ct;
            },
            None => {
                return Err(VibraError::EncryptionFailure);
            },
        }
        i += 1;
    }
    Ok((data, keys, nonces))
}

/// Reverses `layers` layers of authenticated encryption, slicing the supplied
/// key and nonce material per layer and opening in reverse layer order. For
/// every plaintext that the material seals to `encrypted`, exactly that
/// plaintext comes back; success on anything that is not such a seal is
/// impossible, so a tampered layer fails rather than yield a false plaintext.
/// The layers work on raw bytes: whether the recovered bytes are valid text is
/// judged where the stored record is decoded, one level up.
pub fn decrypt_value(encrypted: &[u8], keys: &[u8], nonces: &[u8], layers: usize) -> (r: Result<
    Vec<u8>,
    VibraError,
>)
    requires
        keys@.len() == 32 * layers,
        nonces@.len() == 12 * layers,
    ensures
        forall|p: Seq<u8>|
            encrypted@ == #[trigger] layered_seal(p, keys@, nonces@, layers as nat) ==> (r matches
            Ok(v) && v@ == p),
        r matches Ok(v) ==> encrypted@ == layered_seal(v@, keys@, nonces@, layers as nat),
        r matches Err(e) ==> e == VibraError::DecryptionFailure,
{
    let mut data: Vec<u8> = slice_to_vec(encrypted);
    let mut i: usize = layers;
    let keys_len = keys.len();
    let nonces_len = nonces.len();
    while i > 0
        invariant
            i <= layers,
            keys@.len() == 32 * layers,
            nonces@.len() == 12 * layers,
            keys_len == keys@.len(),
            nonces_len == nonces@.len(),
            encrypted@ == seal_layers_from(data@, keys@, nonces@, i as nat, layers as nat),
            forall|p: Seq<u8>|
                encrypted@ == #[trigger] layered_seal(p, keys@, nonces@, layers as nat)
                    ==> data@ == layered_seal(p, keys@, nonces@, i as nat),
        decreases i,
    {
        let j = i - 1;
        let ks = slice_subrange(keys, 32 * j, 32 * j + 32);
        let ns = slice_subrange(nonces, 12 * j, 12 * j + 12);
        match aead_open(ks, ns, data.as_slice()) {
            Some(p2) => {
                proof {
                    lemma_seal_from_unroll(p2@, keys@, nonces@, j as nat, layers as nat);
                    assert forall|p: Seq<u8>|
                        encrypted@ == #[trigger] layered_seal(
                            p,
                            keys@,
                            nonces@,
                            layers as nat,
                        ) implies p2@ == layered_seal(p, keys@, nonces@, j as nat) by {
                        assert(data@ == layered_seal(p, keys@, nonces@, i as nat));
                        assert(data@ == seal_of(
                            ks@,
                            ns@,
                            layered_seal(p, keys@, nonces@, j as nat),
                        ));
                    }
                }
                data = p2;
            },
            None => {
                proof {
                    assert forall|p: Seq<u8>|
                        encrypted@ != #[trigger] layered_seal(
                            p,
                            keys@,
                            nonces@,
                            layers as nat,
                        ) by {
                        if encrypted@ == layered_seal(p, keys@, nonces@, layers as nat) {
                            assert(data@ == layered_seal(p, keys@, nonces@, i as nat));
                            assert(data@ == seal_of(
                                ks@,
                                ns@,
                                layered_seal(p, keys@, nonces@, j as nat),
                            ));
                        }
                    }
                }
                return Err(VibraError::DecryptionFailure);
            },
        }
        i = j;
    }
    proof {
        lemma_seal_from_zero(data@, keys@, nonces@, layers as nat);
    }
    Ok(data)
}

} // verus!
