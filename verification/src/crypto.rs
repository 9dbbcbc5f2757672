//! The layer codec: wrapping and unwrapping one onion layer.
//!
//! A layer is a header sealed to the relay's RSA key, followed by a body
//! sealed with a one-time AES-256-GCM key. The header carries that key, its
//! nonce, and the address to which the relay hands the opened body.

use vstd::prelude::*;
use vstd::slice::*;
use crate::error::Error;
use crate::keys::{be_nat, is_key_pair, PrivateKey, PrivateKeyView, PublicKey, PublicKeyView};

verus! {

/// Bytes in a sealed header: the size of a 2048-bit modulus.
pub const HEADER_LEN: usize = 256;

/// Bytes in an opened header: key, nonce and address.
pub const HEADER_PLAIN_LEN: usize = 48;

/// Bytes that sealing a body adds: the authentication tag.
pub const TAG_LEN: usize = 16;

/// The longest body that AES-GCM seals.
pub const AES_GCM_MAX_PLAINTEXT: u64 = 68_719_476_736;

/// Bytes that OAEP over SHA-256 adds to a message.
pub const OAEP_OVERHEAD: usize = 66;

/// The most bytes a modulus may have for the RSA operations to accept it.
pub const MAX_MODULUS_LEN: usize = 512;

/// The largest public exponent that the RSA operations accept.
pub const MAX_PUBLIC_EXPONENT: u64 = 8_589_934_591;

/// The address that marks the last layer: the body is the payload.
pub open spec fn terminal_hop() -> Seq<u8> {
    seq![0u8, 0u8, 0u8, 0u8]
}

/// The plaintext that `RsaPrivateKey::decrypt` with OAEP over SHA-256 gives
/// for a key and a sealed message, or `None` where it reports an error.
pub uninterp spec fn rsa_oaep_opened(key: PrivateKeyView, sealed: Seq<u8>) -> Option<Seq<u8>>;

/// The bytes that AES-256-GCM encryption without associated data gives for a
/// key, a nonce and a message: the ciphertext followed by its tag.
pub uninterp spec fn aes_gcm_sealed(key: Seq<u8>, nonce: Seq<u8>, msg: Seq<u8>) -> Seq<u8>;

/// The plaintext that AES-256-GCM decryption without associated data gives
/// for a key, a nonce and a sealed message, or `None` where authentication
/// fails.
pub uninterp spec fn aes_gcm_opened(key: Seq<u8>, nonce: Seq<u8>, sealed: Seq<u8>) -> Option<
    Seq<u8>,
>;

/// The view of an optional byte vector.
pub open spec fn option_view(bytes: Option<Vec<u8>>) -> Option<Seq<u8>> {
    match bytes {
        Some(b) => Some(b@),
        None => None,
    }
}

/// Whether RSA-OAEP encryption under `key` takes a message of `msg_len`
/// bytes: the modulus has at most 4096 bits and room for the message and
/// the padding, and the exponent lies between 2 and 2^33 - 1.
pub open spec fn rsa_accepts(key: PublicKeyView, msg_len: nat) -> bool {
    &&& key.well_formed()
    &&& key.n.len() <= MAX_MODULUS_LEN
    &&& 2 <= be_nat(key.e) <= MAX_PUBLIC_EXPONENT
    &&& msg_len + OAEP_OVERHEAD <= key.n.len()
}

/// Every private key that pairs with `key` opens `sealed` to `msg`.
pub open spec fn sealed_to(key: PublicKeyView, sealed: Seq<u8>, msg: Seq<u8>) -> bool {
    forall|sk: PrivateKeyView| #[trigger]
        is_key_pair(sk, key) ==> rsa_oaep_opened(sk, sealed) == Some(msg)
}

/// `N` bytes from the thread's cryptographically secure generator
/// (`rand::thread_rng`, `RngCore::fill_bytes`). Nothing is claimed of the
/// bytes.
#[verifier::external_body]
fn random_bytes<const N: usize>() -> (bytes: [u8; N]) {
    let mut bytes = [0u8; N];
    rand::RngCore::fill_bytes(&mut rand::thread_rng(), &mut bytes);
    bytes
}

/// `rsa::RsaPublicKey::encrypt` with `Oaep::new::<Sha256>()` and the thread's
/// generator. The call succeeds exactly on the keys and lengths that
/// `rsa_accepts` describes; what it returns is as long as the modulus, and
/// decryption under any private key that pairs with `key` gives `msg` back.
#[verifier::external_body]
fn rsa_oaep_encrypt(key: &PublicKey, msg: &[u8]) -> (sealed: Option<Vec<u8>>)
    ensures
        sealed is Some <==> rsa_accepts(key@, msg@.len()),
        sealed matches Some(c) ==> c@.len() == key@.n.len() && sealed_to(key@, c@, msg@),
{
    let n = rsa::BigUint::from_bytes_be(&key.n);
    let e = rsa::BigUint::from_bytes_be(&key.e);
    let key = rsa::RsaPublicKey::new(n, e).ok()?;
    let padding = rsa::Oaep::new::<sha2::Sha256>();
    rsa::PublicKey::encrypt(&key, &mut rand::thread_rng(), padding, msg).ok()
}

/// `rsa::RsaPrivateKey::decrypt` with `Oaep::new::<Sha256>()`, on the key that
/// `RsaPrivateKey::from_components` builds from the five numbers. The result
/// is named `rsa_oaep_opened`.
#[verifier::external_body]
fn rsa_oaep_decrypt(key: &PrivateKey, sealed: &[u8]) -> (opened: Option<Vec<u8>>)
    requires
        key@.well_formed(),
    ensures
        option_view(opened) == rsa_oaep_opened(key@, sealed@),
{
    let n = rsa::BigUint::from_bytes_be(&key.n);
    let e = rsa::BigUint::from_bytes_be(&key.e);
    let d = rsa::BigUint::from_bytes_be(&key.d);
    let p = rsa::BigUint::from_bytes_be(&key.p);
    let q = rsa::BigUint::from_bytes_be(&key.q);
    let key = rsa::RsaPrivateKey::from_components(n, e, d, vec![p, q]).ok()?;
    key.decrypt(rsa::Oaep::new::<sha2::Sha256>(), sealed).ok()
}

/// `Aes256Gcm::encrypt` without associated data. The call succeeds exactly
/// on messages of at most 2^36 bytes; what it returns is named
/// `aes_gcm_sealed`, is 16 bytes longer than the message, and decryption
/// with the same key and nonce gives the message back.
#[verifier::external_body]
fn aes_gcm_encrypt(key: &[u8; 32], nonce: &[u8; 12], msg: &[u8]) -> (sealed: Option<Vec<u8>>)
    ensures
        sealed is Some <==> msg@.len() <= AES_GCM_MAX_PLAINTEXT,
        sealed matches Some(c) ==> c@ == aes_gcm_sealed(key@, nonce@, msg@) && c@.len()
            == msg@.len() + TAG_LEN && aes_gcm_opened(key@, nonce@, c@) == Some(msg@),
{
    let key = aes_gcm::Key::<aes_gcm::Aes256Gcm>::from_slice(key);
    let cipher = <aes_gcm::Aes256Gcm as aes_gcm::KeyInit>::new(key);
    aes_gcm::aead::Aead::encrypt(&cipher, aes_gcm::Nonce::from_slice(nonce), msg).ok()
}

/// `Aes256Gcm::decrypt` without associated data. The result is named
/// `aes_gcm_opened`.
#[verifier::external_body]
fn aes_gcm_decrypt(key: &[u8; 32], nonce: &[u8; 12], sealed: &[u8]) -> (opened: Option<Vec<u8>>)
    ensures
        option_view(opened) == aes_gcm_opened(key@, nonce@, sealed@),
{
    let key = aes_gcm::Key::<aes_gcm::Aes256Gcm>::from_slice(key);
    let cipher = <aes_gcm::Aes256Gcm as aes_gcm::KeyInit>::new(key);
    aes_gcm::aead::Aead::decrypt(&cipher, aes_gcm::Nonce::from_slice(nonce), sealed).ok()
}

/// Seals `msg` to `pub_key` with RSA-OAEP over SHA-256.
///
/// Fails with `CryptoError` exactly when the key is not one the RSA
/// operations accept or the message does not fit its modulus.
pub fn encrypt_rsa(pub_key: &PublicKey, msg: &[u8]) -> (r: Result<Vec<u8>, Error>)
    ensures
        r is Ok <==> rsa_accepts(pub_key@, msg@.len()),
        r matches Ok(c) ==> c@.len() == pub_key@.n.len() && sealed_to(pub_key@, c@, msg@),
        r matches Err(e) ==> e == Error::CryptoError,
{
    match rsa_oaep_encrypt(pub_key, msg) {
        Some(sealed) => Ok(sealed),
        None => Err(Error::CryptoError),
    }
}

/// What `decrypt_rsa` returns for a key and a sealed message.
pub open spec fn rsa_decrypted(key: PrivateKeyView, sealed: Seq<u8>) -> Result<Seq<u8>, Error> {
    match rsa_oaep_opened(key, sealed) {
        Some(msg) => Ok(msg),
        None => Err(Error::DecryptError),
    }
}

/// The view of a result that holds bytes.
pub open spec fn result_view(r: Result<Vec<u8>, Error>) -> Result<Seq<u8>, Error> {
    match r {
        Ok(b) => Ok(b@),
        Err(e) => Err(e),
    }
}

/// Opens `enc_msg` with `priv_key`; `DecryptError` where RSA-OAEP refuses it.
pub fn decrypt_rsa(priv_key: &PrivateKey, enc_msg: &[u8]) -> (r: Result<Vec<u8>, Error>)
    ensures
        result_view(r) == rsa_decrypted(priv_key@, enc_msg@),
{
    proof {
        use_type_invariant(priv_key);
    }
    match rsa_oaep_decrypt(priv_key, enc_msg) {
        Some(opened) => Ok(opened),
        None => Err(Error::DecryptError),
    }
}

/// Seals `msg` under a fresh random key and nonce, and returns all three.
///
/// Fails with `CryptoError` exactly when the message is longer than
/// AES-GCM takes.
pub fn encrypt_aes(msg: &[u8]) -> (r: Result<([u8; 32], [u8; 12], Vec<u8>), Error>)
    ensures
        r is Ok <==> msg@.len() <= AES_GCM_MAX_PLAINTEXT,
        r matches Ok((key, nonce, sealed)) ==> sealed@ == aes_gcm_sealed(key@, nonce@, msg@)
            && sealed@.len() == msg@.len() + TAG_LEN && aes_gcm_opened(key@, nonce@, sealed@)
            == Some(msg@),
        r matches Err(e) ==> e == Error::CryptoError,
{
    let key = random_bytes::<32>();
    let nonce = random_bytes::<12>();
    match aes_gcm_encrypt(&key, &nonce, msg) {
        Some(sealed) => Ok((key, nonce, sealed)),
        None => Err(Error::CryptoError),
    }
}

/// What `decrypt_aes` returns for a key, a nonce and a sealed message.
pub open spec fn aes_decrypted(key: Seq<u8>, nonce: Seq<u8>, sealed: Seq<u8>) -> Result<
    Seq<u8>,
    Error,
> {
    match aes_gcm_opened(key, nonce, sealed) {
        Some(msg) => Ok(msg),
        None => Err(Error::DecryptError),
    }
}

/// Opens `enc_msg` with the key and nonce; `DecryptError` where
/// authentication fails.
pub fn decrypt_aes(key_bytes: &[u8; 32], nonce_bytes: &[u8; 12], enc_msg: &[u8]) -> (r: Result<
    Vec<u8>,
    Error,
>)
    ensures
        result_view(r) == aes_decrypted(key_bytes@, nonce_bytes@, enc_msg@),
{
    match aes_gcm_decrypt(key_bytes, nonce_bytes, enc_msg) {
        Some(opened) => Ok(opened),
        None => Err(Error::DecryptError),
    }
}

/// The plaintext of a header: key, then nonce, then next hop.
pub open spec fn header_plain(key: Seq<u8>, nonce: Seq<u8>, next_hop: Seq<u8>) -> Seq<u8> {
    key + nonce + next_hop
}

/// Lays out the plaintext of a header.
pub fn layer_header(key: &[u8; 32], nonce: &[u8; 12], next_hop: &[u8; 4]) -> (plain: Vec<u8>)
    ensures
        plain@ == header_plain(key@, nonce@, next_hop@),
        plain@.len() == HEADER_PLAIN_LEN,
{
    let mut plain = slice_to_vec(key.as_slice());
    let mut nonce_bytes = slice_to_vec(nonce.as_slice());
    let mut hop_bytes = slice_to_vec(next_hop.as_slice());
    plain.append(&mut nonce_bytes);
    plain.append(&mut hop_bytes);
    plain
}

/// The three fields of an opened header: the first 32 bytes, the next 12 and
/// the 4 after them. Fewer than 48 bytes hold no header; more are ignored.
pub open spec fn header_fields(plain: Seq<u8>) -> Result<(Seq<u8>, Seq<u8>, Seq<u8>), Error> {
    if plain.len() < HEADER_PLAIN_LEN {
        Err(Error::MalformedPacket)
    } else {
        Ok((plain.subrange(0, 32), plain.subrange(32, 44), plain.subrange(44, 48)))
    }
}

/// Copies `N` bytes of `bytes`, starting at `from`, into an array.
fn take_array<const N: usize>(bytes: &[u8], from: usize) -> (out: [u8; N])
    requires
        from + N <= bytes@.len(),
    ensures
        out@ == bytes@.subrange(from as int, from + N),
{
    let mut out = [0u8; N];
    let len = bytes.len();
    let mut i: usize = 0;
    while i < N
        invariant
            i <= N,
            from + N <= len == bytes@.len(),
            out@.len() == N,
            forall|j: int| 0 <= j < i ==> out@[j] == bytes@[from + j],
        decreases N - i,
    {
        out[i] = bytes[from + i];
        i += 1;
    }
    assert(out@ =~= bytes@.subrange(from as int, from + N));
    out
}

/// The view of the three fields of a header.
pub open spec fn fields_view(r: Result<([u8; 32], [u8; 12], [u8; 4]), Error>) -> Result<
    (Seq<u8>, Seq<u8>, Seq<u8>),
    Error,
> {
    match r {
        Ok((key, nonce, next_hop)) => Ok((key@, nonce@, next_hop@)),
        Err(e) => Err(e),
    }
}

/// Reads key, nonce and next hop out of an opened header.
pub fn parse_layer_header(plain: &[u8]) -> (r: Result<([u8; 32], [u8; 12], [u8; 4]), Error>)
    ensures
        fields_view(r) == header_fields(plain@),
{
    if plain.len() < HEADER_PLAIN_LEN {
        return Err(Error::MalformedPacket);
    }
    let key = take_array::<32>(plain, 0);
    let nonce = take_array::<12>(plain, 32);
    let next_hop = take_array::<4>(plain, 44);
    Ok((key, nonce, next_hop))
}

/// The sealed header and the sealed body of a packet: its first 256 bytes
/// and the rest. A shorter packet has neither.
pub open spec fn layer_parts(packet: Seq<u8>) -> Result<(Seq<u8>, Seq<u8>), Error> {
    if packet.len() < HEADER_LEN {
        Err(Error::MalformedPacket)
    } else {
        Ok((packet.subrange(0, HEADER_LEN as int), packet.subrange(HEADER_LEN as int, packet.len() as int)))
    }
}

/// The view of the two parts of a packet.
pub open spec fn parts_view(r: Result<(&[u8], &[u8]), Error>) -> Result<(Seq<u8>, Seq<u8>), Error> {
    match r {
        Ok((header, body)) => Ok((header@, body@)),
        Err(e) => Err(e),
    }
}

/// Splits a packet into sealed header and sealed body.
pub fn split_layer(packet: &[u8]) -> (r: Result<(&[u8], &[u8]), Error>)
    ensures
        parts_view(r) == layer_parts(packet@),
{
    if packet.len() < HEADER_LEN {
        return Err(Error::MalformedPacket);
    }
    let (header, body) = packet.split_at(HEADER_LEN);
    Ok((header, body))
}

/// What peeling one layer off `packet` with the key `sk` gives: the next
/// hop and the inner packet.
///
/// A packet of fewer than 256 bytes is malformed; so is one whose header
/// opens to fewer than 48 bytes. A header that does not open under `sk`, or
/// a body that fails authentication, is a decryption error.
pub open spec fn peeled(sk: PrivateKeyView, packet: Seq<u8>) -> Result<(Seq<u8>, Seq<u8>), Error> {
    match layer_parts(packet) {
        Err(e) => Err(e),
        Ok((header, body)) => match rsa_decrypted(sk, header) {
            Err(e) => Err(e),
            Ok(plain) => match header_fields(plain) {
                Err(e) => Err(e),
                Ok((key, nonce, next_hop)) => match aes_decrypted(key, nonce, body) {
                    Err(e) => Err(e),
                    Ok(inner) => Ok((next_hop, inner)),
                },
            },
        },
    }
}

/// Every private key that pairs with `key` peels `packet` to `next_hop` and
/// `inner`.
pub open spec fn layer_opens(
    key: PublicKeyView,
    packet: Seq<u8>,
    next_hop: Seq<u8>,
    inner: Seq<u8>,
) -> bool {
    forall|sk: PrivateKeyView| #[trigger]
        is_key_pair(sk, key) ==> peeled(sk, packet) == Ok::<(Seq<u8>, Seq<u8>), Error>(
            (next_hop, inner),
        )
}

/// Wraps `payload` in one layer for the relay that holds `dest_pub_key`,
/// telling it to hand the payload on to `dest_ip`.
///
/// The layer is the sealed header followed by the sealed body, under a key
/// and a nonce drawn afresh. It fails with `CryptoError` exactly when the
/// payload is longer than AES-GCM takes or the key cannot seal a header.
/// Where the key has a 256-byte modulus, every private key that pairs with
/// it peels the layer back to `dest_ip` and `payload`.
pub fn wrap_layer(dest_pub_key: &PublicKey, dest_ip: &[u8; 4], payload: &[u8]) -> (r: Result<
    Vec<u8>,
    Error,
>)
    ensures
        r is Ok <==> payload@.len() <= AES_GCM_MAX_PLAINTEXT && rsa_accepts(
            dest_pub_key@,
            HEADER_PLAIN_LEN as nat,
        ),
        r matches Ok(packet) ==> {
            &&& packet@.len() == dest_pub_key@.n.len() + payload@.len() + TAG_LEN
            &&& dest_pub_key@.n.len() == HEADER_LEN ==> layer_opens(
                dest_pub_key@,
                packet@,
                dest_ip@,
                payload@,
            )
        },
        r matches Err(e) ==> e == Error::CryptoError,
{
    let (aes_key, aes_nonce, mut body) = match encrypt_aes(payload) {
        Ok(sealed) => sealed,
        Err(e) => {
            return Err(e);
        },
    };
    let plain = layer_header(&aes_key, &aes_nonce, dest_ip);
    let mut packet = match encrypt_rsa(dest_pub_key, plain.as_slice()) {
        Ok(header) => header,
        Err(e) => {
            return Err(e);
        },
    };
    let ghost header = packet@;
    let ghost sealed_body = body@;
    packet.append(&mut body);
    proof {
        if dest_pub_key@.n.len() == HEADER_LEN {
            assert(packet@.subrange(0, HEADER_LEN as int) =~= header);
            assert(packet@.subrange(HEADER_LEN as int, packet@.len() as int) =~= sealed_body);
            assert(plain@.subrange(0, 32) =~= aes_key@);
            assert(plain@.subrange(32, 44) =~= aes_nonce@);
            assert(plain@.subrange(44, 48) =~= dest_ip@);
            assert forall|sk: PrivateKeyView| #[trigger] is_key_pair(sk, dest_pub_key@) implies peeled(
                sk,
                packet@,
            ) == Ok::<(Seq<u8>, Seq<u8>), Error>((dest_ip@, payload@)) by {
                assert(rsa_oaep_opened(sk, header) == Some(plain@));
            }
        }
    }
    Ok(packet)
}

/// The view of what peeling gives.
pub open spec fn peel_view(r: Result<([u8; 4], Vec<u8>), Error>) -> Result<
    (Seq<u8>, Seq<u8>),
    Error,
> {
    match r {
        Ok((next_hop, inner)) => Ok((next_hop@, inner@)),
        Err(e) => Err(e),
    }
}

/// Peels one layer off `encrypted_data` with the node's key: the address to
/// hand the rest to, and the rest.
pub fn unwrap_layer(priv_key: &PrivateKey, encrypted_data: &[u8]) -> (r: Result<
    ([u8; 4], Vec<u8>),
    Error,
>)
    ensures
        peel_view(r) == peeled(priv_key@, encrypted_data@),
{
    let (header, body) = match split_layer(encrypted_data) {
        Ok(parts) => parts,
        Err(e) => {
            return Err(e);
        },
    };
    let plain = match decrypt_rsa(priv_key, header) {
        Ok(plain) => plain,
        Err(e) => {
            return Err(e);
        },
    };
    let (aes_key, aes_nonce, next_hop) = match parse_layer_header(plain.as_slice()) {
        Ok(fields) => fields,
        Err(e) => {
            return Err(e);
        },
    };
    match decrypt_aes(&aes_key, &aes_nonce, body) {
        Ok(inner) => Ok((next_hop, inner)),
        Err(e) => Err(e),
    }
}

/// A single layer round-trips: what was wrapped for a public key with a
/// 256-byte modulus is peeled, by the private key that pairs with it, to the
/// same next hop and payload.
pub proof fn lemma_layer_round_trip(
    sk: PrivateKeyView,
    pk: PublicKeyView,
    packet: Seq<u8>,
    next_hop: Seq<u8>,
    payload: Seq<u8>,
)
    requires
        is_key_pair(sk, pk),
        layer_opens(pk, packet, next_hop, payload),
    ensures
        peeled(sk, packet) == Ok::<(Seq<u8>, Seq<u8>), Error>((next_hop, payload)),
{
}

} // verus!
