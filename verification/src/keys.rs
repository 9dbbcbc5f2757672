//! RSA keys as plain numbers.
//!
//! A key is held as the big-endian bytes of its components, so that
//! specifications can speak of what a key is and not only of what is done
//! with it.

use vstd::prelude::*;
use crate::error::Error;

verus! {

/// The natural number that a big-endian byte string denotes.
pub open spec fn be_nat(bytes: Seq<u8>) -> nat
    decreases bytes.len(),
{
    if bytes.len() == 0 {
        0
    } else {
        256 * be_nat(bytes.drop_last()) + bytes.last() as nat
    }
}

/// A number is written canonically when it is not zero and has no leading
/// zero byte.
pub open spec fn canonical(bytes: Seq<u8>) -> bool {
    bytes.len() > 0 && bytes[0] != 0
}

/// `k` divides `n`.
pub open spec fn divides(k: nat, n: nat) -> bool {
    k != 0 && n % k == 0
}

/// `p` is a prime number.
pub open spec fn is_prime(p: nat) -> bool {
    p >= 2 && forall|k: nat| 2 <= k < p ==> !#[trigger] divides(k, p)
}

/// The fewest bits of a modulus that `PrivateKey::generate` produces.
pub const MIN_KEY_BITS: usize = 64;

/// The most bits of a modulus that `PrivateKey::generate` produces.
pub const MAX_KEY_BITS: usize = 4096;

/// The view of the five numbers of a key.
pub open spec fn numbers_view(parts: (Vec<u8>, Vec<u8>, Vec<u8>, Vec<u8>, Vec<u8>)) -> PrivateKeyView {
    PrivateKeyView { n: parts.0@, e: parts.1@, d: parts.2@, p: parts.3@, q: parts.4@ }
}

/// `rsa::RsaPrivateKey::new` with the thread's generator, and the big-endian
/// bytes of what it made: modulus, public exponent, private exponent and
/// the two factors. The modulus has exactly `bits` bits, and the numbers
/// fit together. That the factors are prime is not claimed: the generator
/// tests it by chance.
#[verifier::external_body]
fn generate_components(bits: usize) -> (parts: Option<
    (Vec<u8>, Vec<u8>, Vec<u8>, Vec<u8>, Vec<u8>),
>)
    requires
        MIN_KEY_BITS <= bits <= MAX_KEY_BITS,
    ensures
        parts matches Some(c) ==> c.0@.len() == (bits + 7) / 8 && numbers_view(c).consistent(),
{
    let key = rsa::RsaPrivateKey::new(&mut rand::thread_rng(), bits).ok()?;
    let n = rsa::PublicKeyParts::n(&key).to_bytes_be();
    let e = rsa::PublicKeyParts::e(&key).to_bytes_be();
    let d = key.d().to_bytes_be();
    let p = key.primes()[0].to_bytes_be();
    let q = key.primes()[1].to_bytes_be();
    Some((n, e, d, p, q))
}

/// The public half of an RSA key: modulus and public exponent.
#[derive(Debug)]
pub struct PublicKey {
    pub(crate) n: Vec<u8>,
    pub(crate) e: Vec<u8>,
}

/// What a public key is to a specification.
pub struct PublicKeyView {
    /// The modulus, big-endian.
    pub n: Seq<u8>,
    /// The public exponent, big-endian.
    pub e: Seq<u8>,
}

impl PublicKeyView {
    /// Both numbers are written canonically.
    pub open spec fn well_formed(self) -> bool {
        canonical(self.n) && canonical(self.e)
    }
}

impl View for PublicKey {
    type V = PublicKeyView;

    closed spec fn view(&self) -> PublicKeyView {
        PublicKeyView { n: self.n@, e: self.e@ }
    }
}

/// Whether a byte string is a canonically written number.
pub fn is_canonical(bytes: &Vec<u8>) -> (yes: bool)
    ensures
        yes == canonical(bytes@),
{
    bytes.len() > 0 && bytes[0] != 0
}

/// A copy of a byte string.
pub fn clone_bytes(bytes: &Vec<u8>) -> (copy: Vec<u8>)
    ensures
        copy@ == bytes@,
{
    let copy = bytes.clone();
    assert(copy@ =~= bytes@);
    copy
}

impl PublicKey {
    /// Holds of every key value: its view is well formed.
    #[verifier::type_invariant]
    pub open spec fn inv(self) -> bool {
        self@.well_formed()
    }

    /// Builds a key from modulus and exponent, both big-endian. Numbers
    /// that are zero or have a leading zero byte are refused.
    pub fn from_components(n: Vec<u8>, e: Vec<u8>) -> (key: Option<PublicKey>)
        ensures
            key is Some <==> canonical(n@) && canonical(e@),
            key matches Some(k) ==> k@.n == n@ && k@.e == e@,
    {
        if is_canonical(&n) && is_canonical(&e) {
            Some(PublicKey { n, e })
        } else {
            None
        }
    }

    /// The modulus, big-endian.
    pub fn modulus(&self) -> (n: &Vec<u8>)
        ensures
            n@ == self@.n,
    {
        &self.n
    }

    /// The public exponent, big-endian.
    pub fn exponent(&self) -> (e: &Vec<u8>)
        ensures
            e@ == self@.e,
    {
        &self.e
    }
}

impl Clone for PublicKey {
    fn clone(&self) -> (copy: Self)
        ensures
            copy@ == self@,
    {
        proof {
            use_type_invariant(self);
        }
        PublicKey { n: clone_bytes(&self.n), e: clone_bytes(&self.e) }
    }
}

/// A two-prime RSA key with its private half.
#[derive(Debug)]
pub struct PrivateKey {
    pub(crate) n: Vec<u8>,
    pub(crate) e: Vec<u8>,
    pub(crate) d: Vec<u8>,
    pub(crate) p: Vec<u8>,
    pub(crate) q: Vec<u8>,
}

/// What a private key is to a specification.
pub struct PrivateKeyView {
    /// The modulus, big-endian.
    pub n: Seq<u8>,
    /// The public exponent, big-endian.
    pub e: Seq<u8>,
    /// The private exponent, big-endian.
    pub d: Seq<u8>,
    /// The first prime factor of the modulus, big-endian.
    pub p: Seq<u8>,
    /// The second prime factor of the modulus, big-endian.
    pub q: Seq<u8>,
}

impl PrivateKeyView {
    /// All five numbers are written canonically, and the two factors have
    /// the same length and are at least 2.
    pub open spec fn well_formed(self) -> bool {
        &&& canonical(self.n)
        &&& canonical(self.e)
        &&& canonical(self.d)
        &&& canonical(self.p)
        &&& canonical(self.q)
        &&& self.p.len() == self.q.len()
        &&& (self.p.len() > 1 || (self.p[0] > 1 && self.q[0] > 1))
    }

    /// The numbers fit together: the modulus is the product of the two
    /// factors, the factors differ, and the two exponents are inverse to
    /// each other modulo each factor less one.
    pub open spec fn consistent(self) -> bool {
        let p = be_nat(self.p);
        let q = be_nat(self.q);
        let de = be_nat(self.d) * be_nat(self.e);
        &&& be_nat(self.n) == p * q
        &&& p != q
        &&& de % ((p - 1) as nat) == 1
        &&& de % ((q - 1) as nat) == 1
    }

    /// The public half.
    pub open spec fn public(self) -> PublicKeyView {
        PublicKeyView { n: self.n, e: self.e }
    }
}

/// `sk` and `pk` are the two halves of one RSA key: the numbers of `sk` fit
/// together, its two factors are prime, and `pk` is its public half.
pub open spec fn is_key_pair(sk: PrivateKeyView, pk: PublicKeyView) -> bool {
    &&& sk.well_formed()
    &&& sk.consistent()
    &&& is_prime(be_nat(sk.p))
    &&& is_prime(be_nat(sk.q))
    &&& sk.public() == pk
}

impl View for PrivateKey {
    type V = PrivateKeyView;

    closed spec fn view(&self) -> PrivateKeyView {
        PrivateKeyView { n: self.n@, e: self.e@, d: self.d@, p: self.p@, q: self.q@ }
    }
}

impl PrivateKey {
    /// Holds of every key value: its view is well formed.
    #[verifier::type_invariant]
    pub open spec fn inv(self) -> bool {
        self@.well_formed()
    }

    /// Builds a key from its five numbers, all big-endian. The key is
    /// refused unless every number is written canonically and the two
    /// factors have the same length and are at least 2.
    pub fn from_components(n: Vec<u8>, e: Vec<u8>, d: Vec<u8>, p: Vec<u8>, q: Vec<u8>) -> (key:
        Option<PrivateKey>)
        ensures
            key is Some <==> (PrivateKeyView { n: n@, e: e@, d: d@, p: p@, q: q@ }).well_formed(),
            key matches Some(k) ==> k@ == (PrivateKeyView { n: n@, e: e@, d: d@, p: p@, q: q@ }),
    {
        if is_canonical(&n) && is_canonical(&e) && is_canonical(&d) && is_canonical(&p)
            && is_canonical(&q) && p.len() == q.len() && (p.len() > 1 || (p[0] > 1 && q[0] > 1)) {
            Some(PrivateKey { n, e, d, p, q })
        } else {
            None
        }
    }

    /// Generates a fresh key whose modulus has `bits` bits.
    ///
    /// Sizes below 64 or above 4096 bits are refused with `CryptoError`, as
    /// is a key that the generator could not produce in the shape this
    /// type holds. The numbers of the key fit together; that its factors
    /// are prime is as sure as the generator's test.
    pub fn generate(bits: usize) -> (r: Result<PrivateKey, Error>)
        ensures
            r matches Ok(key) ==> key@.well_formed() && key@.consistent() && key@.n.len() == (
            bits + 7) / 8,
            r matches Err(e) ==> e == Error::CryptoError,
            bits < MIN_KEY_BITS || bits > MAX_KEY_BITS ==> r is Err,
    {
        if bits < MIN_KEY_BITS || bits > MAX_KEY_BITS {
            return Err(Error::CryptoError);
        }
        match generate_components(bits) {
            None => Err(Error::CryptoError),
            Some((n, e, d, p, q)) => match PrivateKey::from_components(n, e, d, p, q) {
                Some(key) => Ok(key),
                None => Err(Error::CryptoError),
            },
        }
    }

    /// The private exponent, big-endian.
    pub fn private_exponent(&self) -> (d: &Vec<u8>)
        ensures
            d@ == self@.d,
    {
        &self.d
    }

    /// The two factors of the modulus, big-endian.
    pub fn factors(&self) -> (pq: (&Vec<u8>, &Vec<u8>))
        ensures
            pq.0@ == self@.p,
            pq.1@ == self@.q,
    {
        (&self.p, &self.q)
    }

    /// The public half of this key.
    pub fn public_key(&self) -> (public: PublicKey)
        ensures
            public@ == self@.public(),
    {
        proof {
            use_type_invariant(self);
        }
        PublicKey { n: clone_bytes(&self.n), e: clone_bytes(&self.e) }
    }
}

} // verus!
