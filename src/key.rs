//! RSA keys: the parts a private key is made of, the public key derived from
//! them, their wire forms, and signing.

use openssl::bn::BigNum;
use openssl::error::ErrorStack;
use openssl::hash::MessageDigest;
use openssl::pkey::PKey;
use openssl::rsa::{Padding, Rsa};
use openssl::sign::Signer;
use vstd::prelude::*;
use vstd::slice::slice_to_vec;
use vstd::utf8::{decode_utf8, encode_utf8, valid_utf8};

use crate::wire::{
    be_value, is_minimal, mpint, mpint_body, parse_mpint, parse_string, ssh_string, strip_leading_zeros,
    strip_zeros, write_mpint, write_string, Reader, WireError,
};

verus! {

#[verifier::external_type_specification]
#[verifier::external_body]
pub struct ExErrorStack(ErrorStack);

/// The key type name `ssh-rsa`, in ASCII.
pub open spec fn ssh_rsa_name() -> Seq<u8> {
    seq![0x73u8, 0x73, 0x68, 0x2d, 0x72, 0x73, 0x61]
}

/// The signature type name `rsa-sha2-256`, in ASCII.
pub open spec fn rsa_sha2_256_name() -> Seq<u8> {
    seq![0x72u8, 0x73, 0x61, 0x2d, 0x73, 0x68, 0x61, 0x32, 0x2d, 0x32, 0x35, 0x36]
}

/// The signature type name `rsa-sha2-512`, in ASCII.
pub open spec fn rsa_sha2_512_name() -> Seq<u8> {
    seq![0x72u8, 0x73, 0x61, 0x2d, 0x73, 0x68, 0x61, 0x32, 0x2d, 0x35, 0x31, 0x32]
}

/// The shortest big-endian bytes of `v`: empty for zero.
pub open spec fn be_bytes(v: nat) -> Seq<u8>
    decreases v,
{
    if v == 0 {
        Seq::empty()
    } else {
        be_bytes(v / 256).push((v % 256) as u8)
    }
}

/// An RSA public key as two magnitudes.
pub struct RsaPublic {
    pub e: Seq<u8>,
    pub n: Seq<u8>,
}

/// The parts of an RSA private key, each a big-endian magnitude.
pub struct RsaParts {
    pub n: Seq<u8>,
    pub e: Seq<u8>,
    pub d: Seq<u8>,
    pub p: Seq<u8>,
    pub q: Seq<u8>,
    pub dp: Seq<u8>,
    pub dq: Seq<u8>,
    pub iqmp: Seq<u8>,
}

/// An RSA private key as a client sends it: the parts other than the CRT
/// exponents.
pub struct RsaWire {
    pub n: Seq<u8>,
    pub e: Seq<u8>,
    pub d: Seq<u8>,
    pub iqmp: Seq<u8>,
    pub p: Seq<u8>,
    pub q: Seq<u8>,
}

/// A named key pair.
pub struct KeyPairModel {
    pub private: RsaParts,
    pub public: RsaPublic,
    pub name: Seq<char>,
}

/// Why a key could not be read or used.
#[derive(Clone, Copy, Debug, PartialEq, Eq, Structural)]
pub enum KeyError {
    /// The wire data is malformed.
    Wire(WireError),
    /// The key type is not `ssh-rsa`.
    UnknownKeyType,
    /// A prime factor is below 2.
    BadFactor,
    /// A part of the key is longer than `MAX_BIGNUM_BYTES`.
    TooLarge,
    /// The cryptographic library refused the operation.
    Crypto,
}

/// The digest a signature is made over.
#[derive(Clone, Copy, Debug, PartialEq, Eq, Structural)]
pub enum Digest {
    Sha1,
    Sha256,
    Sha512,
}

/// The digest that the signature flags select: bit `0x4` asks for SHA-512,
/// else bit `0x2` for SHA-256, else SHA-1.
pub open spec fn digest_for(flags: u32) -> Digest {
    if flags & 4 != 0 {
        Digest::Sha512
    } else if flags & 2 != 0 {
        Digest::Sha256
    } else {
        Digest::Sha1
    }
}

/// The signature type name for a digest.
pub open spec fn sig_type_name(d: Digest) -> Seq<u8> {
    match d {
        Digest::Sha1 => ssh_rsa_name(),
        Digest::Sha256 => rsa_sha2_256_name(),
        Digest::Sha512 => rsa_sha2_512_name(),
    }
}

/// The signature blob: the signature type name, then the raw signature.
pub open spec fn signature_blob_of(flags: u32, raw: Seq<u8>) -> Seq<u8> {
    ssh_string(sig_type_name(digest_for(flags))) + ssh_string(raw)
}

/// The RSASSA-PKCS1-v1_5 signature of `msg` under `key` with `digest`, for a
/// valid key (`is_valid_rsa`).
pub uninterp spec fn pkcs1_signature(key: RsaParts, digest: Digest, msg: Seq<u8>) -> Seq<u8>;

/// The public key blob: `string "ssh-rsa" · mpint e · mpint n`.
pub open spec fn public_blob(k: RsaPublic) -> Seq<u8> {
    ssh_string(ssh_rsa_name()) + mpint(k.e) + mpint(k.n)
}

/// Reads a public key blob; bytes after it are ignored.
pub open spec fn parse_public_blob(s: Seq<u8>) -> Result<RsaPublic, KeyError> {
    match parse_string(s) {
        None => Err(KeyError::Wire(WireError::Truncated)),
        Some((ty, s1)) => if ty != ssh_rsa_name() {
            Err(KeyError::UnknownKeyType)
        } else {
            match parse_mpint(s1) {
                None => Err(KeyError::Wire(WireError::Truncated)),
                Some((e, s2)) => match parse_mpint(s2) {
                    None => Err(KeyError::Wire(WireError::Truncated)),
                    Some((n, _)) => Ok(RsaPublic { e, n }),
                },
            }
        },
    }
}

/// Reads the six mpints of an RSA private key: `n e d iqmp p q`.
#[verifier::opaque]
pub open spec fn parse_rsa_wire(s: Seq<u8>) -> Option<(RsaWire, Seq<u8>)> {
    match parse_mpint(s) {
        None => None,
        Some((n, s1)) => match parse_mpint(s1) {
            None => None,
            Some((e, s2)) => match parse_mpint(s2) {
                None => None,
                Some((d, s3)) => match parse_mpint(s3) {
                    None => None,
                    Some((iqmp, s4)) => match parse_mpint(s4) {
                        None => None,
                        Some((p, s5)) => match parse_mpint(s5) {
                            None => None,
                            Some((q, s6)) => Some((RsaWire { n, e, d, iqmp, p, q }, s6)),
                        },
                    },
                },
            },
        },
    }
}

/// Reads a key pair as `SSH_AGENTC_ADD_IDENTITY` carries it:
/// `string "ssh-rsa" · mpint n · mpint e · mpint d · mpint iqmp · mpint p ·
/// mpint q · string comment`. Gives the key, the comment's bytes and what
/// follows.
pub open spec fn parse_key_pair(s: Seq<u8>) -> Result<(RsaWire, Seq<u8>, Seq<u8>), KeyError> {
    match parse_string(s) {
        None => Err(KeyError::Wire(WireError::Truncated)),
        Some((ty, s1)) => if ty != ssh_rsa_name() {
            Err(KeyError::UnknownKeyType)
        } else {
            match parse_rsa_wire(s1) {
                None => Err(KeyError::Wire(WireError::Truncated)),
                Some((w, s2)) => match parse_string(s2) {
                    None => Err(KeyError::Wire(WireError::Truncated)),
                    Some((name, rest)) => if valid_utf8(name) {
                        Ok((w, name, rest))
                    } else {
                        Err(KeyError::Wire(WireError::NotUtf8))
                    },
                },
            }
        },
    }
}

/// The longest key part, in bytes, that this library hands to the
/// cryptographic library: 1 MiB, an 8-million-bit number. OpenSSL's own limit
/// on the length of a big number lies far above it, and no RSA key comes near
/// it.
pub const MAX_BIGNUM_BYTES: usize = 0x10_0000;

/// A key part short enough to hand to the cryptographic library.
pub open spec fn fits_bignum(b: Seq<u8>) -> bool {
    b.len() <= MAX_BIGNUM_BYTES
}

/// Every part of a key read from the wire fits a big number.
pub open spec fn wire_parts_fit(w: RsaWire) -> bool {
    fits_bignum(w.n) && fits_bignum(w.e) && fits_bignum(w.d) && fits_bignum(w.iqmp)
        && fits_bignum(w.p) && fits_bignum(w.q)
}

/// Every part of a private key fits a big number.
pub open spec fn parts_fit(k: RsaParts) -> bool {
    fits_bignum(k.n) && fits_bignum(k.e) && fits_bignum(k.d) && fits_bignum(k.p)
        && fits_bignum(k.q) && fits_bignum(k.dp) && fits_bignum(k.dq) && fits_bignum(k.iqmp)
}

/// `x` is a prime number.
pub open spec fn is_prime(x: nat) -> bool {
    x >= 2 && forall|f: nat| 2 <= f < x ==> #[trigger] (x % f) != 0
}

/// The parts make a valid RSA private key: two distinct primes whose product
/// is the modulus, exponents inverse to each other modulo `p - 1` and `q - 1`,
/// and the CRT values that belong to them.
pub open spec fn is_valid_rsa(k: RsaParts) -> bool {
    let n = be_value(k.n) as int;
    let e = be_value(k.e) as int;
    let d = be_value(k.d) as int;
    let p = be_value(k.p) as int;
    let q = be_value(k.q) as int;
    &&& is_prime(p as nat)
    &&& is_prime(q as nat)
    &&& p != q
    &&& n == p * q
    &&& (e * d - 1) % (p - 1) == 0
    &&& (e * d - 1) % (q - 1) == 0
    &&& be_value(k.dp) as int == d % (p - 1)
    &&& be_value(k.dq) as int == d % (q - 1)
    &&& be_value(k.iqmp) < p
    &&& (be_value(k.iqmp) * q) % p == 1
}

/// Both prime factors are at least 2.
pub open spec fn factors_usable(w: RsaWire) -> bool {
    be_value(w.p) >= 2 && be_value(w.q) >= 2
}

/// `d mod (f - 1)`, the CRT exponent for the prime factor `f`.
pub open spec fn crt_exponent_of(d: Seq<u8>, f: Seq<u8>) -> Seq<u8> {
    be_bytes(be_value(d) % ((be_value(f) - 1) as nat))
}

/// The private key parts of a key read from the wire, with its CRT exponents.
pub open spec fn rsa_parts_of(w: RsaWire) -> RsaParts {
    RsaParts {
        n: w.n,
        e: w.e,
        d: w.d,
        p: w.p,
        q: w.q,
        dp: crt_exponent_of(w.d, w.p),
        dq: crt_exponent_of(w.d, w.q),
        iqmp: w.iqmp,
    }
}

/// The public half of a private key, its magnitudes in shortest form.
pub open spec fn public_of(k: RsaParts) -> RsaPublic {
    RsaPublic { e: strip_zeros(k.e), n: strip_zeros(k.n) }
}

/// The key pair that a key read from the wire and its comment make.
pub open spec fn key_pair_of(w: RsaWire, name: Seq<u8>) -> KeyPairModel {
    KeyPairModel {
        private: rsa_parts_of(w),
        public: public_of(rsa_parts_of(w)),
        name: decode_utf8(name),
    }
}

/// The comment of a key pair as bytes.
pub open spec fn name_bytes(k: KeyPairModel) -> Seq<u8> {
    encode_utf8(k.name)
}

/// An mpint of a magnitude in shortest form reads back as that magnitude.
pub proof fn lemma_mpint_round_trip(mag: Seq<u8>, rest: Seq<u8>)
    requires
        is_minimal(mag),
        mag.len() < u32::MAX,
    ensures
        parse_mpint(mpint(mag) + rest) == Some((mag, rest)),
{
    crate::wire::lemma_string_round_trip(mpint_body(mag), rest);
    assert(strip_zeros(mag) == mag);
    if mag.len() > 0 && mag[0] >= 0x80 {
        let body = seq![0u8] + mag;
        assert(body.skip(1) =~= mag);
        assert(strip_zeros(body) == strip_zeros(body.skip(1)));
    }
}

/// Encoding a public key and decoding the blob gives the same key back: any
/// `PublicKey` value, whose view holds its magnitudes in shortest form.
pub proof fn lemma_public_key_round_trip(e: Seq<u8>, n: Seq<u8>)
    requires
        e.len() < u32::MAX,
        n.len() < u32::MAX,
    ensures
        ({
            let k = RsaPublic { e: strip_zeros(e), n: strip_zeros(n) };
            parse_public_blob(public_blob(k)) == Ok::<RsaPublic, KeyError>(k)
        }),
{
    crate::wire::lemma_strip_zeros(e);
    crate::wire::lemma_strip_zeros(n);
    lemma_public_blob_round_trip(RsaPublic { e: strip_zeros(e), n: strip_zeros(n) });
}

/// Encoding public key magnitudes in shortest form and decoding the blob
/// gives them back.
pub proof fn lemma_public_blob_round_trip(k: RsaPublic)
    requires
        is_minimal(k.e),
        is_minimal(k.n),
        k.e.len() < u32::MAX,
        k.n.len() < u32::MAX,
    ensures
        parse_public_blob(public_blob(k)) == Ok::<RsaPublic, KeyError>(k),
{
    let tail = mpint(k.e) + mpint(k.n);
    assert(public_blob(k) =~= ssh_string(ssh_rsa_name()) + tail);
    crate::wire::lemma_string_round_trip(ssh_rsa_name(), tail);
    lemma_mpint_round_trip(k.e, mpint(k.n));
    lemma_mpint_round_trip(k.n, Seq::empty());
    assert(mpint(k.n) + Seq::<u8>::empty() =~= mpint(k.n));
}

/// Relies on openssl's `BigNum::from_slice`, `-`, `%` and `to_vec`: the
/// shortest big-endian bytes of `d mod (p - 1)`. `from_slice` asserts that
/// its input is at most `c_int::MAX` bytes long and fails on a number longer
/// than OpenSSL takes; `%` panics on a zero divisor. The `requires` keeps the
/// inputs to at most `MAX_BIGNUM_BYTES` bytes and the divisor above zero, and
/// these calls then fail only when OpenSSL cannot allocate memory, which ends
/// the process.
#[verifier::external_body]
fn crt_exponent(d: &[u8], p: &[u8]) -> (r: Vec<u8>)
    requires
        be_value(p@) >= 2,
        fits_bignum(d@),
        fits_bignum(p@),
    ensures
        r@ == crt_exponent_of(d@, p@),
{
    let one = BigNum::from_u32(1).expect("allocation");
    let d = BigNum::from_slice(d).expect("allocation");
    (&d % &(&BigNum::from_slice(p).expect("allocation") - &one)).to_vec()
}

/// Relies on openssl's `BigNum::from_slice` (at most `c_int::MAX` bytes,
/// else it panics; the `requires` keeps each part to `MAX_BIGNUM_BYTES`), `Rsa::from_private_components`, `PKey::from_rsa`,
/// `Signer::set_rsa_padding` and `Signer::sign_oneshot_to_vec`: with PKCS#1
/// v1.5 padding set, a signature made with a valid RSA key is the
/// RSASSA-PKCS1-v1_5 signature, which depends on the key, the digest and the
/// message alone.
#[verifier::external_body]
fn pkcs1_sign(k: &RsaPrivateKey, digest: Digest, msg: &[u8]) -> (r: Result<Vec<u8>, ErrorStack>)
    requires
        parts_fit(k@),
    ensures
        is_valid_rsa(k@) ==> (r matches Ok(s) ==> s@ == pkcs1_signature(k@, digest, msg@)),
{
    let rsa = Rsa::from_private_components(
        BigNum::from_slice(&k.n)?, BigNum::from_slice(&k.e)?, BigNum::from_slice(&k.d)?,
        BigNum::from_slice(&k.p)?, BigNum::from_slice(&k.q)?, BigNum::from_slice(&k.dp)?,
        BigNum::from_slice(&k.dq)?, BigNum::from_slice(&k.iqmp)?,
    )?;
    let md = match digest {
        Digest::Sha1 => MessageDigest::sha1(),
        Digest::Sha256 => MessageDigest::sha256(),
        Digest::Sha512 => MessageDigest::sha512(),
    };
    let pkey = PKey::from_rsa(rsa)?;
    let mut signer = Signer::new(md, &pkey)?;
    signer.set_rsa_padding(Padding::PKCS1)?;
    signer.sign_oneshot_to_vec(msg)
}

/// `be_value` of a prefix is at most `be_value` of the whole.
pub proof fn lemma_be_value_prefix(b: Seq<u8>, k: int)
    requires
        0 <= k <= b.len(),
    ensures
        be_value(b.take(k)) <= be_value(b),
    decreases b.len(),
{
    if k == b.len() {
        assert(b.take(k) =~= b);
    } else {
        lemma_be_value_prefix(b.drop_last(), k);
        assert(b.drop_last().take(k) =~= b.take(k));
    }
}

/// Whether the magnitude `mag`, in shortest form, stands for 2 or more.
fn at_least_two(mag: &[u8]) -> (r: bool)
    requires
        is_minimal(mag@),
    ensures
        r == (be_value(mag@) >= 2),
{
    if mag.len() >= 2 {
        proof {
            lemma_be_value_prefix(mag@, 2);
            let t = mag@.take(2);
            let t1 = t.drop_last();
            assert(t1.drop_last() =~= Seq::<u8>::empty());
            assert(be_value(t1.drop_last()) == 0);
            assert(be_value(t1) == t1.last() as nat);
            assert(be_value(t) == be_value(t1) * 256 + t.last() as nat);
            assert(t1.last() == mag@[0]);
        }
        true
    } else if mag.len() == 1 {
        proof {
            assert(mag@.drop_last() =~= Seq::<u8>::empty());
            assert(be_value(mag@.drop_last()) == 0);
            assert(be_value(mag@) == be_value(mag@.drop_last()) * 256 + mag@.last() as nat);
        }
        mag[0] >= 2
    } else {
        false
    }
}

/// Bytewise equality.
fn bytes_equal(a: &[u8], b: &[u8]) -> (r: bool)
    ensures
        r == (a@ == b@),
{
    if a.len() != b.len() {
        return false;
    }
    let mut i: usize = 0;
    while i < a.len()
        invariant
            a@.len() == b@.len(),
            i <= a@.len(),
            forall|j: int| 0 <= j < i ==> a@[j] == b@[j],
        decreases a@.len() - i,
    {
        if a[i] != b[i] {
            return false;
        }
        i = i + 1;
    }
    assert(a@ =~= b@);
    true
}

/// The parts of an RSA private key, each an unsigned big-endian magnitude.
pub struct RsaPrivateKey {
    pub n: Vec<u8>,
    pub e: Vec<u8>,
    pub d: Vec<u8>,
    pub p: Vec<u8>,
    pub q: Vec<u8>,
    pub dp: Vec<u8>,
    pub dq: Vec<u8>,
    pub iqmp: Vec<u8>,
}

impl View for RsaPrivateKey {
    type V = RsaParts;

    open spec fn view(&self) -> RsaParts {
        RsaParts {
            n: self.n@,
            e: self.e@,
            d: self.d@,
            p: self.p@,
            q: self.q@,
            dp: self.dp@,
            dq: self.dq@,
            iqmp: self.iqmp@,
        }
    }
}

impl RsaPrivateKey {
    /// Whether every part fits a big number.
    pub fn parts_fit(&self) -> (r: bool)
        ensures
            r == parts_fit(self@),
    {
        let max = MAX_BIGNUM_BYTES;
        self.n.len() <= max && self.e.len() <= max && self.d.len() <= max && self.p.len() <= max
            && self.q.len() <= max && self.dp.len() <= max && self.dq.len() <= max
            && self.iqmp.len() <= max
    }

    /// A key from its parts, each given as unsigned big-endian bytes; leading
    /// zero bytes are dropped.
    pub fn from_parts(
        n: &[u8],
        e: &[u8],
        d: &[u8],
        p: &[u8],
        q: &[u8],
        dp: &[u8],
        dq: &[u8],
        iqmp: &[u8],
    ) -> (r: RsaPrivateKey)
        ensures
            r@ == (RsaParts {
                n: strip_zeros(n@),
                e: strip_zeros(e@),
                d: strip_zeros(d@),
                p: strip_zeros(p@),
                q: strip_zeros(q@),
                dp: strip_zeros(dp@),
                dq: strip_zeros(dq@),
                iqmp: strip_zeros(iqmp@),
            }),
    {
        RsaPrivateKey {
            n: strip_leading_zeros(n),
            e: strip_leading_zeros(e),
            d: strip_leading_zeros(d),
            p: strip_leading_zeros(p),
            q: strip_leading_zeros(q),
            dp: strip_leading_zeros(dp),
            dq: strip_leading_zeros(dq),
            iqmp: strip_leading_zeros(iqmp),
        }
    }
}

/// A private key.
pub enum PrivateKey {
    RSA(RsaPrivateKey),
}

impl View for PrivateKey {
    type V = RsaParts;

    open spec fn view(&self) -> RsaParts {
        match self {
            PrivateKey::RSA(k) => k@,
        }
    }
}

/// A public key.
pub enum PublicKey {
    RSA { e: Vec<u8>, n: Vec<u8> },
}

impl View for PublicKey {
    type V = RsaPublic;

    open spec fn view(&self) -> RsaPublic {
        match self {
            PublicKey::RSA { e, n } => RsaPublic { e: strip_zeros(e@), n: strip_zeros(n@) },
        }
    }
}

impl PrivateKey {
    /// Reads an RSA private key after its type name: six mpints.
    fn read_rsa(r: &mut Reader) -> (res: Result<RsaWireKey, KeyError>)
        ensures
            match parse_rsa_wire(old(r).unread()) {
                Some((w, rest)) => res matches Ok(k) && k@ == w && final(r).unread() == rest,
                None => res == Err::<RsaWireKey, KeyError>(KeyError::Wire(WireError::Truncated)),
            },
            res matches Ok(k) ==> is_minimal(k@.p) && is_minimal(k@.q) && is_minimal(k@.e)
                && is_minimal(k@.n),
    {
        reveal(parse_rsa_wire);
        let n = match r.read_mpint() {
            Ok(v) => v,
            Err(e) => return Err(KeyError::Wire(e)),
        };
        let e = match r.read_mpint() {
            Ok(v) => v,
            Err(e) => return Err(KeyError::Wire(e)),
        };
        let d = match r.read_mpint() {
            Ok(v) => v,
            Err(e) => return Err(KeyError::Wire(e)),
        };
        let iqmp = match r.read_mpint() {
            Ok(v) => v,
            Err(e) => return Err(KeyError::Wire(e)),
        };
        let p = match r.read_mpint() {
            Ok(v) => v,
            Err(e) => return Err(KeyError::Wire(e)),
        };
        let q = match r.read_mpint() {
            Ok(v) => v,
            Err(e) => return Err(KeyError::Wire(e)),
        };
        Ok(RsaWireKey { n, e, d, iqmp, p, q })
    }

    /// The private key with the CRT exponents of `w` computed.
    fn with_crt(w: RsaWireKey) -> (k: PrivateKey)
        requires
            factors_usable(w@),
            wire_parts_fit(w@),
        ensures
            k@ == rsa_parts_of(w@),
    {
        let dp = crt_exponent(&w.d, &w.p);
        let dq = crt_exponent(&w.d, &w.q);
        PrivateKey::RSA(RsaPrivateKey { n: w.n, e: w.e, d: w.d, p: w.p, q: w.q, dp, dq, iqmp: w.iqmp })
    }

    /// The public half of this key.
    pub fn public(&self) -> (r: PublicKey)
        ensures
            r@ == public_of(self@),
    {
        match self {
            PrivateKey::RSA(k) => PublicKey::RSA {
                e: slice_to_vec(k.e.as_slice()),
                n: slice_to_vec(k.n.as_slice()),
            },
        }
    }

    /// Signs `msg`, with the digest that `flags` selects, and gives the
    /// signature blob.
    /// The signature blob always names the digest that `flags` selects; for a
    /// valid key it holds the RSASSA-PKCS1-v1_5 signature.
    pub fn sign(&self, msg: &[u8], flags: u32) -> (r: Result<Vec<u8>, KeyError>)
        ensures
            r matches Ok(b) ==> exists|raw: Seq<u8>|
                #[trigger] signature_blob_of(flags, raw) == b@ && (is_valid_rsa(self@) ==> raw
                    == pkcs1_signature(self@, digest_for(flags), msg@)),
            !parts_fit(self@) ==> r == Err::<Vec<u8>, KeyError>(KeyError::TooLarge),
            parts_fit(self@) && r is Err ==> r == Err::<Vec<u8>, KeyError>(KeyError::Crypto),
    {
        let digest = digest_of_flags(flags);
        match self {
            PrivateKey::RSA(k) => {
                if !k.parts_fit() {
                    return Err(KeyError::TooLarge);
                }
                match pkcs1_sign(k, digest, msg) {
                    Ok(raw) => if raw.len() <= u32::MAX as usize {
                        let b = signature_blob(flags, &raw);
                        assert(signature_blob_of(flags, raw@) == b@);
                        Ok(b)
                    } else {
                        Err(KeyError::Crypto)
                    },
                    Err(_) => Err(KeyError::Crypto),
                }
            },
        }
    }
}

/// The parts of an RSA private key as the wire carries them.
struct RsaWireKey {
    n: Vec<u8>,
    e: Vec<u8>,
    d: Vec<u8>,
    iqmp: Vec<u8>,
    p: Vec<u8>,
    q: Vec<u8>,
}

impl RsaWireKey {
    /// Whether every part fits a big number.
    fn parts_fit(&self) -> (r: bool)
        ensures
            r == wire_parts_fit(self@),
    {
        let max = MAX_BIGNUM_BYTES;
        self.n.len() <= max && self.e.len() <= max && self.d.len() <= max && self.iqmp.len()
            <= max && self.p.len() <= max && self.q.len() <= max
    }
}

impl View for RsaWireKey {
    type V = RsaWire;

    closed spec fn view(&self) -> RsaWire {
        RsaWire { n: self.n@, e: self.e@, d: self.d@, iqmp: self.iqmp@, p: self.p@, q: self.q@ }
    }
}

/// The digest that the signature flags select.
pub fn digest_of_flags(flags: u32) -> (r: Digest)
    ensures
        r == digest_for(flags),
{
    if flags & 4 != 0 {
        Digest::Sha512
    } else if flags & 2 != 0 {
        Digest::Sha256
    } else {
        Digest::Sha1
    }
}

/// The signature type name for a digest, as bytes.
fn sig_type_bytes(d: Digest) -> (r: Vec<u8>)
    ensures
        r@ == sig_type_name(d),
{
    let r = match d {
        Digest::Sha1 => vec![0x73u8, 0x73, 0x68, 0x2d, 0x72, 0x73, 0x61],
        Digest::Sha256 => vec![0x72u8, 0x73, 0x61, 0x2d, 0x73, 0x68, 0x61, 0x32, 0x2d, 0x32, 0x35, 0x36],
        Digest::Sha512 => vec![0x72u8, 0x73, 0x61, 0x2d, 0x73, 0x68, 0x61, 0x32, 0x2d, 0x35, 0x31, 0x32],
    };
    assert(r@ =~= sig_type_name(d));
    r
}

/// The signature blob for a raw signature made under `flags`.
pub fn signature_blob(flags: u32, raw: &[u8]) -> (r: Vec<u8>)
    requires
        raw@.len() <= u32::MAX,
    ensures
        r@ == signature_blob_of(flags, raw@),
{
    let mut out: Vec<u8> = Vec::new();
    let ty = sig_type_bytes(digest_of_flags(flags));
    write_string(&mut out, &ty);
    write_string(&mut out, raw);
    assert(out@ =~= signature_blob_of(flags, raw@));
    out
}

/// Whether `ty` is the key type name `ssh-rsa`.
fn is_ssh_rsa(ty: &[u8]) -> (r: bool)
    ensures
        r == (ty@ == ssh_rsa_name()),
{
    let name: Vec<u8> = vec![0x73u8, 0x73, 0x68, 0x2d, 0x72, 0x73, 0x61];
    assert(name@ =~= ssh_rsa_name());
    bytes_equal(ty, &name)
}

impl PublicKey {
    /// The key type name.
    pub fn key_type(&self) -> (r: &str)
        ensures
            r@ == "ssh-rsa"@,
    {
        match self {
            PublicKey::RSA { .. } => "ssh-rsa",
        }
    }

    /// The public key blob.
    pub fn encode(&self) -> (r: Vec<u8>)
        requires
            self@.e.len() < u32::MAX,
            self@.n.len() < u32::MAX,
        ensures
            r@ == public_blob(self@),
    {
        match self {
            PublicKey::RSA { e, n } => {
                let e = strip_leading_zeros(e);
                let n = strip_leading_zeros(n);
                let mut buf: Vec<u8> = Vec::new();
                let name: Vec<u8> = vec![0x73u8, 0x73, 0x68, 0x2d, 0x72, 0x73, 0x61];
                assert(name@ =~= ssh_rsa_name());
                write_string(&mut buf, &name);
                write_mpint(&mut buf, &e);
                write_mpint(&mut buf, &n);
                buf
            },
        }
    }

    /// Reads a public key blob.
    pub fn decode(buf: &[u8]) -> (r: Result<PublicKey, KeyError>)
        ensures
            match parse_public_blob(buf@) {
                Ok(k) => r matches Ok(pk) && pk@ == k,
                Err(e) => r == Err::<PublicKey, KeyError>(e),
            },
    {
        let mut cur = Reader::new(buf);
        let ty = match cur.read_string() {
            Ok(v) => v,
            Err(e) => return Err(KeyError::Wire(e)),
        };
        if !is_ssh_rsa(&ty) {
            return Err(KeyError::UnknownKeyType);
        }
        let e = match cur.read_mpint() {
            Ok(v) => v,
            Err(err) => return Err(KeyError::Wire(err)),
        };
        let n = match cur.read_mpint() {
            Ok(v) => v,
            Err(err) => return Err(KeyError::Wire(err)),
        };
        Ok(PublicKey::RSA { e, n })
    }
}

impl PartialEq for PublicKey {
    fn eq(&self, other: &PublicKey) -> (r: bool) {
        match (self, other) {
            (PublicKey::RSA { e, n }, PublicKey::RSA { e: e1, n: n1 }) => bytes_equal(
                &strip_leading_zeros(n),
                &strip_leading_zeros(n1),
            ) && bytes_equal(&strip_leading_zeros(e), &strip_leading_zeros(e1)),
        }
    }
}

impl vstd::std_specs::cmp::PartialEqSpecImpl for PublicKey {
    open spec fn obeys_eq_spec() -> bool {
        true
    }

    open spec fn eq_spec(&self, other: &PublicKey) -> bool {
        self@ == other@
    }
}

/// A private key with its public half and a user-chosen name.
pub struct KeyPair {
    private: PrivateKey,
    public: PublicKey,
    name: String,
}

impl View for KeyPair {
    type V = KeyPairModel;

    closed spec fn view(&self) -> KeyPairModel {
        KeyPairModel { private: self.private@, public: self.public@, name: self.name@ }
    }
}

impl KeyPair {
    pub fn new(private_key: PrivateKey, name: String) -> (r: KeyPair)
        ensures
            r@ == (KeyPairModel {
                private: private_key@,
                public: public_of(private_key@),
                name: name@,
            }),
    {
        KeyPair { public: private_key.public(), private: private_key, name }
    }

    /// Reads a key pair as `SSH_AGENTC_ADD_IDENTITY` carries it, and computes
    /// the CRT exponents of its private key.
    pub fn from_wire(r: &mut Reader) -> (res: Result<KeyPair, KeyError>)
        ensures
            match parse_key_pair(old(r).unread()) {
                Err(e) => res == Err::<KeyPair, KeyError>(e),
                Ok((w, name, rest)) => if !wire_parts_fit(w) {
                    res == Err::<KeyPair, KeyError>(KeyError::TooLarge)
                } else if !factors_usable(w) {
                    res == Err::<KeyPair, KeyError>(KeyError::BadFactor)
                } else {
                    &&& res matches Ok(kp) && kp@ == key_pair_of(w, name)
                    &&& final(r).unread() == rest
                },
            },
    {
        let ty = match r.read_string() {
            Ok(v) => v,
            Err(e) => return Err(KeyError::Wire(e)),
        };
        if !is_ssh_rsa(&ty) {
            return Err(KeyError::UnknownKeyType);
        }
        let w = match PrivateKey::read_rsa(r) {
            Ok(w) => w,
            Err(e) => return Err(e),
        };
        let name = match r.read_string_utf8() {
            Ok(s) => s,
            Err(e) => return Err(KeyError::Wire(e)),
        };
        if !w.parts_fit() {
            return Err(KeyError::TooLarge);
        }
        if !(at_least_two(&w.p) && at_least_two(&w.q)) {
            return Err(KeyError::BadFactor);
        }
        let private = PrivateKey::with_crt(w);
        Ok(KeyPair { public: private.public(), private, name })
    }

    pub fn private(&self) -> (r: &PrivateKey)
        ensures
            r@ == self@.private,
    {
        &self.private
    }

    pub fn public(&self) -> (r: &PublicKey)
        ensures
            r@ == self@.public,
    {
        &self.public
    }

    pub fn name(&self) -> (r: &str)
        ensures
            r@ == self@.name,
    {
        self.name.as_str()
    }
}

impl RsaPrivateKey {
    /// A copy of this key.
    pub fn duplicate(&self) -> (r: RsaPrivateKey)
        ensures
            r@ == self@,
    {
        RsaPrivateKey {
            n: slice_to_vec(self.n.as_slice()),
            e: slice_to_vec(self.e.as_slice()),
            d: slice_to_vec(self.d.as_slice()),
            p: slice_to_vec(self.p.as_slice()),
            q: slice_to_vec(self.q.as_slice()),
            dp: slice_to_vec(self.dp.as_slice()),
            dq: slice_to_vec(self.dq.as_slice()),
            iqmp: slice_to_vec(self.iqmp.as_slice()),
        }
    }
}

impl PrivateKey {
    /// A copy of this key.
    pub fn duplicate(&self) -> (r: PrivateKey)
        ensures
            r@ == self@,
    {
        match self {
            PrivateKey::RSA(k) => PrivateKey::RSA(k.duplicate()),
        }
    }
}

impl PublicKey {
    /// A copy of this key.
    pub fn duplicate(&self) -> (r: PublicKey)
        ensures
            r@ == self@,
    {
        match self {
            PublicKey::RSA { e, n } => PublicKey::RSA {
                e: slice_to_vec(e.as_slice()),
                n: slice_to_vec(n.as_slice()),
            },
        }
    }
}

impl KeyPair {
    /// A copy of this key pair.
    pub fn duplicate(&self) -> (r: KeyPair)
        ensures
            r@ == self@,
    {
        KeyPair {
            private: self.private.duplicate(),
            public: self.public.duplicate(),
            name: self.name.clone(),
        }
    }
}

} // verus!
