//! Key pairs of the two signature schemes, their account identifiers and
//! their key containers.
use vstd::prelude::*;
use crate::text::{hex_lower, hex_string, push_char};
use ed25519_dalek::pkcs8::spki::der::pem;

verus! {

/// The signature schemes an instance may get a key pair of.
#[derive(PartialEq, Eq, Structural, Clone, Copy, Debug)]
pub enum Scheme {
    Ed25519,
    Secp256k1,
}

/// A secret key: the scheme and the 32 raw key bytes.
#[derive(Debug)]
pub struct SecretKey {
    pub scheme: Scheme,
    pub bytes: Vec<u8>,
}

/// A public key: the scheme and the key bytes (32 for Ed25519, a compressed
/// SEC1 point of 33 for secp256k1).
#[derive(Debug)]
pub struct PublicKey {
    pub scheme: Scheme,
    pub bytes: Vec<u8>,
}

/// `pem_rfc7468::Error`, the error type of `encode_string`.
#[verifier::external_type_specification]
#[verifier::external_body]
pub struct ExPemError(pem::Error);

/// The order of the secp256k1 group.
pub open spec fn secp256k1_order() -> int {
    0xFFFFFFFFFFFFFFFFFFFFFFFFFFFFFFFEBAAEDCE6AF48A03BBFD25E8CD0364141int
}

/// The bytes read as a big-endian number.
pub open spec fn big_endian(b: Seq<u8>) -> int
    decreases b.len(),
{
    if b.len() == 0 {
        0
    } else {
        big_endian(b.drop_last()) * 256 + b.last()
    }
}

/// 32 bytes that are a secp256k1 secret scalar: neither zero nor beyond
/// the group order.
pub open spec fn secp256k1_scalar_ok(b: Seq<u8>) -> bool {
    b.len() == 32 && 0 < big_endian(b) < secp256k1_order()
}

/// The Ed25519 public key of a 32-byte secret key.
pub uninterp spec fn ed25519_public_of(secret: Seq<u8>) -> Seq<u8>;

/// The compressed SEC1 public point of a secp256k1 secret scalar.
pub uninterp spec fn secp256k1_public_of(secret: Seq<u8>) -> Seq<u8>;

/// The PEM text of `der` under `label`.
pub uninterp spec fn pem_document(label: Seq<char>, der: Seq<u8>) -> Seq<char>;

/// Relies on `ed25519_dalek::SigningKey::from_bytes`, `verifying_key` and
/// `VerifyingKey::to_bytes`: the public key that a 32-byte secret key gives.
#[verifier::external_body]
fn ed25519_public(secret: &Vec<u8>) -> (r: Vec<u8>)
    requires
        secret@.len() == 32,
    ensures
        r@ == ed25519_public_of(secret@),
        r@.len() == 32,
{
    let bytes: [u8; 32] = secret.as_slice().try_into().unwrap();
    ed25519_dalek::SigningKey::from_bytes(&bytes).verifying_key().to_bytes().to_vec()
}

/// Relies on `k256::ecdsa::SigningKey::from_slice`, which accepts 32 bytes
/// exactly when they are a nonzero scalar below the group order, and on
/// `VerifyingKey::to_sec1_bytes`, which compresses the point.
#[verifier::external_body]
fn secp256k1_public(secret: &Vec<u8>) -> (r: Option<Vec<u8>>)
    requires
        secret@.len() == 32,
    ensures
        r.is_some() <==> secp256k1_scalar_ok(secret@),
        r.is_some() ==> r.unwrap()@ == secp256k1_public_of(secret@),
        r.is_some() ==> r.unwrap()@.len() == 33,
{
    match k256::ecdsa::SigningKey::from_slice(secret.as_slice()) {
        Ok(key) => Some(key.verifying_key().to_sec1_bytes().to_vec()),
        Err(_) => None,
    }
}

/// A label that RFC 7468's strict grammar accepts, as `pem_rfc7468`
/// checks it: printable ASCII but `-`, tabs and spaces, no two blanks in a
/// row.
pub open spec fn pem_label_ok(label: Seq<char>) -> bool {
    &&& forall|i: int|
        0 <= i < label.len() ==> {
            let c = #[trigger] label[i] as int;
            (0x21 <= c <= 0x2C) || (0x2E <= c <= 0x7E) || c == 0x09 || c == 0x20
        }
    &&& forall|i: int|
        0 <= i < label.len() - 1 ==> !((label[i] == ' ' || label[i] == '\t') && (
        #[trigger] label[i + 1] == ' ' || label[i + 1] == '\t'))
}

/// Relies on `pem_rfc7468::encode_string` with CRLF line endings: the
/// base64 body between the begin and end lines of `label`. It fails only
/// on a label outside the grammar or on a length that overflows, which a
/// few kilobytes cannot reach.
#[verifier::external_body]
fn pem_encode(label: &str, der: &Vec<u8>) -> (r: Result<String, pem::Error>)
    ensures
        r is Ok ==> r->Ok_0@ == pem_document(label@, der@),
        pem_label_ok(label@) && der@.len() <= 4096 ==> r is Ok,
{
    pem::encode_string(label, pem::LineEnding::CRLF, der.as_slice())
}

/// Relies on `rand_core::OsRng`'s `try_fill_bytes`, which fills the buffer
/// from the operating system's random source or reports that it could not.
#[verifier::external_body]
fn os_random_bytes() -> (r: Option<Vec<u8>>)
    ensures
        r.is_some() ==> r.unwrap()@.len() == 33,
{
    let mut buf = [0u8; 33];
    match rand::RngCore::try_fill_bytes(&mut rand::rngs::OsRng, &mut buf) {
        Ok(()) => Some(buf.to_vec()),
        Err(_) => None,
    }
}

/// The key pair of `scheme` for the secret `bytes`; `None` when the bytes
/// are no secret key of that scheme.
pub fn keypair_from(scheme: Scheme, bytes: Vec<u8>) -> (r: Option<(PublicKey, SecretKey)>)
    requires
        bytes@.len() == 32,
    ensures
        r.is_some() <==> (scheme == Scheme::Ed25519 || secp256k1_scalar_ok(bytes@)),
        r.is_some() ==> {
            let (pk, sk) = r.unwrap();
            &&& pk.scheme == scheme
            &&& sk.scheme == scheme
            &&& sk.bytes@ == bytes@
            &&& pk.bytes@.len() <= 64
            &&& pk.bytes@ == match scheme {
                Scheme::Ed25519 => ed25519_public_of(bytes@),
                Scheme::Secp256k1 => secp256k1_public_of(bytes@),
            }
        },
{
    match scheme {
        Scheme::Ed25519 => {
            let public = ed25519_public(&bytes);
            Some((PublicKey { scheme, bytes: public }, SecretKey { scheme, bytes }))
        },
        Scheme::Secp256k1 => match secp256k1_public(&bytes) {
            Some(public) => Some((PublicKey { scheme, bytes: public }, SecretKey { scheme, bytes })),
            None => None,
        },
    }
}

/// A fresh key pair: one of the two schemes with equal chance, from 32
/// bytes of the operating system's random source. `None` when that source
/// fails, or in the rare draw that is no secp256k1 scalar.
pub fn generate_pair() -> (r: Option<(PublicKey, SecretKey)>)
    ensures
        r.is_some() ==> {
            let (pk, sk) = r.unwrap();
            &&& pk.scheme == sk.scheme
            &&& sk.bytes@.len() == 32
            &&& pk.bytes@.len() <= 64
            &&& pk.bytes@ == match sk.scheme {
                Scheme::Ed25519 => ed25519_public_of(sk.bytes@),
                Scheme::Secp256k1 => secp256k1_public_of(sk.bytes@),
            }
        },
{
    let drawn = match os_random_bytes() {
        Some(d) => d,
        None => {
            return None;
        },
    };
    let mut bytes: Vec<u8> = Vec::new();
    let mut i: usize = 0;
    while i < 32
        invariant
            i <= 32,
            drawn@.len() == 33,
            bytes@.len() == i,
        decreases 32 - i,
    {
        bytes.push(drawn[i]);
        i = i + 1;
    }
    let scheme = if drawn[32] % 2 == 0 {
        Scheme::Ed25519
    } else {
        Scheme::Secp256k1
    };
    keypair_from(scheme, bytes)
}

/// The tag of the scheme in an account identifier.
pub open spec fn scheme_tag(scheme: Scheme) -> Seq<char> {
    match scheme {
        Scheme::Ed25519 => seq!['0', '1'],
        Scheme::Secp256k1 => seq!['0', '2'],
    }
}

impl PublicKey {
    /// The account identifier: the scheme's two-digit tag and the key bytes
    /// in lowercase hexadecimal.
    pub fn to_string(&self) -> (r: String)
        ensures
            r@ == scheme_tag(self.scheme) + hex_lower(self.bytes@),
    {
        let mut s = String::new();
        push_char(&mut s, '0');
        match self.scheme {
            Scheme::Ed25519 => push_char(&mut s, '1'),
            Scheme::Secp256k1 => push_char(&mut s, '2'),
        }
        let hex = hex_string(&self.bytes);
        s.append(hex.as_str());
        proof {
            assert(s@ =~= scheme_tag(self.scheme) + hex_lower(self.bytes@));
        }
        s
    }
}

/// A DER element with a short-form length.
pub open spec fn tlv(tag: u8, content: Seq<u8>) -> Seq<u8> {
    seq![tag, content.len() as u8] + content
}

/// The object identifier 1.3.101.112 (Ed25519).
pub open spec fn ed25519_oid() -> Seq<u8> {
    seq![43u8, 101u8, 112u8]
}

/// The object identifier 1.3.132.0.10 (secp256k1).
pub open spec fn secp256k1_oid() -> Seq<u8> {
    seq![43u8, 129u8, 4u8, 0u8, 10u8]
}

/// The DER of a secret key: for Ed25519 a PKCS #8 structure (RFC 8410:
/// version 0, the algorithm, the key as an octet string inside an octet
/// string); for secp256k1 a SEC1 `ECPrivateKey` (version 1, the key as an
/// octet string, the curve under the context tag 0).
pub open spec fn secret_der(scheme: Scheme, key: Seq<u8>) -> Seq<u8> {
    match scheme {
        Scheme::Ed25519 => tlv(
            0x30,
            tlv(0x02, seq![0u8]) + tlv(0x30, tlv(0x06, ed25519_oid())) + tlv(0x04, tlv(0x04, key)),
        ),
        Scheme::Secp256k1 => tlv(
            0x30,
            tlv(0x02, seq![1u8]) + tlv(0x04, key) + tlv(0xA0, tlv(0x06, secp256k1_oid())),
        ),
    }
}

/// The PEM label of a secret key of `scheme`.
pub open spec fn secret_label(scheme: Scheme) -> Seq<char> {
    match scheme {
        Scheme::Ed25519 => seq!['P', 'R', 'I', 'V', 'A', 'T', 'E', ' ', 'K', 'E', 'Y'],
        Scheme::Secp256k1 => seq![
            'E',
            'C',
            ' ',
            'P',
            'R',
            'I',
            'V',
            'A',
            'T',
            'E',
            ' ',
            'K',
            'E',
            'Y',
        ],
    }
}

fn push_bytes(out: &mut Vec<u8>, bytes: &Vec<u8>)
    ensures
        final(out)@ == old(out)@ + bytes@,
{
    let mut i: usize = 0;
    while i < bytes.len()
        invariant
            i <= bytes@.len(),
            out@ == old(out)@ + bytes@.subrange(0, i as int),
        decreases bytes@.len() - i,
    {
        out.push(bytes[i]);
        i = i + 1;
        proof {
            assert(old(out)@ + bytes@.subrange(0, i as int) =~= out@);
        }
    }
    proof {
        assert(bytes@.subrange(0, i as int) =~= bytes@);
    }
}

fn element(tag: u8, content: Vec<u8>) -> (r: Vec<u8>)
    requires
        content@.len() < 128,
    ensures
        r@ == tlv(tag, content@),
{
    let mut r: Vec<u8> = Vec::new();
    r.push(tag);
    r.push(content.len() as u8);
    push_bytes(&mut r, &content);
    proof {
        assert(r@ =~= tlv(tag, content@));
    }
    r
}

fn concat(a: Vec<u8>, b: Vec<u8>) -> (r: Vec<u8>)
    ensures
        r@ == a@ + b@,
{
    let mut r = a;
    push_bytes(&mut r, &b);
    r
}

/// The DER of the secret key `key` of `scheme`.
pub fn encode_secret_der(scheme: Scheme, key: &Vec<u8>) -> (r: Vec<u8>)
    requires
        key@.len() == 32,
    ensures
        r@ == secret_der(scheme, key@),
        r@.len() == 48,
{
    let mut raw: Vec<u8> = Vec::new();
    push_bytes(&mut raw, key);
    match scheme {
        Scheme::Ed25519 => {
            let zero = vec![0u8];
            let oid = vec![43u8, 101u8, 112u8];
            proof {
                assert(seq![0u8] =~= zero@);
                assert(ed25519_oid() =~= oid@);
            }
            let version = element(0x02, zero);
            let algorithm = element(0x30, element(0x06, oid));
            let private = element(0x04, element(0x04, raw));
            element(0x30, concat(concat(version, algorithm), private))
        },
        Scheme::Secp256k1 => {
            let one = vec![1u8];
            let oid = vec![43u8, 129u8, 4u8, 0u8, 10u8];
            proof {
                assert(seq![1u8] =~= one@);
                assert(secp256k1_oid() =~= oid@);
            }
            let version = element(0x02, one);
            let private = element(0x04, raw);
            let curve = element(0xA0, element(0x06, oid));
            element(0x30, concat(concat(version, private), curve))
        },
    }
}

/// The key that `der` holds, when it is the DER of a secret key of either
/// scheme.
pub open spec fn secret_of_der(der: Seq<u8>) -> Option<(Scheme, Seq<u8>)> {
    if der.len() == 48 && der == secret_der(Scheme::Ed25519, der.subrange(16, 48)) {
        Some((Scheme::Ed25519, der.subrange(16, 48)))
    } else if der.len() == 48 && der == secret_der(Scheme::Secp256k1, der.subrange(7, 39)) {
        Some((Scheme::Secp256k1, der.subrange(7, 39)))
    } else {
        None
    }
}

fn slice_of(v: &Vec<u8>, from: usize, to: usize) -> (r: Vec<u8>)
    requires
        from <= to <= v@.len(),
    ensures
        r@ == v@.subrange(from as int, to as int),
{
    let mut r: Vec<u8> = Vec::new();
    let mut i: usize = from;
    while i < to
        invariant
            from <= i <= to,
            to <= v@.len(),
            r@ == v@.subrange(from as int, i as int),
        decreases to - i,
    {
        r.push(v[i]);
        i = i + 1;
        proof {
            assert(r@ =~= v@.subrange(from as int, i as int));
        }
    }
    r
}

fn same_bytes(a: &Vec<u8>, b: &Vec<u8>) -> (r: bool)
    ensures
        r == (a@ == b@),
{
    if a.len() != b.len() {
        return false;
    }
    let mut i: usize = 0;
    while i < a.len()
        invariant
            i <= a@.len(),
            a@.len() == b@.len(),
            forall|j: int| 0 <= j < i ==> a@[j] == b@[j],
        decreases a@.len() - i,
    {
        if a[i] != b[i] {
            return false;
        }
        i = i + 1;
    }
    proof {
        assert(a@ =~= b@);
    }
    true
}

/// Reads a secret key back from its DER.
pub fn decode_secret_der(der: &Vec<u8>) -> (r: Option<SecretKey>)
    ensures
        match secret_of_der(der@) {
            Some((scheme, key)) => r.is_some() && r.unwrap().scheme == scheme && r.unwrap().bytes@
                == key,
            None => r.is_none(),
        },
{
    if der.len() != 48 {
        return None;
    }
    let key = slice_of(der, 16, 48);
    if same_bytes(&encode_secret_der(Scheme::Ed25519, &key), der) {
        return Some(SecretKey { scheme: Scheme::Ed25519, bytes: key });
    }
    let key = slice_of(der, 7, 39);
    if same_bytes(&encode_secret_der(Scheme::Secp256k1, &key), der) {
        return Some(SecretKey { scheme: Scheme::Secp256k1, bytes: key });
    }
    None
}

/// Decoding the DER of a secret key gives back its scheme and its raw key
/// bytes, for both schemes.
pub proof fn law_secret_der_round_trip(scheme: Scheme, key: Seq<u8>)
    requires
        key.len() == 32,
    ensures
        secret_of_der(secret_der(scheme, key)) == Some((scheme, key)),
{
    let d = secret_der(scheme, key);
    match scheme {
        Scheme::Ed25519 => {
            assert(d.subrange(16, 48) =~= key);
        },
        Scheme::Secp256k1 => {
            assert(d.subrange(7, 39) =~= key);
            assert(d[4] == 1u8);
            assert(secret_der(Scheme::Ed25519, d.subrange(16, 48))[4] == 0u8);
        },
    }
}

/// The object identifier 1.2.840.10045.2.1 (an elliptic-curve public key).
pub open spec fn ec_public_key_oid() -> Seq<u8> {
    seq![42u8, 134u8, 72u8, 206u8, 61u8, 2u8, 1u8]
}

/// The DER `SubjectPublicKeyInfo` of a public key: the algorithm (for
/// secp256k1 with its curve) and the key as a bit string.
pub open spec fn public_der(scheme: Scheme, key: Seq<u8>) -> Seq<u8> {
    match scheme {
        Scheme::Ed25519 => tlv(
            0x30,
            tlv(0x30, tlv(0x06, ed25519_oid())) + tlv(0x03, seq![0u8] + key),
        ),
        Scheme::Secp256k1 => tlv(
            0x30,
            tlv(0x30, tlv(0x06, ec_public_key_oid()) + tlv(0x06, secp256k1_oid())) + tlv(
                0x03,
                seq![0u8] + key,
            ),
        ),
    }
}

pub open spec fn public_label() -> Seq<char> {
    seq!['P', 'U', 'B', 'L', 'I', 'C', ' ', 'K', 'E', 'Y']
}

impl PublicKey {
    /// The DER of this key.
    pub fn der(&self) -> (r: Vec<u8>)
        requires
            self.bytes@.len() <= 64,
        ensures
            r@ == public_der(self.scheme, self.bytes@),
    {
        let mut bits: Vec<u8> = vec![0u8];
        push_bytes(&mut bits, &self.bytes);
        match self.scheme {
            Scheme::Ed25519 => {
                let oid = vec![43u8, 101u8, 112u8];
                proof {
                    assert(ed25519_oid() =~= oid@);
                    assert(bits@ =~= seq![0u8] + self.bytes@);
                }
                let algorithm = element(0x30, element(0x06, oid));
                element(0x30, concat(algorithm, element(0x03, bits)))
            },
            Scheme::Secp256k1 => {
                let kind = vec![42u8, 134u8, 72u8, 206u8, 61u8, 2u8, 1u8];
                let curve = vec![43u8, 129u8, 4u8, 0u8, 10u8];
                proof {
                    assert(ec_public_key_oid() =~= kind@);
                    assert(secp256k1_oid() =~= curve@);
                    assert(bits@ =~= seq![0u8] + self.bytes@);
                }
                let algorithm = element(0x30, concat(element(0x06, kind), element(0x06, curve)));
                element(0x30, concat(algorithm, element(0x03, bits)))
            },
        }
    }

    /// The PEM container of this key, labelled `PUBLIC KEY`.
    pub fn pem(&self) -> (r: String)
        requires
            self.bytes@.len() <= 64,
        ensures
            r@ == pem_document(public_label(), public_der(self.scheme, self.bytes@)),
    {
        let der = self.der();
        proof {
            reveal_strlit("PUBLIC KEY");
        }
        let label = "PUBLIC KEY";
        assert(label@ =~= public_label());
        assert(der@.len() <= 4096);
        match pem_encode(label, &der) {
            Ok(text) => text,
            Err(_) => {
                proof {
                    assert(false);
                }
                String::new()
            },
        }
    }
}

impl SecretKey {
    /// The DER of this key.
    pub fn der(&self) -> (r: Vec<u8>)
        requires
            self.bytes@.len() == 32,
        ensures
            r@ == secret_der(self.scheme, self.bytes@),
    {
        encode_secret_der(self.scheme, &self.bytes)
    }

    /// The PEM container of this key: `PRIVATE KEY` for Ed25519, `EC
    /// PRIVATE KEY` for secp256k1.
    pub fn pem(&self) -> (r: String)
        requires
            self.bytes@.len() == 32,
        ensures
            r@ == pem_document(secret_label(self.scheme), secret_der(self.scheme, self.bytes@)),
    {
        let der = self.der();
        let label = match self.scheme {
            Scheme::Ed25519 => {
                proof {
                    reveal_strlit("PRIVATE KEY");
                }
                "PRIVATE KEY"
            },
            Scheme::Secp256k1 => {
                proof {
                    reveal_strlit("EC PRIVATE KEY");
                }
                "EC PRIVATE KEY"
            },
        };
        assert(label@ =~= secret_label(self.scheme));
        match pem_encode(label, &der) {
            Ok(text) => text,
            Err(_) => {
                proof {
                    assert(false);
                }
                String::new()
            },
        }
    }
}

} // verus!
