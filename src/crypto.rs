use vstd::prelude::*;

verus! {

/// Value of one lowercase hexadecimal digit written in ASCII.
pub open spec fn hex_digit_value(c: u8) -> int {
    if 48 <= c <= 57 { c - 48 } else { c - 87 }
}

pub open spec fn is_lower_hex(c: u8) -> bool {
    (48 <= c <= 57) || (97 <= c <= 102)
}

/// The first `n` bytes written by a lowercase hexadecimal text, two digits
/// per byte.
pub open spec fn hex_decoded(h: Seq<u8>, n: nat) -> Seq<u8> {
    Seq::new(
        n,
        |i: int| (hex_digit_value(h[2 * i]) * 16 + hex_digit_value(h[2 * i + 1])) as u8,
    )
}

/// Lowercase hexadecimal SHA-256 digest of `data`, as ASCII bytes.
pub uninterp spec fn sha256_hex_of(data: Seq<u8>) -> Seq<u8>;

/// The 32-byte SHA-256 digest of `data`.
pub open spec fn sha256_of(data: Seq<u8>) -> Seq<u8> {
    hex_decoded(sha256_hex_of(data), 32)
}

/// Relies on `sha256::digest`: it returns `hex::encode` of the SHA-256 digest,
/// 64 lowercase hexadecimal digits.
#[verifier::external_body]
fn sha256_hex(data: &Vec<u8>) -> (r: Vec<u8>)
    ensures
        r@ == sha256_hex_of(data@),
        r@.len() == 64,
        forall|i: int| 0 <= i < 64 ==> is_lower_hex(#[trigger] r@[i]),
{
    sha256::digest(data.as_slice()).into_bytes()
}

fn hex_digit(c: u8) -> (r: u8)
    requires
        is_lower_hex(c),
    ensures
        r == hex_digit_value(c),
        r < 16,
{
    if c <= 57 { c - 48 } else { c - 87 }
}

/// The 32-byte SHA-256 digest of `data`.
pub fn sha256_bytes(data: &Vec<u8>) -> (r: Vec<u8>)
    ensures
        r@ == sha256_of(data@),
        r@.len() == 32,
{
    let h = sha256_hex(data);
    let mut out: Vec<u8> = Vec::new();
    let mut i: usize = 0;
    while i < 32
        invariant
            h@ == sha256_hex_of(data@),
            h@.len() == 64,
            forall|j: int| 0 <= j < 64 ==> is_lower_hex(#[trigger] h@[j]),
            i <= 32,
            out@.len() == i,
            forall|j: int| 0 <= j < i ==> #[trigger] out@[j] == hex_decoded(h@, 32)[j],
        decreases 32 - i,
    {
        let hi = hex_digit(h[2 * i]);
        let lo = hex_digit(h[2 * i + 1]);
        out.push(hi * 16 + lo);
        i = i + 1;
    }
    assert(out@ =~= sha256_of(data@));
    out
}

/// Ed25519 public key belonging to the 32-byte secret key `secret`.
pub uninterp spec fn ed25519_public_of(secret: Seq<u8>) -> Seq<u8>;

/// Relies on `ed25519_dalek::SigningKey::from_bytes` and `verifying_key`:
/// the 32-byte public key is a function of the secret key alone.
#[verifier::external_body]
pub(crate) fn ed25519_public_key(secret: &Vec<u8>) -> (r: Vec<u8>)
    requires
        secret@.len() == 32,
    ensures
        r@ == ed25519_public_of(secret@),
        r@.len() == 32,
{
    let s: [u8; 32] = secret.as_slice().try_into().unwrap();
    ed25519_dalek::SigningKey::from_bytes(&s).verifying_key().to_bytes().to_vec()
}

/// Whether 32 bytes are the compressed form of a point on the Ed25519 curve.
pub uninterp spec fn ed25519_point_valid(key: Seq<u8>) -> bool;

/// X25519 shared secret of a local Ed25519 secret key and a peer's Ed25519
/// public key, both taken to their Montgomery form.
pub uninterp spec fn x25519_shared_of(secret: Seq<u8>, peer: Seq<u8>) -> Seq<u8>;

/// Relies on `ed25519_dalek::VerifyingKey::from_bytes` (fails on bytes that
/// are not a curve point), `VerifyingKey::to_montgomery`,
/// `SigningKey::to_scalar_bytes` and `MontgomeryPoint::mul_clamped`: the
/// Diffie-Hellman agreement between the two keys, 32 bytes.
#[verifier::external_body]
pub(crate) fn x25519_shared(secret: &Vec<u8>, peer: &Vec<u8>) -> (r: Option<Vec<u8>>)
    requires
        secret@.len() == 32,
        peer@.len() == 32,
    ensures
        r is Some <==> ed25519_point_valid(peer@),
        r matches Some(s) ==> s@ == x25519_shared_of(secret@, peer@) && s@.len() == 32,
{
    let s: [u8; 32] = secret.as_slice().try_into().unwrap();
    let p: [u8; 32] = peer.as_slice().try_into().unwrap();
    match ed25519_dalek::VerifyingKey::from_bytes(&p) {
        Ok(vk) => {
            let scalar = ed25519_dalek::SigningKey::from_bytes(&s).to_scalar_bytes();
            Some(vk.to_montgomery().mul_clamped(scalar).to_bytes().to_vec())
        },
        Err(_) => None,
    }
}

/// `data` combined with the AES-256 counter-mode keystream of `key` and `iv`
/// (128-bit big-endian counter), starting `offset` bytes into the keystream.
pub uninterp spec fn aes256_ctr_of(key: Seq<u8>, iv: Seq<u8>, offset: nat, data: Seq<u8>) -> Seq<u8>;

/// Relies on `ctr::Ctr128BE::<aes::Aes256>::new`, `seek` and `apply_keystream`:
/// the output is the input combined with the keystream from byte `offset`
/// on, of the same length. A 128-bit block counter does not run out below
/// 2^64 bytes.
#[verifier::external_body]
pub(crate) fn aes256_ctr(key: &Vec<u8>, iv: &Vec<u8>, offset: u64, data: &Vec<u8>) -> (r: Vec<u8>)
    requires
        key@.len() == 32,
        iv@.len() == 16,
        offset + data@.len() < 0x1_0000_0000_0000_0000,
    ensures
        r@ == aes256_ctr_of(key@, iv@, offset as nat, data@),
        r@.len() == data@.len(),
{
    let mut cipher = <ctr::Ctr128BE<aes::Aes256> as ctr::cipher::KeyIvInit>::new(
        key.as_slice().into(),
        iv.as_slice().into(),
    );
    ctr::cipher::StreamCipherSeek::seek(&mut cipher, offset);
    let mut out = data.clone();
    ctr::cipher::StreamCipher::apply_keystream(&mut cipher, &mut out);
    out
}

} // verus!
