use vstd::prelude::*;

use crate::crypto::{
    aes256_ctr, aes256_ctr_of, ed25519_point_valid, ed25519_public_key, ed25519_public_of,
    sha256_bytes, sha256_of, x25519_shared, x25519_shared_of,
};
use crate::error::{TONAPIError, TONAPIResult};

verus! {

/// Length of the locally drawn handshake secret.
pub const HANDSHAKE_SECRET_LEN: usize = 160;

/// Length of a complete handshake packet.
pub const HANDSHAKE_PACKET_LEN: usize = 256;

/// Tag that precedes a server public key when its key id is computed.
pub open spec fn key_id_prefix() -> Seq<u8> {
    seq![0xC6u8, 0xB4u8, 0x13u8, 0x48u8]
}

/// Identifier of a server public key: digest of the tag and the key.
pub open spec fn key_id_of(server_key: Seq<u8>) -> Seq<u8> {
    sha256_of(key_id_prefix() + server_key)
}

/// AES key protecting the handshake secret in transit.
pub open spec fn handshake_key_of(shared: Seq<u8>, hash: Seq<u8>) -> Seq<u8> {
    shared.subrange(0, 16) + hash.subrange(16, 32)
}

/// Counter-mode IV protecting the handshake secret in transit.
pub open spec fn handshake_iv_of(shared: Seq<u8>, hash: Seq<u8>) -> Seq<u8> {
    hash.subrange(0, 4) + shared.subrange(20, 32)
}

/// The handshake secret encrypted for the server whose key is `server_key`.
pub open spec fn encrypted_secret_of(
    server_key: Seq<u8>,
    ephemeral_secret: Seq<u8>,
    secret: Seq<u8>,
) -> Seq<u8> {
    let shared = x25519_shared_of(ephemeral_secret, server_key);
    let hash = sha256_of(secret);
    aes256_ctr_of(handshake_key_of(shared, hash), handshake_iv_of(shared, hash), 0, secret)
}

/// Material of one handshake attempt.
#[derive(Debug)]
pub struct HandshakeCiphers {
    /// Key id of the server public key.
    pub server_key_id: Vec<u8>,
    /// Public half of the ephemeral key pair.
    pub public_key: Vec<u8>,
    /// Digest of the handshake secret.
    pub hash: Vec<u8>,
    /// The handshake secret under the derived key and IV.
    pub encrypted_random_bytes: Vec<u8>,
}

/// Keys and IVs of an established session, taken from the handshake secret.
#[derive(Debug)]
pub struct SessionKeys {
    pub rx_key: Vec<u8>,
    pub rx_iv: Vec<u8>,
    pub tx_key: Vec<u8>,
    pub tx_iv: Vec<u8>,
}

fn copy_range(src: &Vec<u8>, from: usize, to: usize, out: &mut Vec<u8>)
    requires
        from <= to <= src@.len(),
    ensures
        final(out)@ == old(out)@ + src@.subrange(from as int, to as int),
{
    let mut i: usize = from;
    while i < to
        invariant
            from <= i <= to,
            to <= src@.len(),
            out@ == old(out)@ + src@.subrange(from as int, i as int),
        decreases to - i,
    {
        out.push(src[i]);
        i = i + 1;
        assert(out@ =~= old(out)@ + src@.subrange(from as int, i as int));
    }
}

/// Key id of `server_key`.
pub fn server_key_id(server_key: &Vec<u8>) -> (r: Vec<u8>)
    ensures
        r@ == key_id_of(server_key@),
        r@.len() == 32,
{
    let mut body: Vec<u8> = vec![0xC6u8, 0xB4u8, 0x13u8, 0x48u8];
    copy_range(server_key, 0, server_key.len(), &mut body);
    assert(body@ =~= key_id_prefix() + server_key@);
    sha256_bytes(&body)
}

/// Splits the handshake secret into the session's keys and IVs: receive key,
/// send key, receive IV and send IV, in that order.
pub fn session_keys(secret: &Vec<u8>) -> (r: SessionKeys)
    requires
        secret@.len() == HANDSHAKE_SECRET_LEN,
    ensures
        r.rx_key@ == secret@.subrange(0, 32),
        r.tx_key@ == secret@.subrange(32, 64),
        r.rx_iv@ == secret@.subrange(64, 80),
        r.tx_iv@ == secret@.subrange(80, 96),
{
    let mut rx_key: Vec<u8> = Vec::new();
    copy_range(secret, 0, 32, &mut rx_key);
    let mut tx_key: Vec<u8> = Vec::new();
    copy_range(secret, 32, 64, &mut tx_key);
    let mut rx_iv: Vec<u8> = Vec::new();
    copy_range(secret, 64, 80, &mut rx_iv);
    let mut tx_iv: Vec<u8> = Vec::new();
    copy_range(secret, 80, 96, &mut tx_iv);
    assert(rx_key@ =~= secret@.subrange(0, 32));
    assert(tx_key@ =~= secret@.subrange(32, 64));
    assert(rx_iv@ =~= secret@.subrange(64, 80));
    assert(tx_iv@ =~= secret@.subrange(80, 96));
    SessionKeys { rx_key, rx_iv, tx_key, tx_iv }
}

impl HandshakeCiphers {
    /// Builds the handshake for the server whose public key is `server_key`,
    /// from the ephemeral secret key and the 160-byte handshake secret drawn
    /// by the caller. A key that is not 32 bytes or not a curve point is
    /// refused.
    pub fn generate_handshake_ciphers(
        server_key: &Vec<u8>,
        ephemeral_secret: &Vec<u8>,
        secret: &Vec<u8>,
    ) -> (r: TONAPIResult<HandshakeCiphers>)
        requires
            ephemeral_secret@.len() == 32,
            secret@.len() == HANDSHAKE_SECRET_LEN,
        ensures
            r is Ok <==> server_key@.len() == 32 && ed25519_point_valid(server_key@),
            r matches Err(e) ==> e is InvalidServerKey,
            r matches Ok(h) ==> h.built_from(server_key@, ephemeral_secret@, secret@),
    {
        if server_key.len() != 32 {
            return Err(TONAPIError::InvalidServerKey);
        }
        let shared = match x25519_shared(ephemeral_secret, server_key) {
            Some(s) => s,
            None => {
                return Err(TONAPIError::InvalidServerKey);
            },
        };
        let server_key_id = server_key_id(server_key);
        let public_key = ed25519_public_key(ephemeral_secret);
        let hash = sha256_bytes(secret);
        let mut key: Vec<u8> = Vec::new();
        copy_range(&shared, 0, 16, &mut key);
        copy_range(&hash, 16, 32, &mut key);
        let mut iv: Vec<u8> = Vec::new();
        copy_range(&hash, 0, 4, &mut iv);
        copy_range(&shared, 20, 32, &mut iv);
        assert(key@ =~= handshake_key_of(shared@, hash@));
        assert(iv@ =~= handshake_iv_of(shared@, hash@));
        let encrypted_random_bytes = aes256_ctr(&key, &iv, 0, secret);
        Ok(HandshakeCiphers { server_key_id, public_key, hash, encrypted_random_bytes })
    }

    /// Every field is what the server key, the ephemeral secret key and the
    /// handshake secret determine.
    pub open spec fn built_from(
        &self,
        server_key: Seq<u8>,
        ephemeral_secret: Seq<u8>,
        secret: Seq<u8>,
    ) -> bool {
        &&& self.server_key_id@ == key_id_of(server_key)
        &&& self.public_key@ == ed25519_public_of(ephemeral_secret)
        &&& self.hash@ == sha256_of(secret)
        &&& self.encrypted_random_bytes@ == encrypted_secret_of(server_key, ephemeral_secret, secret)
        &&& self.wf()
    }

    /// Field lengths of a complete handshake.
    pub open spec fn wf(&self) -> bool {
        &&& self.server_key_id@.len() == 32
        &&& self.public_key@.len() == 32
        &&& self.hash@.len() == 32
        &&& self.encrypted_random_bytes@.len() == HANDSHAKE_SECRET_LEN
    }

    /// The handshake packet as sent: key id, ephemeral public key, digest of
    /// the secret and the encrypted secret.
    pub open spec fn packet_spec(&self) -> Seq<u8> {
        self.server_key_id@ + self.public_key@ + self.hash@ + self.encrypted_random_bytes@
    }

    /// The handshake packet as sent.
    pub fn packet(&self) -> (r: Vec<u8>)
        ensures
            r@ == self.packet_spec(),
            self.wf() ==> r@.len() == HANDSHAKE_PACKET_LEN,
    {
        let mut out: Vec<u8> = Vec::new();
        copy_range(&self.server_key_id, 0, self.server_key_id.len(), &mut out);
        copy_range(&self.public_key, 0, self.public_key.len(), &mut out);
        copy_range(&self.hash, 0, self.hash.len(), &mut out);
        copy_range(
            &self.encrypted_random_bytes,
            0,
            self.encrypted_random_bytes.len(),
            &mut out,
        );
        assert(self.server_key_id@.subrange(0, self.server_key_id@.len() as int)
            =~= self.server_key_id@);
        assert(self.public_key@.subrange(0, self.public_key@.len() as int) =~= self.public_key@);
        assert(self.hash@.subrange(0, self.hash@.len() as int) =~= self.hash@);
        assert(self.encrypted_random_bytes@.subrange(
            0,
            self.encrypted_random_bytes@.len() as int,
        ) =~= self.encrypted_random_bytes@);
        out
    }
}

/// The handshake packet for a server key, an ephemeral secret key and a
/// handshake secret.
pub open spec fn handshake_packet_of(
    server_key: Seq<u8>,
    ephemeral_secret: Seq<u8>,
    secret: Seq<u8>,
) -> Seq<u8> {
    key_id_of(server_key) + ed25519_public_of(ephemeral_secret) + sha256_of(secret)
        + encrypted_secret_of(server_key, ephemeral_secret, secret)
}

/// With the server key and the injected randomness fixed, every handshake
/// built from them sends the same 256 bytes.
pub proof fn lemma_handshake_deterministic(
    server_key: Seq<u8>,
    ephemeral_secret: Seq<u8>,
    secret: Seq<u8>,
    a: HandshakeCiphers,
    b: HandshakeCiphers,
)
    requires
        a.built_from(server_key, ephemeral_secret, secret),
        b.built_from(server_key, ephemeral_secret, secret),
    ensures
        a.packet_spec() == b.packet_spec(),
        a.packet_spec() == handshake_packet_of(server_key, ephemeral_secret, secret),
        a.packet_spec().len() == HANDSHAKE_PACKET_LEN,
{
}

} // verus!
