use vstd::prelude::*;

use crate::adnl::{frame_intact, frame_of, frame_size, frame_whole, ADNLPacket, NONCE_LEN};
use crate::crypto::{aes256_ctr, aes256_ctr_of};
use crate::error::{TONAPIError, TONAPIResult};
use crate::handshake::SessionKeys;

verus! {

/// An established session: the derived keys and how far each direction's
/// keystream has been used.
#[derive(Debug)]
pub struct Session {
    keys: SessionKeys,
    tx_offset: u64,
    rx_offset: u64,
}

impl Session {
    pub closed spec fn tx_key(&self) -> Seq<u8> {
        self.keys.tx_key@
    }

    pub closed spec fn tx_iv(&self) -> Seq<u8> {
        self.keys.tx_iv@
    }

    pub closed spec fn rx_key(&self) -> Seq<u8> {
        self.keys.rx_key@
    }

    pub closed spec fn rx_iv(&self) -> Seq<u8> {
        self.keys.rx_iv@
    }

    /// Keystream bytes used so far when sending.
    pub closed spec fn sent(&self) -> nat {
        self.tx_offset as nat
    }

    /// Keystream bytes used so far when receiving.
    pub closed spec fn received(&self) -> nat {
        self.rx_offset as nat
    }

    pub closed spec fn wf(&self) -> bool {
        &&& self.keys.tx_key@.len() == 32
        &&& self.keys.rx_key@.len() == 32
        &&& self.keys.tx_iv@.len() == 16
        &&& self.keys.rx_iv@.len() == 16
    }

    /// A session whose keystreams start at their beginning.
    pub fn new(keys: SessionKeys) -> (r: Session)
        requires
            keys.tx_key@.len() == 32,
            keys.rx_key@.len() == 32,
            keys.tx_iv@.len() == 16,
            keys.rx_iv@.len() == 16,
        ensures
            r.wf(),
            r.tx_key() == keys.tx_key@,
            r.tx_iv() == keys.tx_iv@,
            r.rx_key() == keys.rx_key@,
            r.rx_iv() == keys.rx_iv@,
            r.sent() == 0,
            r.received() == 0,
    {
        Session { keys, tx_offset: 0, rx_offset: 0 }
    }

    /// Frames `payload` under `nonce` and encrypts the frame with the send
    /// keystream where it left off.
    pub fn seal(&mut self, payload: Vec<u8>, nonce: Vec<u8>) -> (r: Vec<u8>)
        requires
            old(self).wf(),
            nonce@.len() == NONCE_LEN,
            payload@.len() + 64 < 0x1_0000_0000,
            old(self).sent() + payload@.len() + 68 < 0x1_0000_0000_0000_0000,
        ensures
            final(self).wf(),
            r@ == aes256_ctr_of(
                old(self).tx_key(),
                old(self).tx_iv(),
                old(self).sent(),
                frame_of(nonce@, payload@),
            ),
            final(self).sent() == old(self).sent() + r@.len(),
            r@.len() == payload@.len() + 68,
            final(self).received() == old(self).received(),
            final(self).tx_key() == old(self).tx_key(),
            final(self).tx_iv() == old(self).tx_iv(),
            final(self).rx_key() == old(self).rx_key(),
            final(self).rx_iv() == old(self).rx_iv(),
    {
        let frame = ADNLPacket::encode(payload, nonce).to_bytes();
        let sealed = aes256_ctr(&self.keys.tx_key, &self.keys.tx_iv, self.tx_offset, &frame);
        self.tx_offset = self.tx_offset + sealed.len() as u64;
        sealed
    }

    /// Decrypts the bytes received since the last frame with the receive
    /// keystream and reads one frame from them. On success the keystream moves
    /// past that frame; on failure it stays. A checksum mismatch ends the
    /// session: frame boundaries can no longer be trusted.
    pub fn open(&mut self, received: &Vec<u8>) -> (r: TONAPIResult<ADNLPacket>)
        requires
            old(self).wf(),
            old(self).received() + received@.len() < 0x1_0000_0000_0000_0000,
        ensures
            final(self).wf(),
            ({
                let d = aes256_ctr_of(
                    old(self).rx_key(),
                    old(self).rx_iv(),
                    old(self).received(),
                    received@,
                );
                &&& r is Ok <==> frame_whole(d) && frame_intact(d)
                &&& r matches Ok(p) ==> p.wf() && p.wire() == d.subrange(0, 4 + frame_size(d) as int)
                    && final(self).received() == old(self).received() + 4 + frame_size(d)
                &&& r matches Err(e) ==> final(self).received() == old(self).received() && (
                e is FrameTruncated || e is FrameSizeInvalid || e is IntegrityMismatch)
                &&& frame_whole(d) && !frame_intact(d) ==> (r matches Err(e) && e is IntegrityMismatch)
            }),
            final(self).sent() == old(self).sent(),
            final(self).tx_key() == old(self).tx_key(),
            final(self).tx_iv() == old(self).tx_iv(),
            final(self).rx_key() == old(self).rx_key(),
            final(self).rx_iv() == old(self).rx_iv(),
    {
        let plain = aes256_ctr(&self.keys.rx_key, &self.keys.rx_iv, self.rx_offset, received);
        match ADNLPacket::decode(&plain) {
            Ok((p, used)) => {
                self.rx_offset = self.rx_offset + used as u64;
                Ok(p)
            },
            Err(e) => Err(e),
        }
    }

    /// Reads the server's confirmation of the handshake: the first frame it
    /// sends, which must carry an empty payload.
    pub fn check_confirmation(&mut self, received: &Vec<u8>) -> (r: TONAPIResult<()>)
        requires
            old(self).wf(),
            old(self).received() == 0,
            received@.len() < 0x1_0000_0000_0000_0000,
        ensures
            final(self).wf(),
            r is Ok <==> confirmation_valid(old(self).rx_key(), old(self).rx_iv(), received@),
            r matches Err(e) ==> e is HandshakeRejected,
            final(self).sent() == old(self).sent(),
    {
        match self.open(received) {
            Ok(p) => {
                if p.payload.len() == 0 {
                    Ok(())
                } else {
                    Err(TONAPIError::HandshakeRejected)
                }
            },
            Err(_) => Err(TONAPIError::HandshakeRejected),
        }
    }
}

/// The confirmation is accepted when, decrypted from the start of the
/// receive keystream, it starts with a whole, intact frame with an empty
/// payload.
pub open spec fn confirmation_valid(rx_key: Seq<u8>, rx_iv: Seq<u8>, received: Seq<u8>) -> bool {
    let d = aes256_ctr_of(rx_key, rx_iv, 0, received);
    frame_whole(d) && frame_intact(d) && frame_size(d) == 64
}

} // verus!
