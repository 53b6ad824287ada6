use vstd::prelude::*;

use crate::crypto::{sha256_bytes, sha256_of};
use crate::error::{TONAPIError, TONAPIResult};

verus! {

/// Length of the random nonce that opens every frame.
pub const NONCE_LEN: usize = 32;

/// Length of the SHA-256 checksum that closes every frame.
pub const CHECKSUM_LEN: usize = 32;

/// Little-endian encoding of `n` in four bytes.
pub open spec fn le32_bytes(n: nat) -> Seq<u8> {
    let q1 = n / 256;
    let q2 = q1 / 256;
    let q3 = q2 / 256;
    seq![(n % 256) as u8, (q1 % 256) as u8, (q2 % 256) as u8, (q3 % 256) as u8]
}

/// Value of four little-endian bytes.
pub open spec fn le32_value(s: Seq<u8>) -> nat {
    (s[0] + 256 * (s[1] + 256 * (s[2] + 256 * s[3]))) as nat
}

pub proof fn lemma_le32_round_trip(n: nat)
    requires
        n < 0x1_0000_0000,
    ensures
        le32_value(le32_bytes(n)) == n,
        le32_bytes(n).len() == 4,
{
    let q1 = n / 256;
    let q2 = q1 / 256;
    let q3 = q2 / 256;
    vstd::arithmetic::div_mod::lemma_fundamental_div_mod(n as int, 256);
    vstd::arithmetic::div_mod::lemma_fundamental_div_mod(q1 as int, 256);
    vstd::arithmetic::div_mod::lemma_fundamental_div_mod(q2 as int, 256);
    assert(q3 < 256);
}

/// Size field of a frame: the length of nonce, payload and checksum together.
pub open spec fn frame_size(b: Seq<u8>) -> nat {
    le32_value(b.subrange(0, 4))
}

/// `b` starts with a whole frame whose size field covers nonce and checksum.
pub open spec fn frame_whole(b: Seq<u8>) -> bool {
    &&& b.len() >= 4
    &&& frame_size(b) >= 64
    &&& b.len() >= 4 + frame_size(b)
}

pub open spec fn frame_nonce(b: Seq<u8>) -> Seq<u8> {
    b.subrange(4, 36)
}

pub open spec fn frame_payload(b: Seq<u8>) -> Seq<u8> {
    b.subrange(36, 4 + frame_size(b) - 32)
}

pub open spec fn frame_checksum(b: Seq<u8>) -> Seq<u8> {
    b.subrange(4 + frame_size(b) - 32, 4 + frame_size(b) as int)
}

/// The checksum carried by the frame is the digest of its nonce and payload.
pub open spec fn frame_intact(b: Seq<u8>) -> bool {
    frame_checksum(b) == sha256_of(frame_nonce(b) + frame_payload(b))
}

/// Wire form of a frame with the given nonce and payload.
pub open spec fn frame_of(nonce: Seq<u8>, payload: Seq<u8>) -> Seq<u8> {
    le32_bytes(payload.len() + 64) + nonce + payload + sha256_of(nonce + payload)
}

/// A frame of the transport: size field, nonce, payload and checksum.
#[derive(Debug)]
pub struct ADNLPacket {
    /// Little-endian length of nonce, payload and checksum together.
    pub size: Vec<u8>,
    pub nonce: Vec<u8>,
    pub payload: Vec<u8>,
    /// SHA-256 digest of nonce followed by payload.
    pub sha256: Vec<u8>,
}

fn append_bytes(out: &mut Vec<u8>, src: &Vec<u8>)
    ensures
        final(out)@ == old(out)@ + src@,
{
    let mut i: usize = 0;
    while i < src.len()
        invariant
            i <= src@.len(),
            out@ == old(out)@ + src@.subrange(0, i as int),
        decreases src@.len() - i,
    {
        out.push(src[i]);
        i = i + 1;
        assert(out@ =~= old(out)@ + src@.subrange(0, i as int));
    }
    assert(src@.subrange(0, i as int) =~= src@);
}

fn slice_bytes(src: &Vec<u8>, from: usize, to: usize) -> (r: Vec<u8>)
    requires
        from <= to <= src@.len(),
    ensures
        r@ == src@.subrange(from as int, to as int),
{
    let mut out: Vec<u8> = Vec::new();
    let mut i: usize = from;
    while i < to
        invariant
            from <= i <= to,
            to <= src@.len(),
            out@ == src@.subrange(from as int, i as int),
        decreases to - i,
    {
        out.push(src[i]);
        i = i + 1;
        assert(out@ =~= src@.subrange(from as int, i as int));
    }
    out
}

impl ADNLPacket {
    /// Field lengths are fixed and the size field agrees with the payload.
    pub open spec fn wf(&self) -> bool {
        &&& self.size@.len() == 4
        &&& self.nonce@.len() == NONCE_LEN
        &&& self.sha256@.len() == CHECKSUM_LEN
        &&& le32_value(self.size@) == self.payload@.len() + NONCE_LEN + CHECKSUM_LEN
    }

    /// The bytes of the frame as sent.
    pub open spec fn wire(&self) -> Seq<u8> {
        self.size@ + self.nonce@ + self.payload@ + self.sha256@
    }

    /// Frames `payload` under the 32-byte `nonce`.
    pub fn encode(payload: Vec<u8>, nonce: Vec<u8>) -> (r: ADNLPacket)
        requires
            nonce@.len() == NONCE_LEN,
            payload@.len() + 64 < 0x1_0000_0000,
        ensures
            r.wf(),
            r.payload@ == payload@,
            r.nonce@ == nonce@,
            r.size@ == le32_bytes(payload@.len() + 64),
            r.sha256@ == sha256_of(nonce@ + payload@),
            r.wire() == frame_of(nonce@, payload@),
    {
        let n: u32 = (payload.len() + 64) as u32;
        let q1: u32 = n / 256;
        let q2: u32 = q1 / 256;
        let q3: u32 = q2 / 256;
        let size: Vec<u8> = vec![(n % 256) as u8, (q1 % 256) as u8, (q2 % 256) as u8, (q3 % 256) as u8];
        proof {
            lemma_le32_round_trip(n as nat);
            assert(size@ =~= le32_bytes(n as nat));
        }
        let mut body: Vec<u8> = Vec::new();
        append_bytes(&mut body, &nonce);
        append_bytes(&mut body, &payload);
        assert(body@ =~= nonce@ + payload@);
        let sha256 = sha256_bytes(&body);
        ADNLPacket { size, nonce, payload, sha256 }
    }

    /// The bytes of the frame as sent.
    pub fn to_bytes(&self) -> (r: Vec<u8>)
        ensures
            r@ == self.wire(),
    {
        let mut out: Vec<u8> = Vec::new();
        append_bytes(&mut out, &self.size);
        append_bytes(&mut out, &self.nonce);
        append_bytes(&mut out, &self.payload);
        append_bytes(&mut out, &self.sha256);
        assert(out@ =~= self.wire());
        out
    }

    /// Reads one frame from the start of `bytes`; returns it with the number
    /// of bytes it occupies. The payload is returned only when the checksum
    /// matches.
    pub fn decode(bytes: &Vec<u8>) -> (r: TONAPIResult<(ADNLPacket, usize)>)
        ensures
            bytes@.len() < 4 ==> (r matches Err(e) && e is FrameTruncated),
            bytes@.len() >= 4 && frame_size(bytes@) < 64 ==> (r matches Err(
                e,
            ) && e is FrameSizeInvalid),
            bytes@.len() >= 4 && frame_size(bytes@) >= 64 && bytes@.len() < 4 + frame_size(bytes@)
                ==> (r matches Err(e) && e is FrameTruncated),
            frame_whole(bytes@) && !frame_intact(bytes@) ==> (r matches Err(e)
                && e is IntegrityMismatch),
            r is Ok <==> frame_whole(bytes@) && frame_intact(bytes@),
            r matches Ok((p, used)) ==> {
                &&& p.wf()
                &&& used == 4 + frame_size(bytes@)
                &&& p.size@ == bytes@.subrange(0, 4)
                &&& p.nonce@ == frame_nonce(bytes@)
                &&& p.payload@ == frame_payload(bytes@)
                &&& p.sha256@ == frame_checksum(bytes@)
                &&& p.wire() == bytes@.subrange(0, used as int)
            },
    {
        if bytes.len() < 4 {
            return Err(TONAPIError::FrameTruncated);
        }
        let size: u64 = bytes[0] as u64 + 256 * (bytes[1] as u64 + 256 * (bytes[2] as u64 + 256
            * bytes[3] as u64));
        proof {
            assert(size == frame_size(bytes@));
        }
        if size < 64 {
            return Err(TONAPIError::FrameSizeInvalid);
        }
        if (bytes.len() as u64) < 4 + size {
            return Err(TONAPIError::FrameTruncated);
        }
        let end: usize = (4 + size) as usize;
        let size_field = slice_bytes(bytes, 0, 4);
        let nonce = slice_bytes(bytes, 4, 36);
        let payload = slice_bytes(bytes, 36, end - 32);
        let checksum = slice_bytes(bytes, end - 32, end);
        let mut body = slice_bytes(bytes, 4, 36);
        append_bytes(&mut body, &payload);
        assert(body@ =~= frame_nonce(bytes@) + frame_payload(bytes@));
        let expected = sha256_bytes(&body);
        let mut i: usize = 0;
        while i < 32
            invariant
                i <= 32,
                frame_whole(bytes@),
                end == 4 + frame_size(bytes@),
                checksum@ == frame_checksum(bytes@),
                expected@ == sha256_of(frame_nonce(bytes@) + frame_payload(bytes@)),
                checksum@.len() == 32,
                expected@.len() == 32,
                forall|j: int| 0 <= j < i ==> checksum@[j] == expected@[j],
            decreases 32 - i,
        {
            if checksum[i] != expected[i] {
                assert(checksum@ != expected@);
                return Err(TONAPIError::IntegrityMismatch);
            }
            i = i + 1;
        }
        assert(checksum@ =~= expected@);
        let p = ADNLPacket { size: size_field, nonce, payload, sha256: checksum };
        assert(p.wire() =~= bytes@.subrange(0, end as int));
        Ok((p, end))
    }
}

/// Decoding the wire form of a frame gives back its nonce and payload, and
/// the frame is whole and intact; flipping one bit of its checksum leaves the
/// frame whole but no longer intact, so it is refused.
pub proof fn lemma_frame_integrity(nonce: Seq<u8>, payload: Seq<u8>, i: int, bit: u8)
    requires
        nonce.len() == 32,
        payload.len() + 64 < 0x1_0000_0000,
        0 <= i < 32,
        bit < 8,
    ensures
        frame_whole(frame_of(nonce, payload)),
        frame_intact(frame_of(nonce, payload)),
        frame_size(frame_of(nonce, payload)) == payload.len() + 64,
        frame_nonce(frame_of(nonce, payload)) == nonce,
        frame_payload(frame_of(nonce, payload)) == payload,
        ({
            let b = frame_of(nonce, payload);
            let k = 36 + payload.len() + i;
            let flipped = b.update(k, b[k] ^ (1u8 << bit));
            frame_whole(flipped) && !frame_intact(flipped)
        }),
{
    let b = frame_of(nonce, payload);
    let n = payload.len() + 64;
    lemma_le32_round_trip(n);
    assert(b.subrange(0, 4) =~= le32_bytes(n));
    assert(frame_nonce(b) =~= nonce);
    assert(frame_payload(b) =~= payload);
    assert(frame_checksum(b) =~= sha256_of(nonce + payload));
    let k = 36 + payload.len() + i;
    let x = b[k];
    let flipped = b.update(k, x ^ (1u8 << bit));
    assert(x ^ (1u8 << bit) != x) by (bit_vector)
        requires
            bit < 8,
    ;
    assert(flipped.subrange(0, 4) =~= b.subrange(0, 4));
    assert(frame_nonce(flipped) =~= nonce);
    assert(frame_payload(flipped) =~= payload);
    assert(frame_checksum(flipped)[i] != frame_checksum(b)[i]);
}

/// What decoding sees of a frame lies in its first `4 + size` bytes: any bytes
/// after them leave the frame, its parts and its check unchanged.
pub proof fn lemma_frame_prefix(b: Seq<u8>, rest: Seq<u8>)
    requires
        frame_whole(b),
    ensures
        ({
            let c = b.subrange(0, 4 + frame_size(b) as int) + rest;
            &&& frame_whole(c)
            &&& frame_size(c) == frame_size(b)
            &&& frame_nonce(c) == frame_nonce(b)
            &&& frame_payload(c) == frame_payload(b)
            &&& frame_checksum(c) == frame_checksum(b)
            &&& frame_intact(c) == frame_intact(b)
        }),
{
    let c = b.subrange(0, 4 + frame_size(b) as int) + rest;
    assert(c.subrange(0, 4) =~= b.subrange(0, 4));
    assert(frame_nonce(c) =~= frame_nonce(b));
    assert(frame_payload(c) =~= frame_payload(b));
    assert(frame_checksum(c) =~= frame_checksum(b));
}

} // verus!
