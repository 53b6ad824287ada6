use ctr::cipher::{KeyIvInit, StreamCipher};
use ed25519_dalek::SigningKey;
use ton_liteclient::address::{decimal_to_ip, dotted_quad_bytes, ip_to_decimal};
use ton_liteclient::adnl::ADNLPacket;
use ton_liteclient::connection::{ConnAction, ConnEvent, ConnState, ConnectionManager};
use ton_liteclient::crypto::sha256_bytes;
use ton_liteclient::error::TONAPIError;
use ton_liteclient::global_config::{LiteServer, LiteServerId};
use ton_liteclient::handshake::{server_key_id, session_keys, HandshakeCiphers};
use ton_liteclient::rotation::LiteServerAddressRotation;
use ton_liteclient::session::Session;

fn server(ip: i32, port: u16) -> LiteServer {
    LiteServer {
        ip,
        port,
        id: LiteServerId { _type: "pub.ed25519".to_string(), key: format!("key{}", port) },
    }
}

fn ctr_apply(key: &[u8], iv: &[u8], data: &[u8]) -> Vec<u8> {
    let mut c = ctr::Ctr128BE::<aes::Aes256>::new(key.into(), iv.into());
    let mut out = data.to_vec();
    c.apply_keystream(&mut out);
    out
}

fn server_public() -> Vec<u8> {
    SigningKey::from_bytes(&[7u8; 32]).verifying_key().to_bytes().to_vec()
}

fn secret_160() -> Vec<u8> {
    (0..160u32).map(|i| (i * 7 + 3) as u8).collect()
}

#[test]
fn test_decimal_to_ip() {
    assert_eq!(decimal_to_ip(1592601963), "94.237.45.107")
}

#[test]
fn decimal_to_ip_edges() {
    assert_eq!(decimal_to_ip(0), "0.0.0.0");
    assert_eq!(decimal_to_ip(-1), "255.255.255.255");
    assert_eq!(decimal_to_ip(-1062731519), "192.168.1.1");
    assert_eq!(decimal_to_ip(16777216), "1.0.0.0");
    assert_eq!(decimal_to_ip(i32::MIN), "128.0.0.0");
    assert_eq!(dotted_quad_bytes(0x0a00_6401), b"10.0.100.1".to_vec());
}

#[test]
fn address_round_trip() {
    for v in [0u32, 1, 255, 256, 1592601963, 0x7fff_ffff, 0x8000_0000, 0xc0a8_0101, u32::MAX] {
        let text = dotted_quad_bytes(v);
        assert_eq!(ip_to_decimal(&text), Some(v));
    }
    assert_eq!(ip_to_decimal(b"94.237.45.107"), Some(1592601963));
}

#[test]
fn address_parse_rejects_other_text() {
    for bad in [
        &b""[..],
        b"1.2.3",
        b"1.2.3.4.",
        b"1.2.3.4.5",
        b"01.2.3.4",
        b"256.1.1.1",
        b"1..2.3",
        b"a.b.c.d",
        b"1.2.3.1000",
        b" 1.2.3.4",
    ] {
        assert_eq!(ip_to_decimal(bad), None);
    }
}

#[test]
fn rotation_rejects_empty_directory() {
    let r = LiteServerAddressRotation::new(vec![]);
    assert!(matches!(r, Err(TONAPIError::LiteServerRotationError(_))));
}

#[test]
fn rotation_returns_to_start_after_n_steps() {
    let mut rot =
        LiteServerAddressRotation::new(vec![server(1, 1), server(2, 2), server(3, 3)]).unwrap();
    assert_eq!(rot.current().port, 1);
    assert_eq!(rot.next().port, 2);
    assert_eq!(rot.next().port, 3);
    assert_eq!(rot.next().port, 1);
    assert_eq!(rot.current().port, 1);
    for _ in 0..1000 {
        rot.next();
    }
    assert_eq!(rot.current().port, 2);
    assert_eq!(rot.len(), 3);
}

#[test]
fn rotation_single_entry() {
    let mut rot = LiteServerAddressRotation::new(vec![server(9, 9)]).unwrap();
    assert_eq!(rot.next().port, 9);
    assert_eq!(rot.current().port, 9);
}

#[test]
fn sha256_known_value() {
    let d = sha256_bytes(&b"hello".to_vec());
    assert_eq!(d.len(), 32);
    assert_eq!(&d[..4], &[0x2c, 0xf2, 0x4d, 0xba]);
    assert_eq!(d[31], 0x24);
}

#[test]
fn frame_round_trip() {
    let payload = b"some query".to_vec();
    let nonce = vec![5u8; 32];
    let p = ADNLPacket::encode(payload.clone(), nonce.clone());
    assert_eq!(p.size, vec![10 + 64, 0, 0, 0]);
    let mut body = nonce.clone();
    body.extend_from_slice(&payload);
    assert_eq!(p.sha256, sha256_bytes(&body));
    let mut wire = p.to_bytes();
    assert_eq!(wire.len(), 4 + 32 + 10 + 32);
    wire.extend_from_slice(&[1, 2, 3]);
    let (q, used) = ADNLPacket::decode(&wire).unwrap();
    assert_eq!(used, 78);
    assert_eq!(q.payload, payload);
    assert_eq!(q.nonce, nonce);
}

#[test]
fn frame_empty_payload() {
    let p = ADNLPacket::encode(vec![], vec![0u8; 32]);
    assert_eq!(p.size, vec![64, 0, 0, 0]);
    let (q, used) = ADNLPacket::decode(&p.to_bytes()).unwrap();
    assert_eq!(used, 68);
    assert!(q.payload.is_empty());
}

#[test]
fn frame_large_size_field() {
    let p = ADNLPacket::encode(vec![1u8; 300], vec![0u8; 32]);
    assert_eq!(p.size, vec![108, 1, 0, 0]);
}

#[test]
fn frame_checksum_bit_flip_is_refused() {
    let p = ADNLPacket::encode(b"abc".to_vec(), vec![9u8; 32]);
    let wire = p.to_bytes();
    for byte in 0..32 {
        for bit in 0..8 {
            let mut w = wire.clone();
            w[4 + 32 + 3 + byte] ^= 1 << bit;
            assert!(matches!(ADNLPacket::decode(&w), Err(TONAPIError::IntegrityMismatch)));
        }
    }
}

#[test]
fn frame_payload_corruption_is_refused() {
    let p = ADNLPacket::encode(b"abc".to_vec(), vec![9u8; 32]);
    let mut w = p.to_bytes();
    w[37] ^= 0x80;
    assert!(matches!(ADNLPacket::decode(&w), Err(TONAPIError::IntegrityMismatch)));
}

#[test]
fn frame_truncated_and_bad_size() {
    assert!(matches!(ADNLPacket::decode(&vec![1, 2]), Err(TONAPIError::FrameTruncated)));
    assert!(matches!(
        ADNLPacket::decode(&vec![10, 0, 0, 0, 1, 2, 3]),
        Err(TONAPIError::FrameSizeInvalid)
    ));
    let p = ADNLPacket::encode(b"abc".to_vec(), vec![9u8; 32]);
    let mut w = p.to_bytes();
    w.pop();
    assert!(matches!(ADNLPacket::decode(&w), Err(TONAPIError::FrameTruncated)));
}

#[test]
fn key_id_is_digest_of_tag_and_key() {
    let key = server_public();
    let mut body = vec![0xC6, 0xB4, 0x13, 0x48];
    body.extend_from_slice(&key);
    assert_eq!(server_key_id(&key), sha256_bytes(&body));
}

#[test]
fn handshake_rejects_bad_server_key() {
    let r = HandshakeCiphers::generate_handshake_ciphers(&vec![1u8; 31], &vec![3u8; 32], &secret_160());
    assert!(matches!(r, Err(TONAPIError::InvalidServerKey)));
}

#[test]
fn handshake_is_deterministic_under_fixed_entropy() {
    let key = server_public();
    let a = HandshakeCiphers::generate_handshake_ciphers(&key, &vec![3u8; 32], &secret_160()).unwrap();
    let b = HandshakeCiphers::generate_handshake_ciphers(&key, &vec![3u8; 32], &secret_160()).unwrap();
    let pa = a.packet();
    assert_eq!(pa, b.packet());
    assert_eq!(pa.len(), 256);
    assert_eq!(&pa[..32], &server_key_id(&key)[..]);
    assert_eq!(&pa[32..64], &SigningKey::from_bytes(&[3u8; 32]).verifying_key().to_bytes()[..]);
    assert_eq!(&pa[64..96], &sha256_bytes(&secret_160())[..]);
    let c = HandshakeCiphers::generate_handshake_ciphers(&key, &vec![4u8; 32], &secret_160()).unwrap();
    assert_ne!(c.packet(), pa);
}

#[test]
fn handshake_secret_is_recoverable_by_server() {
    let key = server_public();
    let eph = vec![3u8; 32];
    let secret = secret_160();
    let h = HandshakeCiphers::generate_handshake_ciphers(&key, &eph, &secret).unwrap();
    assert_ne!(h.encrypted_random_bytes, secret);
    let client_pub = ed25519_dalek::VerifyingKey::from_bytes(&h.public_key.clone().try_into().unwrap()).unwrap();
    let server_scalar = SigningKey::from_bytes(&[7u8; 32]).to_scalar_bytes();
    let shared = client_pub.to_montgomery().mul_clamped(server_scalar).to_bytes();
    let hash = sha256_bytes(&secret);
    let mut k = shared[..16].to_vec();
    k.extend_from_slice(&hash[16..32]);
    let mut iv = hash[..4].to_vec();
    iv.extend_from_slice(&shared[20..32]);
    assert_eq!(ctr_apply(&k, &iv, &h.encrypted_random_bytes), secret);
}

#[test]
fn session_keys_split() {
    let s = secret_160();
    let k = session_keys(&s);
    assert_eq!(k.rx_key, s[0..32].to_vec());
    assert_eq!(k.tx_key, s[32..64].to_vec());
    assert_eq!(k.rx_iv, s[64..80].to_vec());
    assert_eq!(k.tx_iv, s[80..96].to_vec());
}

#[test]
fn confirmation_checked() {
    let keys = session_keys(&secret_160());
    let frame = ADNLPacket::encode(vec![], vec![2u8; 32]).to_bytes();
    let sent = ctr_apply(&keys.rx_key, &keys.rx_iv, &frame);
    assert!(Session::new(session_keys(&secret_160())).check_confirmation(&sent).is_ok());
    let mut s = Session::new(session_keys(&secret_160()));
    assert!(matches!(s.check_confirmation(&frame), Err(TONAPIError::HandshakeRejected)));
    let nonempty = ADNLPacket::encode(vec![1], vec![2u8; 32]).to_bytes();
    let sent = ctr_apply(&keys.rx_key, &keys.rx_iv, &nonempty);
    let mut s = Session::new(session_keys(&secret_160()));
    assert!(matches!(s.check_confirmation(&sent), Err(TONAPIError::HandshakeRejected)));
}

#[test]
fn session_keystream_continues_across_frames() {
    let secret = secret_160();
    let keys = session_keys(&secret);
    let mut s = Session::new(session_keys(&secret));
    let a = s.seal(b"first".to_vec(), vec![1u8; 32]);
    let b = s.seal(b"second".to_vec(), vec![2u8; 32]);
    assert_eq!(a.len(), 5 + 68);
    let mut plain_a = ADNLPacket::encode(b"first".to_vec(), vec![1u8; 32]).to_bytes();
    let plain_b = ADNLPacket::encode(b"second".to_vec(), vec![2u8; 32]).to_bytes();
    plain_a.extend_from_slice(&plain_b);
    let mut both = a.clone();
    both.extend_from_slice(&b);
    assert_eq!(ctr_apply(&keys.tx_key, &keys.tx_iv, &plain_a), both);
}

#[test]
fn session_opens_what_the_peer_sealed() {
    let secret = secret_160();
    let keys = session_keys(&secret);
    let f1 = ADNLPacket::encode(b"one".to_vec(), vec![3u8; 32]).to_bytes();
    let f2 = ADNLPacket::encode(b"two!".to_vec(), vec![4u8; 32]).to_bytes();
    let mut stream = f1.clone();
    stream.extend_from_slice(&f2);
    let wire = ctr_apply(&keys.rx_key, &keys.rx_iv, &stream);
    let mut s = Session::new(session_keys(&secret));
    assert!(matches!(s.open(&wire[..10].to_vec()), Err(TONAPIError::FrameTruncated)));
    let p1 = s.open(&wire).unwrap();
    assert_eq!(p1.payload, b"one".to_vec());
    let p2 = s.open(&wire[f1.len()..].to_vec()).unwrap();
    assert_eq!(p2.payload, b"two!".to_vec());
}

#[test]
fn session_refuses_tampered_frame() {
    let secret = secret_160();
    let keys = session_keys(&secret);
    let f = ADNLPacket::encode(b"data".to_vec(), vec![3u8; 32]).to_bytes();
    let mut wire = ctr_apply(&keys.rx_key, &keys.rx_iv, &f);
    let last = wire.len() - 1;
    wire[last] ^= 1;
    let mut s = Session::new(session_keys(&secret));
    assert!(matches!(s.open(&wire), Err(TONAPIError::IntegrityMismatch)));
}

#[test]
fn manager_rotates_on_failure() {
    let mut m = ConnectionManager::new(vec![server(1, 1), server(2, 2), server(3, 3)], 5).unwrap();
    assert_eq!(m.state(), ConnState::Idle);
    assert_eq!(m.on_event(ConnEvent::Start), ConnAction::Connect);
    assert_eq!(m.current().port, 1);
    let a = m.on_event(ConnEvent::ConnectFailed(TONAPIError::TCPError("refused".to_string())));
    assert_eq!(a, ConnAction::Connect);
    assert_eq!(m.current().port, 2);
    let a = m.on_event(ConnEvent::ConnectFailed(TONAPIError::TCPError("refused".to_string())));
    assert_eq!(a, ConnAction::Connect);
    assert_eq!(m.current().port, 3);
    assert_eq!(m.on_event(ConnEvent::Connected), ConnAction::SendHandshake);
    assert_eq!(m.state(), ConnState::Handshaking);
    assert_eq!(m.on_event(ConnEvent::HandshakeDone), ConnAction::Finished);
    assert_eq!(m.state(), ConnState::Established);
    assert_eq!(m.current().port, 3);
    assert_eq!(m.attempts(), 3);
}

#[test]
fn manager_exhausts_after_cap() {
    let mut m = ConnectionManager::new(vec![server(1, 1), server(2, 2)], 4).unwrap();
    assert_eq!(m.on_event(ConnEvent::Start), ConnAction::Connect);
    for i in 0..4 {
        let a = m.on_event(ConnEvent::ConnectFailed(TONAPIError::TCPError(format!("refused {}", i))));
        if i < 3 {
            assert_eq!(a, ConnAction::Connect);
        } else {
            assert_eq!(a, ConnAction::GiveUp);
        }
    }
    assert_eq!(m.state(), ConnState::Exhausted);
    assert_eq!(m.attempts(), 4);
    match m.last_error() {
        Some(TONAPIError::TCPError(s)) => assert_eq!(s, "refused 3"),
        _ => panic!("last error missing"),
    }
}

#[test]
fn manager_handshake_failure_retries_and_ignores_stray_events() {
    let mut m = ConnectionManager::new(vec![server(1, 1), server(2, 2)], 3).unwrap();
    assert_eq!(m.on_event(ConnEvent::Connected), ConnAction::Ignore);
    assert_eq!(m.state(), ConnState::Idle);
    m.on_event(ConnEvent::Start);
    m.on_event(ConnEvent::Connected);
    let a = m.on_event(ConnEvent::HandshakeFailed(TONAPIError::HandshakeTimeout));
    assert_eq!(a, ConnAction::Connect);
    assert_eq!(m.current().port, 2);
    assert_eq!(m.on_event(ConnEvent::HandshakeDone), ConnAction::Ignore);
    assert!(ConnectionManager::new(vec![], 3).is_err());
}

#[test]
fn manager_with_zero_cap_gives_up() {
    let mut m = ConnectionManager::new(vec![server(1, 1)], 0).unwrap();
    assert_eq!(m.on_event(ConnEvent::Start), ConnAction::GiveUp);
    assert_eq!(m.state(), ConnState::Exhausted);
    assert!(m.last_error().is_none());
}
