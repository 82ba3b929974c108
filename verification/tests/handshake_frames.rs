use p2p_tor_chat::handshake::Frame;
use p2p_tor_chat::handshake::FrameError;
use p2p_tor_chat::handshake::StreamKind;
use p2p_tor_chat::handshake::decode_frame;
use p2p_tor_chat::handshake::encode_frame;
use p2p_tor_chat::handshake::frame_body_len;
use p2p_tor_chat::handshake::NONCE_SIZE;
use p2p_tor_chat::handshake::PUBLIC_KEY_SIZE;
use p2p_tor_chat::handshake::VIRTUAL_PORT;

fn nonce(seed: u8) -> [u8; NONCE_SIZE] {
    let mut n = [0u8; NONCE_SIZE];
    for (i, b) in n.iter_mut().enumerate() {
        *b = seed.wrapping_add(i as u8);
    }
    n
}

#[test]
fn introduction_bytes_are_tag_key_nonce() {
    let key = [7u8; PUBLIC_KEY_SIZE];
    let n = nonce(3);
    let bytes = encode_frame(&Frame::Introduction { public_key: key, nonce: n });
    assert_eq!(bytes.len(), 1 + 32 + 256);
    assert_eq!(bytes[0], 2);
    assert_eq!(&bytes[1..33], &key[..]);
    assert_eq!(&bytes[33..], &n[..]);
    assert_eq!(decode_frame(&bytes), Ok(Frame::Introduction { public_key: key, nonce: n }));
}

#[test]
fn callback_bytes_are_kind_and_nonce() {
    let n = nonce(200);
    for (kind, tag) in [(StreamKind::Blocking, 0u8), (StreamKind::Nonblocking, 1u8)].iter() {
        let bytes = encode_frame(&Frame::Callback { kind: *kind, nonce: n });
        assert_eq!(bytes.len(), 257);
        assert_eq!(bytes[0], *tag);
        assert_eq!(&bytes[1..], &n[..]);
        assert_eq!(decode_frame(&bytes), Ok(Frame::Callback { kind: *kind, nonce: n }));
        assert_eq!(kind.tag(), *tag);
    }
}

#[test]
fn frame_errors() {
    assert_eq!(decode_frame(&[]), Err(FrameError::Empty));
    assert_eq!(decode_frame(&[3, 1, 2]), Err(FrameError::UnknownStreamType(3)));
    assert_eq!(decode_frame(&[2, 1, 2]), Err(FrameError::BadLength));
    assert_eq!(decode_frame(&[0; 256]), Err(FrameError::BadLength));
    assert_eq!(decode_frame(&[1; 258]), Err(FrameError::BadLength));
}

#[test]
fn body_lengths() {
    assert_eq!(frame_body_len(2), Ok(288));
    assert_eq!(frame_body_len(0), Ok(256));
    assert_eq!(frame_body_len(1), Ok(256));
    assert_eq!(frame_body_len(9), Err(FrameError::UnknownStreamType(9)));
    assert_eq!(VIRTUAL_PORT, 20001);
}
