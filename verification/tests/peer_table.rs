use p2p_tor_chat::handshake::StreamKind;
use p2p_tor_chat::handshake::NONCE_SIZE;
use p2p_tor_chat::peers::CallbackOutcome;
use p2p_tor_chat::peers::PeerError;
use p2p_tor_chat::peers::PeerTable;

fn nonce(b: u8) -> [u8; NONCE_SIZE] {
    [b; NONCE_SIZE]
}

#[test]
fn both_streams_complete_a_peer() {
    let mut t: PeerTable<u32> = PeerTable::new();
    t.register(nonce(1), [9; 32]);
    assert_eq!(t.len(), 1);
    assert_eq!(t.accept(StreamKind::Nonblocking, &nonce(1), 10), Ok(CallbackOutcome::Waiting));
    assert_eq!(t.accept(StreamKind::Blocking, &nonce(1), 20), Ok(CallbackOutcome::BothStreams));
    let p = t.get(&nonce(1)).unwrap();
    assert_eq!(p.public_key, [9; 32]);
    assert_eq!(p.blocking, Some(20));
    assert_eq!(p.nonblocking, Some(10));
}

#[test]
fn same_kind_twice_replaces() {
    let mut t: PeerTable<u32> = PeerTable::new();
    t.register(nonce(1), [9; 32]);
    assert_eq!(t.accept(StreamKind::Blocking, &nonce(1), 1), Ok(CallbackOutcome::Waiting));
    assert_eq!(t.accept(StreamKind::Blocking, &nonce(1), 2), Ok(CallbackOutcome::Waiting));
    assert_eq!(t.get(&nonce(1)).unwrap().blocking, Some(2));
}

#[test]
fn unknown_nonce_is_refused() {
    let mut t: PeerTable<u32> = PeerTable::new();
    t.register(nonce(1), [9; 32]);
    assert_eq!(t.accept(StreamKind::Blocking, &nonce(2), 1), Err(PeerError::UnknownNonce));
    assert!(!t.contains(&nonce(2)));
    assert_eq!(t.get(&nonce(1)).unwrap().blocking, None);
}

#[test]
fn registering_again_resets_the_peer() {
    let mut t: PeerTable<u32> = PeerTable::new();
    t.register(nonce(1), [9; 32]);
    t.register(nonce(2), [8; 32]);
    assert_eq!(t.accept(StreamKind::Blocking, &nonce(1), 1), Ok(CallbackOutcome::Waiting));
    t.register(nonce(1), [7; 32]);
    assert_eq!(t.len(), 2);
    let p = t.get(&nonce(1)).unwrap();
    assert_eq!(p.public_key, [7; 32]);
    assert_eq!(p.blocking, None);
    assert_eq!(t.get(&nonce(2)).unwrap().public_key, [8; 32]);
}
