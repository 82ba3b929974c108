use p2p_tor_chat::handshake::Frame;
use p2p_tor_chat::handshake::StreamKind;
use p2p_tor_chat::handshake::decode_frame;
use p2p_tor_chat::onion::AddressError;
use p2p_tor_chat::onion::ConnectError;
use p2p_tor_chat::onion::public_key_of;
use p2p_tor_chat::onion::IntroductionError;
use p2p_tor_chat::onion::fresh_nonce;
use p2p_tor_chat::onion::introduce;
use p2p_tor_chat::onion::peer_public_key;
use p2p_tor_chat::onion::plan_callback;
use p2p_tor_chat::onion::secret_key_bytes;
use p2p_tor_chat::onion::socks_target;
use p2p_tor_chat::onion::start_connection;
use p2p_tor_chat::peers::PeerTable;
use p2p_tor_chat::session::ListenAction;
use p2p_tor_chat::session::ListenError;
use p2p_tor_chat::session::on_frame;

const KEY: [u8; 32] = [
    215, 90, 152, 1, 130, 177, 10, 183, 213, 75, 254, 211, 201, 100, 7, 58, 14, 225, 114, 243, 218,
    166, 35, 37, 175, 2, 26, 104, 247, 7, 81, 26,
];
const ADDRESS: &str = "25njqamcweflpvkl73j4szahhihoc4xt3ktcgjnpaingr5yhkenl5sid.onion";

#[test]
fn address_names_its_key() {
    assert_eq!(peer_public_key(ADDRESS), Ok(KEY));
    assert_eq!(peer_public_key("25njqamcweflpvkl73j4szahhihoc4xt3ktcgjnpaingr5yhkenl5sid"), Err(AddressError::MissingOnionSuffix));
    assert_eq!(peer_public_key("abc.onion"), Err(AddressError::InvalidOnionAddress));
    assert_eq!(
        peer_public_key("35njqamcweflpvkl73j4szahhihoc4xt3ktcgjnpaingr5yhkenl5sid.onion"),
        Err(AddressError::InvalidOnionAddress)
    );
}

#[test]
fn callback_goes_to_the_key_address() {
    let n = [5u8; 256];
    let plan = plan_callback(&KEY, &n).ok().unwrap();
    assert_eq!(plan.target, format!("{}:20001", ADDRESS));
    let expected = torut::onion::TorPublicKeyV3::from_bytes(&KEY).unwrap().get_onion_address().to_string();
    assert_eq!(plan.target, format!("{}:20001", expected));
    assert_eq!(decode_frame(&plan.blocking_frame), Ok(Frame::Callback { kind: StreamKind::Blocking, nonce: n }));
    assert_eq!(decode_frame(&plan.nonblocking_frame), Ok(Frame::Callback { kind: StreamKind::Nonblocking, nonce: n }));
}

#[test]
fn invalid_key_gets_no_callback() {
    // y = 2 lies on no point of the curve, so these bytes are no Ed25519 public key.
    let mut bad = [0u8; 32];
    bad[0] = 2;
    assert!(torut::onion::TorPublicKeyV3::from_bytes(&bad).is_err());
    assert!(matches!(plan_callback(&bad, &[0; 256]), Err(IntroductionError::InvalidPublicKey)));
}

#[test]
fn introduce_registers_and_frames() {
    let mut t: PeerTable<u8> = PeerTable::new();
    let me = [1u8; 32];
    let intro = introduce(&mut t, ADDRESS, &me, [3; 256]).ok().unwrap();
    assert_eq!(intro.target, format!("{}:20001", ADDRESS));
    assert_eq!(intro.nonce, [3; 256]);
    assert_eq!(intro.peer_key, KEY);
    assert_eq!(decode_frame(&intro.frame), Ok(Frame::Introduction { public_key: me, nonce: [3; 256] }));
    assert_eq!(t.get(&[3; 256]).unwrap().public_key, KEY);
    assert_eq!(introduce(&mut t, "nope", &me, [4; 256]).err(), Some(AddressError::MissingOnionSuffix));
    assert_eq!(t.len(), 1);
}

#[test]
fn start_connection_draws_a_fresh_nonce() {
    let mut t: PeerTable<u8> = PeerTable::new();
    let a = start_connection(&mut t, ADDRESS, &[1; 32]).ok().unwrap();
    let b = start_connection(&mut t, ADDRESS, &[1; 32]).ok().unwrap();
    assert_ne!(a.nonce, b.nonce);
    assert_eq!(t.len(), 2);
    assert_ne!(fresh_nonce().unwrap(), fresh_nonce().unwrap());
    assert_eq!(
        start_connection(&mut t, "nope", &[1; 32]).err(),
        Some(ConnectError::InvalidAddress(AddressError::MissingOnionSuffix))
    );
    assert_eq!(t.len(), 2);
}

#[test]
fn listener_runs_the_handshake() {
    let mut listener_table: PeerTable<u8> = PeerTable::new();
    let mut dialer_table: PeerTable<&str> = PeerTable::new();
    let intro = introduce(&mut dialer_table, ADDRESS, &KEY, [8; 256]).ok().unwrap();
    let frame = decode_frame(&intro.frame).unwrap();
    let plan = match on_frame(&mut listener_table, frame, 0u8) {
        Ok(ListenAction::CallBack { plan, peer_key }) => {
            assert_eq!(peer_key, KEY);
            plan
        }
        _ => panic!("expected a callback"),
    };
    let f1 = decode_frame(&plan.blocking_frame).unwrap();
    let f2 = decode_frame(&plan.nonblocking_frame).unwrap();
    assert!(matches!(on_frame(&mut dialer_table, f1, "first"), Ok(ListenAction::Wait)));
    match on_frame(&mut dialer_table, f2, "second") {
        Ok(ListenAction::OpenChat { nonce }) => {
            let p = dialer_table.get(&nonce).unwrap();
            assert_eq!(p.public_key, KEY);
            assert_eq!(p.blocking, Some("first"));
            assert_eq!(p.nonblocking, Some("second"));
        }
        _ => panic!("expected the chat to open"),
    }
    let stray = Frame::Callback { kind: StreamKind::Blocking, nonce: [9; 256] };
    assert!(matches!(on_frame(&mut dialer_table, stray, "x"), Err(ListenError::UnknownNonce)));
}

#[test]
fn key_file_and_targets() {
    let mut contents = vec![0u8; 70];
    contents[63] = 4;
    let k = secret_key_bytes(&contents).unwrap();
    assert_eq!(k[63], 4);
    assert_eq!(k.len(), 64);
    assert_eq!(secret_key_bytes(&[1; 63]), None);
    assert_eq!(socks_target("example.onion", 20001), "example.onion:20001");
}

#[test]
fn callback_address_names_the_key_back() {
    let plan = plan_callback(&KEY, &[1; 256]).ok().unwrap();
    let address = plan.target.strip_suffix(":20001").unwrap();
    assert_eq!(peer_public_key(address), Ok(KEY));
    let mut t: PeerTable<u8> = PeerTable::new();
    let intro = introduce(&mut t, address, &[2; 32], [6; 256]).ok().unwrap();
    assert_eq!(intro.peer_key, KEY);
}

#[test]
fn own_public_key_from_secret() {
    let secret = torut::onion::TorSecretKeyV3::generate();
    let bytes = secret.as_bytes();
    let public = public_key_of(&bytes);
    assert_eq!(public, secret.public().to_bytes());
    assert_ne!(&public[..], &bytes[..32]);
    let stored = torut::onion::TorSecretKeyV3::from(bytes);
    assert_eq!(public_key_of(&stored.as_bytes()), public);
}
