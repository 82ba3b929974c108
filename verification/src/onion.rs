use vstd::prelude::*;
use crate::decimal::decimal;
use crate::decimal::push_decimal;
use crate::handshake::Frame;
use crate::handshake::NONCE_SIZE;
use crate::handshake::PUBLIC_KEY_SIZE;
use crate::handshake::StreamKind;
use crate::handshake::VIRTUAL_PORT;
use crate::handshake::encode_frame;
use crate::handshake::frame_bytes;
use crate::peers::PeerTable;
use crate::peers::registered;
use crate::text::ends_with;
use crate::text::push_char;
use crate::text::text_strip_suffix;
use vstd::string::StringExecFns;

verus! {

/// The public key that `torut` reads out of the text of an onion address without its
/// `.onion` ending (`OnionAddressV3::from_str`), or `None` when it refuses the text.
pub uninterp spec fn parsed_onion_key(text: Seq<char>) -> Option<Seq<u8>>;

/// The text of the onion address that `torut` derives from a public key
/// (`TorPublicKeyV3::from_bytes`, then `get_onion_address` and its `Display`),
/// or `None` when the bytes are no valid Ed25519 public key.
pub uninterp spec fn onion_address_text(public_key: Seq<u8>) -> Option<Seq<char>>;

/// Calls `torut::onion::OnionAddressV3::from_str` on `text`, and on success takes the
/// public key's bytes (`get_public_key().to_bytes()`). The contract claims only that the
/// outcome is the one that `parsed_onion_key` names for the text.
#[verifier::external_body]
fn parse_onion_address(text: &str) -> (r: Option<[u8; PUBLIC_KEY_SIZE]>)
    ensures
        match r {
            Some(k) => parsed_onion_key(text@) == Some(k@),
            None => parsed_onion_key(text@) is None,
        },
{
    match <torut::onion::OnionAddressV3 as std::str::FromStr>::from_str(text) {
        Ok(address) => Some(address.get_public_key().to_bytes()),
        Err(_) => None,
    }
}

/// Calls `torut::onion::TorPublicKeyV3::from_bytes` and, for a valid key, writes the onion
/// address it yields (`get_onion_address`) with its `Display`. The contract claims that the
/// outcome is the one that `onion_address_text` names for the key, and that the text ends
/// with `.onion`, which that `Display` writes after the encoded key, and that `from_str`
/// reads the key back out of the text before `.onion`: the text is the base-32 writing of
/// the key, its checksum and the version 3, which `from_str` decodes, checks the same way,
/// and takes the key from.
#[verifier::external_body]
fn onion_address_of_key(public_key: &[u8; PUBLIC_KEY_SIZE]) -> (r: Option<String>)
    ensures
        match r {
            Some(s) => {
                &&& onion_address_text(public_key@) == Some(s@)
                &&& ends_with(s@, ".onion"@)
                &&& parsed_onion_key(s@.subrange(0, s@.len() - ".onion"@.len())) == Some(
                    public_key@,
                )
            },
            None => onion_address_text(public_key@) is None,
        },
{
    match torut::onion::TorPublicKeyV3::from_bytes(public_key) {
        Ok(key) => Some(key.get_onion_address().to_string()),
        Err(_) => None,
    }
}

/// Fills `buf` from the operating system's random source
/// (`rand::RngCore::try_fill_bytes` on `rand::rngs::OsRng`) and says whether the source
/// supplied the bytes. Nothing is claimed of the bytes, nor of when the source fails:
/// both are chance.
#[verifier::external_body]
fn fill_random(buf: &mut [u8; NONCE_SIZE]) -> (ok: bool) {
    rand::RngCore::try_fill_bytes(&mut rand::rngs::OsRng, buf).is_ok()
}

/// A fresh random nonce, as a peer hands out with each introduction, or `None` when the
/// operating system supplies no random bytes. Nothing is stated of the bytes: they are
/// chance.
pub fn fresh_nonce() -> (r: Option<[u8; NONCE_SIZE]>) {
    let mut nonce = [0u8; NONCE_SIZE];
    if fill_random(&mut nonce) {
        Some(nonce)
    } else {
        None
    }
}

/// Bytes in the secret key that a profile keeps in its key file.
pub const SECRET_KEY_SIZE: usize = 64;

/// The secret key at the start of a profile's key file, when the file is long enough;
/// bytes after it are ignored, as reading exactly that many bytes ignores them.
pub fn secret_key_bytes(contents: &[u8]) -> (r: Option<[u8; SECRET_KEY_SIZE]>)
    ensures
        r is Some <==> contents@.len() >= SECRET_KEY_SIZE,
        r matches Some(k) ==> k@ == contents@.subrange(0, SECRET_KEY_SIZE as int),
{
    broadcast use vstd::array::group_array_axioms;

    if contents.len() < SECRET_KEY_SIZE {
        return None;
    }
    let mut k = [0u8; SECRET_KEY_SIZE];
    let mut i: usize = 0;
    while i < SECRET_KEY_SIZE
        invariant
            contents@.len() >= SECRET_KEY_SIZE,
            i <= SECRET_KEY_SIZE,
            k@.len() == SECRET_KEY_SIZE,
            forall|j: int| 0 <= j < i ==> k@[j] == contents@[j],
        decreases SECRET_KEY_SIZE - i,
    {
        k[i] = contents[i];
        i = i + 1;
    }
    assert(k@ =~= contents@.subrange(0, SECRET_KEY_SIZE as int));
    Some(k)
}

/// The public key that belongs to a secret key, as `torut` derives it
/// (`TorSecretKeyV3::public`, from the key's 64 bytes).
pub uninterp spec fn public_key_of_secret(secret: Seq<u8>) -> Seq<u8>;

/// Makes a `torut::onion::TorSecretKeyV3` of the 64 bytes (its `From<[u8; 64]>`), takes its
/// `public()` key and that key's bytes. `public` reads the bytes as an expanded Ed25519
/// key, which fails only on a length other than 64, so it cannot fail here. The contract
/// claims that the result is the one that `public_key_of_secret` names for the bytes.
#[verifier::external_body]
fn derive_public_key(secret: &[u8; SECRET_KEY_SIZE]) -> (r: [u8; PUBLIC_KEY_SIZE])
    ensures
        r@ == public_key_of_secret(secret@),
{
    torut::onion::TorSecretKeyV3::from(*secret).public().to_bytes()
}

/// Our own public key, the one that we introduce ourselves with, from our secret key.
pub fn public_key_of(secret: &[u8; SECRET_KEY_SIZE]) -> (r: [u8; PUBLIC_KEY_SIZE])
    ensures
        r@ == public_key_of_secret(secret@),
{
    derive_public_key(secret)
}

/// `host:port`, the destination that the SOCKS proxy is asked to reach.
pub open spec fn host_port(host: Seq<char>, port: u16) -> Seq<char> {
    host + seq![':'] + decimal(port as nat)
}

/// Writes `host:port`.
pub fn socks_target(host: &str, port: u16) -> (r: String)
    ensures
        r@ == host_port(host@, port),
{
    let mut r = String::from_str(host);
    push_char(&mut r, ':');
    push_decimal(&mut r, port as u64);
    r
}

/// What a peer that chose to connect sends and where.
pub struct Introduction {
    /// The destination of the stream: the peer's onion address at the common port.
    pub target: String,
    /// The nonce under which the peer is now waited for.
    pub nonce: [u8; NONCE_SIZE],
    /// The peer's public key, as its address names it.
    pub peer_key: [u8; PUBLIC_KEY_SIZE],
    /// The bytes to write on the stream.
    pub frame: Vec<u8>,
}

/// Why a peer address was refused.
#[derive(Clone, Copy, Debug, PartialEq, Eq, Structural)]
pub enum AddressError {
    /// The address does not end with `.onion`.
    MissingOnionSuffix,
    /// What comes before `.onion` is no v3 onion address.
    InvalidOnionAddress,
}

/// The address that the user typed, checked: the public key it names, or why it names none.
pub open spec fn address_key(address: Seq<char>) -> Result<Seq<u8>, AddressError> {
    if !ends_with(address, ".onion"@) {
        Err(AddressError::MissingOnionSuffix)
    } else {
        match parsed_onion_key(address.subrange(0, address.len() - ".onion"@.len())) {
            Some(k) => Ok(k),
            None => Err(AddressError::InvalidOnionAddress),
        }
    }
}

/// The public key that a typed address of the form `<v3 address>.onion` names.
pub fn peer_public_key(address: &str) -> (r: Result<[u8; PUBLIC_KEY_SIZE], AddressError>)
    ensures
        match r {
            Ok(k) => address_key(address@) == Ok::<Seq<u8>, AddressError>(k@),
            Err(e) => address_key(address@) == Err::<Seq<u8>, AddressError>(e),
        },
{
    let suffix = ".onion";
    match text_strip_suffix(address, suffix) {
        None => Err(AddressError::MissingOnionSuffix),
        Some(stem) => {
            assert(stem@ =~= address@.subrange(0, address@.len() - ".onion"@.len()));
            match parse_onion_address(stem) {
                Some(k) => Ok(k),
                None => Err(AddressError::InvalidOnionAddress),
            }
        },
    }
}

/// Introduces us to the peer at `address` under `nonce`: the peer's key is taken from the
/// address, the peer is remembered in `table` under the nonce, and the introduction frame
/// carrying our key and the nonce is made, to be sent to the peer's onion service.
/// A refused address leaves the table as it was.
pub fn introduce<S>(
    table: &mut PeerTable<S>,
    address: &str,
    my_public_key: &[u8; PUBLIC_KEY_SIZE],
    nonce: [u8; NONCE_SIZE],
) -> (r: Result<Introduction, AddressError>)
    ensures
        match r {
            Ok(intro) => {
                &&& address_key(address@) == Ok::<Seq<u8>, AddressError>(intro.peer_key@)
                &&& final(table)@ == registered(old(table)@, nonce@, intro.peer_key)
                &&& intro.target@ == host_port(address@, VIRTUAL_PORT)
                &&& intro.nonce == nonce
                &&& intro.frame@ == frame_bytes(
                    Frame::Introduction { public_key: *my_public_key, nonce },
                )
            },
            Err(e) => {
                &&& address_key(address@) == Err::<Seq<u8>, AddressError>(e)
                &&& final(table)@ == old(table)@
            },
        },
{
    let peer_key = peer_public_key(address)?;
    table.register(nonce, peer_key);
    let target = socks_target(address, VIRTUAL_PORT);
    let frame = encode_frame(&Frame::Introduction { public_key: *my_public_key, nonce });
    Ok(Introduction { target, nonce, peer_key, frame })
}

/// Why a connection to a peer was not started.
#[derive(Clone, Copy, Debug, PartialEq, Eq, Structural)]
pub enum ConnectError {
    /// The operating system supplied no random bytes for the nonce.
    NoRandomness,
    /// The address was refused.
    InvalidAddress(AddressError),
}

/// Starts a connection to the peer at `address`: a fresh nonce is drawn, and the peer is
/// introduced under it as `introduce` says. Without random bytes nothing is started and
/// the table stays as it was.
pub fn start_connection<S>(
    table: &mut PeerTable<S>,
    address: &str,
    my_public_key: &[u8; PUBLIC_KEY_SIZE],
) -> (r: Result<Introduction, ConnectError>)
    ensures
        address_key(address@) is Ok ==> (r is Ok || r == Err::<Introduction, ConnectError>(
            ConnectError::NoRandomness,
        )),
        match r {
            Ok(intro) => {
                &&& address_key(address@) == Ok::<Seq<u8>, AddressError>(intro.peer_key@)
                &&& final(table)@ == registered(old(table)@, intro.nonce@, intro.peer_key)
                &&& intro.target@ == host_port(address@, VIRTUAL_PORT)
                &&& intro.frame@ == frame_bytes(
                    Frame::Introduction { public_key: *my_public_key, nonce: intro.nonce },
                )
            },
            Err(ConnectError::InvalidAddress(e)) => {
                &&& address_key(address@) == Err::<Seq<u8>, AddressError>(e)
                &&& final(table)@ == old(table)@
            },
            Err(ConnectError::NoRandomness) => final(table)@ == old(table)@,
        },
{
    let nonce = match fresh_nonce() {
        Some(n) => n,
        None => {
            return Err(ConnectError::NoRandomness);
        },
    };
    match introduce(table, address, my_public_key, nonce) {
        Ok(intro) => Ok(intro),
        Err(e) => Err(ConnectError::InvalidAddress(e)),
    }
}

/// How a peer that received an introduction calls back.
pub struct CallbackPlan {
    /// Where both callback streams go: the introducer's onion address at the common port.
    pub target: String,
    /// The bytes to write on the blocking stream.
    pub blocking_frame: Vec<u8>,
    /// The bytes to write on the nonblocking stream.
    pub nonblocking_frame: Vec<u8>,
}

/// Why an introduction cannot be answered.
#[derive(Clone, Copy, Debug, PartialEq, Eq, Structural)]
pub enum IntroductionError {
    /// The introduced key is no valid onion service key.
    InvalidPublicKey,
}

/// Answers an introduction: the introducer is called back at the onion address of the key
/// it sent, once per stream kind, each time with the nonce it sent.
pub fn plan_callback(public_key: &[u8; PUBLIC_KEY_SIZE], nonce: &[u8; NONCE_SIZE]) -> (r: Result<
    CallbackPlan,
    IntroductionError,
>)
    ensures
        r is Ok <==> onion_address_text(public_key@) is Some,
        r matches Ok(plan) ==> {
            &&& plan.target@ == host_port(onion_address_text(public_key@)->Some_0, VIRTUAL_PORT)
            &&& address_key(onion_address_text(public_key@)->Some_0) == Ok::<Seq<u8>, AddressError>(
                public_key@,
            )
            &&& plan.blocking_frame@ == frame_bytes(
                Frame::Callback { kind: StreamKind::Blocking, nonce: *nonce },
            )
            &&& plan.nonblocking_frame@ == frame_bytes(
                Frame::Callback { kind: StreamKind::Nonblocking, nonce: *nonce },
            )
        },
{
    match onion_address_of_key(public_key) {
        None => Err(IntroductionError::InvalidPublicKey),
        Some(address) => {
            let target = socks_target(address.as_str(), VIRTUAL_PORT);
            let blocking_frame = encode_frame(
                &Frame::Callback { kind: StreamKind::Blocking, nonce: *nonce },
            );
            let nonblocking_frame = encode_frame(
                &Frame::Callback { kind: StreamKind::Nonblocking, nonce: *nonce },
            );
            Ok(CallbackPlan { target, blocking_frame, nonblocking_frame })
        },
    }
}

} // verus!
