use vstd::prelude::*;
use crate::handshake::Frame;
use crate::handshake::NONCE_SIZE;
use crate::handshake::PUBLIC_KEY_SIZE;
use crate::onion::CallbackPlan;
use crate::onion::IntroductionError;
use crate::onion::onion_address_text;
use crate::onion::plan_callback;
use crate::peers::CallbackOutcome;
use crate::peers::PeerError;
use crate::peers::PeerTable;
use crate::peers::accepted;

verus! {

/// What the listener does with a stream that opened with a frame.
pub enum ListenAction {
    /// A peer introduced itself: call it back as the plan says, then open a chat with it.
    CallBack { plan: CallbackPlan, peer_key: [u8; PUBLIC_KEY_SIZE] },
    /// One callback stream of a peer arrived; the other is still owed.
    Wait,
    /// The peer we introduced ourselves to under `nonce` has opened both streams:
    /// open the chat over them.
    OpenChat { nonce: [u8; NONCE_SIZE] },
}

/// Why the listener gives up on a stream.
#[derive(Clone, Copy, Debug, PartialEq, Eq, Structural)]
pub enum ListenError {
    /// An introduction carried no valid onion service key.
    InvalidPublicKey,
    /// A callback carried a nonce that we never handed out.
    UnknownNonce,
}

/// Handles a stream that opened with `frame`. An introduction is answered by calling the
/// introducer back, and the stream itself is dropped; a callback stream joins the peer
/// that we introduced ourselves to under its nonce, in `table`.
pub fn on_frame<S>(table: &mut PeerTable<S>, frame: Frame, stream: S) -> (r: Result<
    ListenAction,
    ListenError,
>)
    ensures
        match frame {
            Frame::Introduction { public_key, nonce } => {
                &&& final(table)@ == old(table)@
                &&& (r is Ok <==> onion_address_text(public_key@) is Some)
                &&& r is Err ==> r == Err::<ListenAction, ListenError>(
                    ListenError::InvalidPublicKey,
                )
                &&& r matches Ok(a) ==> (a matches ListenAction::CallBack { plan, peer_key } && peer_key
                    == public_key && plan.blocking_frame@ == crate::handshake::frame_bytes(
                    Frame::Callback { kind: crate::handshake::StreamKind::Blocking, nonce },
                ) && plan.nonblocking_frame@ == crate::handshake::frame_bytes(
                    Frame::Callback { kind: crate::handshake::StreamKind::Nonblocking, nonce },
                ) && plan.target@ == crate::onion::host_port(
                    onion_address_text(public_key@)->Some_0,
                    crate::handshake::VIRTUAL_PORT,
                ))
            },
            Frame::Callback { kind, nonce } => {
                let (m, res) = accepted(old(table)@, kind, nonce@, stream);
                &&& final(table)@ == m
                &&& match res {
                    Ok(CallbackOutcome::Waiting) => r matches Ok(ListenAction::Wait),
                    Ok(CallbackOutcome::BothStreams) => r matches Ok(
                        ListenAction::OpenChat { nonce: n },
                    ) && n == nonce,
                    Err(_) => r == Err::<ListenAction, ListenError>(ListenError::UnknownNonce),
                }
            },
        },
{
    match frame {
        Frame::Introduction { public_key, nonce } => match plan_callback(&public_key, &nonce) {
            Ok(plan) => Ok(ListenAction::CallBack { plan, peer_key: public_key }),
            Err(IntroductionError::InvalidPublicKey) => Err(ListenError::InvalidPublicKey),
        },
        Frame::Callback { kind, nonce } => match table.accept(kind, &nonce, stream) {
            Ok(CallbackOutcome::Waiting) => Ok(ListenAction::Wait),
            Ok(CallbackOutcome::BothStreams) => Ok(ListenAction::OpenChat { nonce }),
            Err(PeerError::UnknownNonce) => Err(ListenError::UnknownNonce),
        },
    }
}

/// A peer that dials an address registers the key that the address names; so a peer that
/// dials the onion address made from key `made_from` (whose text names that key back, as
/// `plan_callback` states of every address it calls) registers exactly `made_from`.
pub proof fn lemma_dialed_address_gives_its_key(
    address: Seq<char>,
    made_from: [u8; PUBLIC_KEY_SIZE],
    registered_key: [u8; PUBLIC_KEY_SIZE],
)
    requires
        crate::onion::address_key(address) == Ok::<Seq<u8>, crate::onion::AddressError>(
            made_from@,
        ),
        crate::onion::address_key(address) == Ok::<Seq<u8>, crate::onion::AddressError>(
            registered_key@,
        ),
    ensures
        registered_key == made_from,
{
    broadcast use vstd::array::group_array_axioms;

    assert(registered_key =~= made_from);
}

/// Two peers connect when one is given the other's onion address. The dialer registers,
/// under its nonce, the key that the address names, which is the listener's key; the
/// listener reads back the dialer's key and nonce from the introduction; and the two
/// callbacks that the listener then sends, read back by the dialer in either order,
/// leave the dialer's peer waiting after the first and complete after the second, known
/// by the listener's key.
pub proof fn lemma_two_peers_connect<S>(
    dialer_peers: Map<Seq<u8>, crate::peers::PendingPeer<S>>,
    dialer_key: [u8; PUBLIC_KEY_SIZE],
    listener_key: [u8; PUBLIC_KEY_SIZE],
    address: Seq<char>,
    registered_key: [u8; PUBLIC_KEY_SIZE],
    nonce: [u8; NONCE_SIZE],
    read_introduction: Frame,
    first: crate::handshake::StreamKind,
    read1: Frame,
    read2: Frame,
    s1: S,
    s2: S,
)
    requires
        crate::onion::address_key(address) == Ok::<Seq<u8>, crate::onion::AddressError>(
            listener_key@,
        ),
        crate::onion::address_key(address) == Ok::<Seq<u8>, crate::onion::AddressError>(
            registered_key@,
        ),
        crate::handshake::frame_bytes(read_introduction) == crate::handshake::frame_bytes(
            Frame::Introduction { public_key: dialer_key, nonce },
        ),
        crate::handshake::frame_bytes(read1) == crate::handshake::frame_bytes(
            Frame::Callback { kind: first, nonce },
        ),
        crate::handshake::frame_bytes(read2) == crate::handshake::frame_bytes(
            Frame::Callback { kind: crate::peers::other_kind(first), nonce },
        ),
    ensures
        registered_key == listener_key,
        read_introduction == (Frame::Introduction { public_key: dialer_key, nonce }),
        read1 == (Frame::Callback { kind: first, nonce }),
        read2 == (Frame::Callback { kind: crate::peers::other_kind(first), nonce }),
        ({
            let m1 = crate::peers::registered(dialer_peers, nonce@, registered_key);
            let (m2, r1) = accepted(m1, first, nonce@, s1);
            let (m3, r2) = accepted(m2, crate::peers::other_kind(first), nonce@, s2);
            &&& r1 == Ok::<CallbackOutcome, PeerError>(CallbackOutcome::Waiting)
            &&& r2 == Ok::<CallbackOutcome, PeerError>(CallbackOutcome::BothStreams)
            &&& m3[nonce@].public_key == listener_key
        }),
{
    lemma_dialed_address_gives_its_key(address, listener_key, registered_key);
    crate::handshake::lemma_frame_bytes_injective(
        read_introduction,
        Frame::Introduction { public_key: dialer_key, nonce },
    );
    lemma_handshake_completes(dialer_peers, nonce, registered_key, first, read1, read2, s1, s2);
}

/// The handshake seen from the peer that introduced itself under `nonce` to the peer with
/// `public_key`: whatever frames it reads back from the bytes of the two callbacks are those
/// callbacks, and taking them, in either order, leaves the peer waiting after the first and
/// complete after the second, known by the key that its address named.
pub proof fn lemma_handshake_completes<S>(
    m: Map<Seq<u8>, crate::peers::PendingPeer<S>>,
    nonce: [u8; NONCE_SIZE],
    public_key: [u8; PUBLIC_KEY_SIZE],
    first: crate::handshake::StreamKind,
    read1: Frame,
    read2: Frame,
    s1: S,
    s2: S,
)
    requires
        crate::handshake::frame_bytes(read1) == crate::handshake::frame_bytes(
            Frame::Callback { kind: first, nonce },
        ),
        crate::handshake::frame_bytes(read2) == crate::handshake::frame_bytes(
            Frame::Callback { kind: crate::peers::other_kind(first), nonce },
        ),
    ensures
        read1 == (Frame::Callback { kind: first, nonce }),
        read2 == (Frame::Callback { kind: crate::peers::other_kind(first), nonce }),
        ({
            let m1 = crate::peers::registered(m, nonce@, public_key);
            let (m2, r1) = accepted(m1, first, nonce@, s1);
            let (m3, r2) = accepted(m2, crate::peers::other_kind(first), nonce@, s2);
            &&& r1 == Ok::<CallbackOutcome, PeerError>(CallbackOutcome::Waiting)
            &&& r2 == Ok::<CallbackOutcome, PeerError>(CallbackOutcome::BothStreams)
            &&& m3[nonce@].public_key == public_key
        }),
{
    crate::handshake::lemma_frame_bytes_injective(read1, Frame::Callback { kind: first, nonce });
    crate::handshake::lemma_frame_bytes_injective(
        read2,
        Frame::Callback { kind: crate::peers::other_kind(first), nonce },
    );
    crate::peers::lemma_both_callbacks_complete(m, nonce@, public_key, first, s1, s2);
}

} // verus!
