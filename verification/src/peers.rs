use vstd::prelude::*;
use crate::handshake::NONCE_SIZE;
use crate::handshake::PUBLIC_KEY_SIZE;
use crate::handshake::StreamKind;

verus! {

broadcast use vstd::array::group_array_axioms;

/// A peer that we introduced ourselves to, with the callback streams it has opened so far.
pub struct PendingPeer<S> {
    pub public_key: [u8; PUBLIC_KEY_SIZE],
    pub blocking: Option<S>,
    pub nonblocking: Option<S>,
}

impl<S> PendingPeer<S> {
    /// A peer that has opened no stream yet.
    pub open spec fn fresh(public_key: [u8; PUBLIC_KEY_SIZE]) -> PendingPeer<S> {
        PendingPeer { public_key, blocking: None, nonblocking: None }
    }

    /// The peer after a callback stream of `kind` arrived; one that arrived earlier
    /// for the same kind is replaced.
    pub open spec fn with_stream(self, kind: StreamKind, stream: S) -> PendingPeer<S> {
        match kind {
            StreamKind::Blocking => PendingPeer { blocking: Some(stream), ..self },
            StreamKind::Nonblocking => PendingPeer { nonblocking: Some(stream), ..self },
        }
    }

    /// Both callback streams are there, so the chat can open.
    pub open spec fn is_complete(self) -> bool {
        self.blocking is Some && self.nonblocking is Some
    }
}

/// What came of a callback stream.
#[derive(Clone, Copy, Debug, PartialEq, Eq, Structural)]
pub enum CallbackOutcome {
    /// The peer still owes the other stream.
    Waiting,
    /// The peer has now opened both streams.
    BothStreams,
}

/// Why a callback stream was refused.
#[derive(Clone, Copy, Debug, PartialEq, Eq, Structural)]
pub enum PeerError {
    /// The nonce of the callback was never handed out in an introduction.
    UnknownNonce,
}

/// The table after introducing ourselves to the peer with `public_key` under `nonce`:
/// any earlier peer under that nonce is forgotten.
pub open spec fn registered<S>(
    m: Map<Seq<u8>, PendingPeer<S>>,
    nonce: Seq<u8>,
    public_key: [u8; PUBLIC_KEY_SIZE],
) -> Map<Seq<u8>, PendingPeer<S>> {
    m.insert(nonce, PendingPeer::fresh(public_key))
}

/// The table, and the answer, after a callback stream of `kind` arrived with `nonce`.
pub open spec fn accepted<S>(
    m: Map<Seq<u8>, PendingPeer<S>>,
    kind: StreamKind,
    nonce: Seq<u8>,
    stream: S,
) -> (Map<Seq<u8>, PendingPeer<S>>, Result<CallbackOutcome, PeerError>) {
    if m.dom().contains(nonce) {
        let p = m[nonce].with_stream(kind, stream);
        (
            m.insert(nonce, p),
            Ok(
                if p.is_complete() {
                    CallbackOutcome::BothStreams
                } else {
                    CallbackOutcome::Waiting
                },
            ),
        )
    } else {
        (m, Err(PeerError::UnknownNonce))
    }
}

/// The peers we introduced ourselves to, found again by the nonce they call back with.
pub struct PeerTable<S> {
    entries: Vec<([u8; NONCE_SIZE], PendingPeer<S>)>,
}

/// The map that a list of entries with distinct nonces stands for.
pub open spec fn entries_map<S>(e: Seq<([u8; NONCE_SIZE], PendingPeer<S>)>) -> Map<
    Seq<u8>,
    PendingPeer<S>,
>
    decreases e.len(),
{
    if e.len() == 0 {
        Map::empty()
    } else {
        entries_map(e.drop_last()).insert(e.last().0@, e.last().1)
    }
}

/// No nonce occurs twice.
pub open spec fn distinct_nonces<S>(e: Seq<([u8; NONCE_SIZE], PendingPeer<S>)>) -> bool {
    forall|i: int, j: int|
        0 <= i < e.len() && 0 <= j < e.len() && i != j ==> (#[trigger] e[i]).0@ != (#[trigger] e[j]).0@
}

proof fn lemma_entries_map_absent<S>(e: Seq<([u8; NONCE_SIZE], PendingPeer<S>)>, k: Seq<u8>)
    requires
        forall|i: int| 0 <= i < e.len() ==> (#[trigger] e[i]).0@ != k,
    ensures
        !entries_map(e).dom().contains(k),
    decreases e.len(),
{
    if e.len() > 0 {
        let t = e.drop_last();
        assert forall|i: int| 0 <= i < t.len() implies (#[trigger] t[i]).0@ != k by {
            assert(t[i] == e[i]);
        }
        lemma_entries_map_absent(t, k);
        assert(e.last() == e[e.len() - 1]);
    }
}

proof fn lemma_entries_map_index<S>(e: Seq<([u8; NONCE_SIZE], PendingPeer<S>)>, i: int)
    requires
        distinct_nonces(e),
        0 <= i < e.len(),
    ensures
        entries_map(e).dom().contains(e[i].0@),
        entries_map(e)[e[i].0@] == e[i].1,
    decreases e.len(),
{
    let t = e.drop_last();
    if i < e.len() - 1 {
        assert(distinct_nonces(t)) by {
            assert forall|a: int, b: int|
                0 <= a < t.len() && 0 <= b < t.len() && a != b implies (#[trigger] t[a]).0@ != (
            #[trigger] t[b]).0@ by {
                assert(t[a] == e[a]);
                assert(t[b] == e[b]);
            }
        }
        lemma_entries_map_index(t, i);
        assert(t[i] == e[i]);
        assert(e[e.len() - 1].0@ != e[i].0@);
    }
}

proof fn lemma_entries_map_dom<S>(e: Seq<([u8; NONCE_SIZE], PendingPeer<S>)>, k: Seq<u8>)
    requires
        entries_map(e).dom().contains(k),
    ensures
        exists|i: int| 0 <= i < e.len() && (#[trigger] e[i]).0@ == k,
    decreases e.len(),
{
    if e.len() > 0 {
        let t = e.drop_last();
        if e.last().0@ != k {
            lemma_entries_map_dom(t, k);
            let i = choose|i: int| 0 <= i < t.len() && (#[trigger] t[i]).0@ == k;
            assert(e[i] == t[i]);
        } else {
            assert(e[e.len() - 1] == e.last());
        }
    }
}

proof fn lemma_entries_map_update<S>(
    e: Seq<([u8; NONCE_SIZE], PendingPeer<S>)>,
    i: int,
    x: ([u8; NONCE_SIZE], PendingPeer<S>),
)
    requires
        distinct_nonces(e),
        0 <= i < e.len(),
        x.0@ == e[i].0@,
    ensures
        distinct_nonces(e.update(i, x)),
        entries_map(e.update(i, x)) == entries_map(e).insert(x.0@, x.1),
{
    let u = e.update(i, x);
    assert(distinct_nonces(u)) by {
        assert forall|a: int, b: int|
            0 <= a < u.len() && 0 <= b < u.len() && a != b implies (#[trigger] u[a]).0@ != (
        #[trigger] u[b]).0@ by {
            assert(u[a].0@ == e[a].0@);
            assert(u[b].0@ == e[b].0@);
        }
    }
    let m1 = entries_map(u);
    let m2 = entries_map(e).insert(x.0@, x.1);
    assert forall|k: Seq<u8>| m1.dom().contains(k) <==> m2.dom().contains(k) by {
        if m1.dom().contains(k) {
            lemma_entries_map_dom(u, k);
            let j = choose|j: int| 0 <= j < u.len() && (#[trigger] u[j]).0@ == k;
            if j != i {
                lemma_entries_map_index(e, j);
            }
        }
        if m2.dom().contains(k) && k != x.0@ {
            lemma_entries_map_dom(e, k);
            let j = choose|j: int| 0 <= j < e.len() && (#[trigger] e[j]).0@ == k;
            lemma_entries_map_index(u, j);
        }
        if k == x.0@ {
            lemma_entries_map_index(u, i);
        }
    }
    assert forall|k: Seq<u8>| m1.dom().contains(k) implies m1[k] == m2[k] by {
        lemma_entries_map_dom(u, k);
        let j = choose|j: int| 0 <= j < u.len() && (#[trigger] u[j]).0@ == k;
        lemma_entries_map_index(u, j);
        if j != i {
            lemma_entries_map_index(e, j);
        }
    }
    assert(m1 =~= m2);
}

/// Whether two nonces are equal.
fn same_nonce(a: &[u8; NONCE_SIZE], b: &[u8; NONCE_SIZE]) -> (r: bool)
    ensures
        r == (a@ == b@),
{
    let mut i: usize = 0;
    while i < NONCE_SIZE
        invariant
            i <= NONCE_SIZE,
            a@.len() == NONCE_SIZE,
            b@.len() == NONCE_SIZE,
            forall|k: int| 0 <= k < i ==> a@[k] == b@[k],
        decreases NONCE_SIZE - i,
    {
        if a[i] != b[i] {
            return false;
        }
        i = i + 1;
    }
    assert(a@ =~= b@);
    true
}

impl<S> View for PeerTable<S> {
    type V = Map<Seq<u8>, PendingPeer<S>>;

    closed spec fn view(&self) -> Map<Seq<u8>, PendingPeer<S>> {
        entries_map(self.entries@)
    }
}

impl<S> PeerTable<S> {
    /// The table holds each nonce once.
    #[verifier::type_invariant]
    spec fn well_formed(self) -> bool {
        distinct_nonces(self.entries@)
    }

    /// An empty table.
    pub fn new() -> (r: PeerTable<S>)
        ensures
            r@ == Map::<Seq<u8>, PendingPeer<S>>::empty(),
    {
        let r = PeerTable { entries: Vec::new() };
        assert(r@ =~= Map::<Seq<u8>, PendingPeer<S>>::empty());
        r
    }

    fn find(&self, nonce: &[u8; NONCE_SIZE]) -> (r: Option<usize>)
        ensures
            r matches Some(i) ==> i < self.entries@.len() && self.entries@[i as int].0@ == nonce@,
            r is Some <==> self@.dom().contains(nonce@),
    {
        proof {
            use_type_invariant(self);
        }
        let n: usize = self.entries.len();
        let mut i: usize = 0;
        while i < n
            invariant
                n == self.entries@.len(),
                i <= n,
                distinct_nonces(self.entries@),
                forall|k: int| 0 <= k < i ==> (#[trigger] self.entries@[k]).0@ != nonce@,
            decreases n - i,
        {
            if same_nonce(&self.entries[i].0, nonce) {
                proof {
                    lemma_entries_map_index(self.entries@, i as int);
                }
                return Some(i);
            }
            i = i + 1;
        }
        proof {
            lemma_entries_map_absent(self.entries@, nonce@);
        }
        None
    }

    /// Whether a peer is waiting under `nonce`.
    pub fn contains(&self, nonce: &[u8; NONCE_SIZE]) -> (r: bool)
        ensures
            r == self@.dom().contains(nonce@),
    {
        self.find(nonce).is_some()
    }

    /// The peer waiting under `nonce`, if any.
    pub fn get(&self, nonce: &[u8; NONCE_SIZE]) -> (r: Option<&PendingPeer<S>>)
        ensures
            r is Some <==> self@.dom().contains(nonce@),
            r matches Some(p) ==> *p == self@[nonce@],
    {
        proof {
            use_type_invariant(self);
        }
        match self.find(nonce) {
            Some(i) => {
                proof {
                    lemma_entries_map_index(self.entries@, i as int);
                }
                Some(&self.entries[i].1)
            },
            None => None,
        }
    }

    /// Remembers that we introduced ourselves under `nonce` to the peer with `public_key`.
    /// A peer registered earlier under the same nonce is forgotten, with its streams.
    pub fn register(&mut self, nonce: [u8; NONCE_SIZE], public_key: [u8; PUBLIC_KEY_SIZE])
        ensures
            final(self)@ == registered(old(self)@, nonce@, public_key),
            final(self)@.dom() == old(self)@.dom().insert(nonce@),
            final(self)@[nonce@] == (PendingPeer::<S> {
                public_key,
                blocking: None,
                nonblocking: None,
            }),
            forall|k: Seq<u8>|
                k != nonce@ && old(self)@.dom().contains(k) ==> #[trigger] final(self)@[k] == old(
                    self,
                )@[k],
    {
        proof {
            use_type_invariant(&*self);
        }
        let peer = PendingPeer { public_key, blocking: None, nonblocking: None };
        let found = self.find(&nonce);
        let mut entries: Vec<([u8; NONCE_SIZE], PendingPeer<S>)> = Vec::new();
        std::mem::swap(&mut entries, &mut self.entries);
        let ghost e = entries@;
        match found {
            Some(i) => {
                proof {
                    lemma_entries_map_update(e, i as int, (nonce, peer));
                }
                entries.set(i, (nonce, peer));
            },
            None => {
                assert forall|k: int| 0 <= k < e.len() implies (#[trigger] e[k]).0@ != nonce@ by {
                    if e[k].0@ == nonce@ {
                        lemma_entries_map_index(e, k);
                    }
                }
                entries.push((nonce, peer));
                assert(entries@.drop_last() =~= e);
                assert(distinct_nonces(entries@)) by {
                    assert forall|a: int, b: int|
                        0 <= a < entries@.len() && 0 <= b < entries@.len() && a != b
                        implies (#[trigger] entries@[a]).0@ != (#[trigger] entries@[b]).0@ by {
                        if a < e.len() && b < e.len() {
                            assert(entries@[a] == e[a]);
                            assert(entries@[b] == e[b]);
                        } else if a < e.len() {
                            assert(entries@[a] == e[a]);
                            assert(e[a].0@ != nonce@);
                        } else {
                            assert(entries@[b] == e[b]);
                            assert(e[b].0@ != nonce@);
                        }
                    }
                }
            },
        }
        self.entries = entries;
    }

    /// Takes a callback stream of `kind` that came with `nonce`: it joins the peer
    /// introduced under that nonce, and the answer says whether that peer has now opened
    /// both streams. A stream with a nonce that was never handed out is refused, and
    /// the table stays as it was.
    pub fn accept(&mut self, kind: StreamKind, nonce: &[u8; NONCE_SIZE], stream: S) -> (r: Result<
        CallbackOutcome,
        PeerError,
    >)
        ensures
            (final(self)@, r) == accepted(old(self)@, kind, nonce@, stream),
            final(self)@.dom() == old(self)@.dom(),
            forall|k: Seq<u8>|
                k != nonce@ && old(self)@.dom().contains(k) ==> #[trigger] final(self)@[k] == old(
                    self,
                )@[k],
            r is Err <==> !old(self)@.dom().contains(nonce@),
            r is Err ==> final(self)@ == old(self)@,
            old(self)@.dom().contains(nonce@) ==> {
                let before = old(self)@[nonce@];
                let after = final(self)@[nonce@];
                &&& after.public_key == before.public_key
                &&& kind == StreamKind::Blocking ==> after.blocking == Some(stream)
                    && after.nonblocking == before.nonblocking
                &&& kind == StreamKind::Nonblocking ==> after.nonblocking == Some(stream)
                    && after.blocking == before.blocking
                &&& r == Ok::<CallbackOutcome, PeerError>(
                    if after.blocking is Some && after.nonblocking is Some {
                        CallbackOutcome::BothStreams
                    } else {
                        CallbackOutcome::Waiting
                    },
                )
            },
    {
        proof {
            use_type_invariant(&*self);
        }
        match self.find(nonce) {
            None => Err(PeerError::UnknownNonce),
            Some(i) => {
                let mut entries: Vec<([u8; NONCE_SIZE], PendingPeer<S>)> = Vec::new();
                std::mem::swap(&mut entries, &mut self.entries);
                let ghost e = entries@;
                proof {
                    lemma_entries_map_index(e, i as int);
                }
                let (key, mut peer) = entries.remove(i);
                match kind {
                    StreamKind::Blocking => {
                        peer.blocking = Some(stream);
                    },
                    StreamKind::Nonblocking => {
                        peer.nonblocking = Some(stream);
                    },
                }
                let complete = peer.blocking.is_some() && peer.nonblocking.is_some();
                let ghost x = (key, peer);
                proof {
                    lemma_entries_map_update(e, i as int, x);
                }
                entries.insert(i, (key, peer));
                assert(entries@ =~= e.update(i as int, x));
                self.entries = entries;
                if complete {
                    Ok(CallbackOutcome::BothStreams)
                } else {
                    Ok(CallbackOutcome::Waiting)
                }
            },
        }
    }

    /// How many peers are waiting.
    pub fn len(&self) -> (r: usize)
        ensures
            r == self@.len(),
    {
        proof {
            use_type_invariant(self);
            lemma_entries_map_len(self.entries@);
        }
        self.entries.len()
    }
}

proof fn lemma_entries_map_len<S>(e: Seq<([u8; NONCE_SIZE], PendingPeer<S>)>)
    requires
        distinct_nonces(e),
    ensures
        entries_map(e).dom().finite(),
        entries_map(e).len() == e.len(),
    decreases e.len(),
{
    if e.len() > 0 {
        let t = e.drop_last();
        assert(distinct_nonces(t)) by {
            assert forall|a: int, b: int|
                0 <= a < t.len() && 0 <= b < t.len() && a != b implies (#[trigger] t[a]).0@ != (
            #[trigger] t[b]).0@ by {
                assert(t[a] == e[a]);
                assert(t[b] == e[b]);
            }
        }
        lemma_entries_map_len(t);
        assert forall|i: int| 0 <= i < t.len() implies (#[trigger] t[i]).0@ != e.last().0@ by {
            assert(t[i] == e[i]);
            assert(e.last() == e[e.len() - 1]);
        }
        lemma_entries_map_absent(t, e.last().0@);
    }
}

/// The kind of the other callback stream.
pub open spec fn other_kind(kind: StreamKind) -> StreamKind {
    match kind {
        StreamKind::Blocking => StreamKind::Nonblocking,
        StreamKind::Nonblocking => StreamKind::Blocking,
    }
}

/// A peer that we introduced ourselves to, and that then calls back with both streams,
/// in either order, is complete on the second stream and not before, and it is known by
/// the key it was introduced with.
pub proof fn lemma_both_callbacks_complete<S>(
    m: Map<Seq<u8>, PendingPeer<S>>,
    nonce: Seq<u8>,
    public_key: [u8; PUBLIC_KEY_SIZE],
    first: StreamKind,
    s1: S,
    s2: S,
)
    ensures
        ({
            let second = other_kind(first);
            let m1 = registered(m, nonce, public_key);
            let (m2, r1) = accepted(m1, first, nonce, s1);
            let (m3, r2) = accepted(m2, second, nonce, s2);
            &&& r1 == Ok::<CallbackOutcome, PeerError>(CallbackOutcome::Waiting)
            &&& r2 == Ok::<CallbackOutcome, PeerError>(CallbackOutcome::BothStreams)
            &&& m3[nonce].public_key == public_key
            &&& m3.dom() == m1.dom()
        }),
{
    let m1 = registered(m, nonce, public_key);
    assert(m1.dom().insert(nonce) =~= m1.dom());
}

/// A second stream of the same kind replaces the first and does not complete the peer.
pub proof fn lemma_same_kind_twice_waits<S>(
    m: Map<Seq<u8>, PendingPeer<S>>,
    nonce: Seq<u8>,
    public_key: [u8; PUBLIC_KEY_SIZE],
    kind: StreamKind,
    s1: S,
    s2: S,
)
    ensures
        ({
            let m1 = registered(m, nonce, public_key);
            let (m2, r1) = accepted(m1, kind, nonce, s1);
            let (m3, r2) = accepted(m2, kind, nonce, s2);
            &&& r2 == Ok::<CallbackOutcome, PeerError>(CallbackOutcome::Waiting)
            &&& m3[nonce] == PendingPeer::<S>::fresh(public_key).with_stream(kind, s2)
        }),
{
}

/// A stream whose nonce was never handed out is refused and changes nothing.
pub proof fn lemma_unknown_nonce_refused<S>(
    m: Map<Seq<u8>, PendingPeer<S>>,
    kind: StreamKind,
    nonce: Seq<u8>,
    stream: S,
)
    requires
        !m.dom().contains(nonce),
    ensures
        accepted(m, kind, nonce, stream) == (m, Err::<CallbackOutcome, PeerError>(PeerError::UnknownNonce)),
{
}

/// Introducing ourselves under one nonce leaves every peer under another nonce as it was.
pub proof fn lemma_register_keeps_others<S>(
    m: Map<Seq<u8>, PendingPeer<S>>,
    nonce: Seq<u8>,
    public_key: [u8; PUBLIC_KEY_SIZE],
    other: Seq<u8>,
)
    requires
        other != nonce,
    ensures
        registered(m, nonce, public_key).dom().contains(other) == m.dom().contains(other),
        m.dom().contains(other) ==> registered(m, nonce, public_key)[other] == m[other],
{
}

/// A callback under one nonce leaves every peer under another nonce as it was: its entry
/// stays, with the same key and the same streams.
pub proof fn lemma_accept_keeps_others<S>(
    m: Map<Seq<u8>, PendingPeer<S>>,
    kind: StreamKind,
    nonce: Seq<u8>,
    stream: S,
    other: Seq<u8>,
)
    requires
        other != nonce,
    ensures
        accepted(m, kind, nonce, stream).0.dom().contains(other) == m.dom().contains(other),
        m.dom().contains(other) ==> accepted(m, kind, nonce, stream).0[other] == m[other],
{
}

/// Two handshakes in flight at once do not disturb each other: after we introduced
/// ourselves under two different nonces, a peer's two callbacks complete it, whatever
/// callbacks of the other peer arrive in between.
pub proof fn lemma_interleaved_handshakes<S>(
    m: Map<Seq<u8>, PendingPeer<S>>,
    n1: Seq<u8>,
    key1: [u8; PUBLIC_KEY_SIZE],
    n2: Seq<u8>,
    key2: [u8; PUBLIC_KEY_SIZE],
    first: StreamKind,
    between: StreamKind,
    a1: S,
    b1: S,
    a2: S,
)
    requires
        n1 != n2,
    ensures
        ({
            let m1 = registered(registered(m, n1, key1), n2, key2);
            let (m2, r1) = accepted(m1, first, n1, a1);
            let (m3, r2) = accepted(m2, between, n2, b1);
            let (m4, r3) = accepted(m3, other_kind(first), n1, a2);
            &&& r1 == Ok::<CallbackOutcome, PeerError>(CallbackOutcome::Waiting)
            &&& r2 == Ok::<CallbackOutcome, PeerError>(CallbackOutcome::Waiting)
            &&& r3 == Ok::<CallbackOutcome, PeerError>(CallbackOutcome::BothStreams)
            &&& m4[n1].public_key == key1
            &&& m4[n2].public_key == key2
        }),
{
    let m1 = registered(registered(m, n1, key1), n2, key2);
    assert(m1.dom().contains(n1));
    assert(m1[n1] == PendingPeer::<S>::fresh(key1));
    let (m2, r1) = accepted(m1, first, n1, a1);
    lemma_accept_keeps_others(m1, first, n1, a1, n2);
    let (m3, r2) = accepted(m2, between, n2, b1);
    lemma_accept_keeps_others(m2, between, n2, b1, n1);
}

} // verus!
