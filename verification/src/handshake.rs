use vstd::prelude::*;

verus! {

broadcast use vstd::array::group_array_axioms;

/// Bytes in the random nonce that ties a peer's two callback streams to its introduction.
pub const NONCE_SIZE: usize = 256;

/// Bytes in a Tor v3 onion service public key.
pub const PUBLIC_KEY_SIZE: usize = 32;

/// The port that every peer's onion service exposes.
pub const VIRTUAL_PORT: u16 = 20001;

/// The first byte of an introduction frame.
pub const INTRODUCTION_TAG: u8 = 2;

/// The two streams by which a peer that received an introduction calls back.
/// The blocking one carries the reading side of the chat, the other the writing side.
#[derive(Clone, Copy, Debug, PartialEq, Eq, Structural)]
pub enum StreamKind {
    Blocking,
    Nonblocking,
}

impl StreamKind {
    /// The byte that opens a callback frame of this kind.
    pub open spec fn tag_spec(self) -> u8 {
        match self {
            StreamKind::Blocking => 0,
            StreamKind::Nonblocking => 1,
        }
    }

    /// The byte that opens a callback frame of this kind.
    pub fn tag(&self) -> (r: u8)
        ensures
            r == self.tag_spec(),
    {
        match self {
            StreamKind::Blocking => 0,
            StreamKind::Nonblocking => 1,
        }
    }
}

/// What the first bytes of a freshly accepted stream announce.
#[derive(Clone, Copy, Debug, PartialEq, Eq)]
pub enum Frame {
    /// A peer introduces itself by its public key and a nonce of its choice.
    Introduction { public_key: [u8; PUBLIC_KEY_SIZE], nonce: [u8; NONCE_SIZE] },
    /// A peer that received our introduction calls back with our nonce.
    Callback { kind: StreamKind, nonce: [u8; NONCE_SIZE] },
}

/// Why the opening bytes of a stream are no frame.
#[derive(Clone, Copy, Debug, PartialEq, Eq, Structural)]
pub enum FrameError {
    /// No byte at all.
    Empty,
    /// The first byte names no kind of stream.
    UnknownStreamType(u8),
    /// The first byte is known but the bytes after it are too few or too many.
    BadLength,
}

/// The bytes of a frame on the wire: the tag, then the key for an introduction, then the nonce.
pub open spec fn frame_bytes(f: Frame) -> Seq<u8> {
    match f {
        Frame::Introduction { public_key, nonce } => seq![INTRODUCTION_TAG] + public_key@ + nonce@,
        Frame::Callback { kind, nonce } => seq![kind.tag_spec()] + nonce@,
    }
}

/// How many bytes follow a frame's first byte, or why that byte opens no frame.
pub open spec fn body_len_spec(tag: u8) -> Result<usize, FrameError> {
    if tag == INTRODUCTION_TAG {
        Ok((PUBLIC_KEY_SIZE + NONCE_SIZE) as usize)
    } else if tag == 0 || tag == 1 {
        Ok(NONCE_SIZE)
    } else {
        Err(FrameError::UnknownStreamType(tag))
    }
}

/// Why `b` is not the bytes of a frame, if it is not.
pub open spec fn frame_error(b: Seq<u8>) -> Option<FrameError> {
    if b.len() == 0 {
        Some(FrameError::Empty)
    } else {
        match body_len_spec(b[0]) {
            Err(e) => Some(e),
            Ok(n) => if b.len() == 1 + n {
                None
            } else {
                Some(FrameError::BadLength)
            },
        }
    }
}

/// How many bytes to read after the first byte of an accepted stream.
pub fn frame_body_len(tag: u8) -> (r: Result<usize, FrameError>)
    ensures
        r == body_len_spec(tag),
{
    if tag == INTRODUCTION_TAG {
        Ok(PUBLIC_KEY_SIZE + NONCE_SIZE)
    } else if tag == 0 || tag == 1 {
        Ok(NONCE_SIZE)
    } else {
        Err(FrameError::UnknownStreamType(tag))
    }
}

/// Writes a frame as the bytes that the other peer reads.
pub fn encode_frame(f: &Frame) -> (r: Vec<u8>)
    ensures
        r@ == frame_bytes(*f),
        match *f {
            Frame::Introduction { public_key, nonce } => {
                &&& r@.len() == 289
                &&& r@[0] == 2
                &&& r@.subrange(1, 33) == public_key@
                &&& r@.subrange(33, 289) == nonce@
            },
            Frame::Callback { kind, nonce } => {
                &&& r@.len() == 257
                &&& r@[0] == (if kind == StreamKind::Blocking { 0u8 } else { 1u8 })
                &&& r@.subrange(1, 257) == nonce@
            },
        },
{
    let mut out: Vec<u8> = Vec::new();
    match f {
        Frame::Introduction { public_key, nonce } => {
            out.push(INTRODUCTION_TAG);
            append_bytes(&mut out, public_key.as_slice());
            append_bytes(&mut out, nonce.as_slice());
        },
        Frame::Callback { kind, nonce } => {
            out.push(kind.tag());
            append_bytes(&mut out, nonce.as_slice());
        },
    }
    assert(out@ =~= frame_bytes(*f));
    out
}

fn append_bytes(out: &mut Vec<u8>, bytes: &[u8])
    ensures
        final(out)@ == old(out)@ + bytes@,
{
    let n: usize = bytes.len();
    let mut i: usize = 0;
    while i < n
        invariant
            n == bytes@.len(),
            i <= n,
            out@ == old(out)@ + bytes@.subrange(0, i as int),
        decreases n - i,
    {
        out.push(bytes[i]);
        i = i + 1;
        assert(out@ =~= old(out)@ + bytes@.subrange(0, i as int));
    }
    assert(bytes@.subrange(0, n as int) =~= bytes@);
}

fn copy_key(b: &[u8], from: usize) -> (r: [u8; PUBLIC_KEY_SIZE])
    requires
        from + PUBLIC_KEY_SIZE <= b@.len(),
    ensures
        r@ == b@.subrange(from as int, from + PUBLIC_KEY_SIZE),
{
    let mut r = [0u8; PUBLIC_KEY_SIZE];
    let mut i: usize = 0;
    while i < PUBLIC_KEY_SIZE
        invariant
            from + PUBLIC_KEY_SIZE <= b@.len(),
            b@.len() == b.len(),
            i <= PUBLIC_KEY_SIZE,
            r@.len() == PUBLIC_KEY_SIZE,
            forall|k: int| 0 <= k < i ==> r@[k] == b@[from + k],
        decreases PUBLIC_KEY_SIZE - i,
    {
        r[i] = b[from + i];
        i = i + 1;
    }
    assert(r@ =~= b@.subrange(from as int, from + PUBLIC_KEY_SIZE));
    r
}

fn copy_nonce(b: &[u8], from: usize) -> (r: [u8; NONCE_SIZE])
    requires
        from + NONCE_SIZE <= b@.len(),
    ensures
        r@ == b@.subrange(from as int, from + NONCE_SIZE),
{
    let mut r = [0u8; NONCE_SIZE];
    let mut i: usize = 0;
    while i < NONCE_SIZE
        invariant
            from + NONCE_SIZE <= b@.len(),
            b@.len() == b.len(),
            i <= NONCE_SIZE,
            r@.len() == NONCE_SIZE,
            forall|k: int| 0 <= k < i ==> r@[k] == b@[from + k],
        decreases NONCE_SIZE - i,
    {
        r[i] = b[from + i];
        i = i + 1;
    }
    assert(r@ =~= b@.subrange(from as int, from + NONCE_SIZE));
    r
}

/// Reads the opening bytes of an accepted stream: the frame whose bytes they are,
/// or why they are none.
pub fn decode_frame(bytes: &[u8]) -> (r: Result<Frame, FrameError>)
    ensures
        r is Ok <==> frame_error(bytes@) is None,
        r matches Ok(f) ==> frame_bytes(f) == bytes@,
        r matches Err(e) ==> frame_error(bytes@) == Some(e),
        r matches Ok(Frame::Introduction { public_key, nonce }) ==> {
            &&& bytes@.len() == 289
            &&& bytes@[0] == 2
            &&& public_key@ == bytes@.subrange(1, 33)
            &&& nonce@ == bytes@.subrange(33, 289)
        },
        r matches Ok(Frame::Callback { kind, nonce }) ==> {
            &&& bytes@.len() == 257
            &&& bytes@[0] == (if kind == StreamKind::Blocking { 0u8 } else { 1u8 })
            &&& nonce@ == bytes@.subrange(1, 257)
        },
{
    let n: usize = bytes.len();
    if n == 0 {
        return Err(FrameError::Empty);
    }
    let tag: u8 = bytes[0];
    let body = frame_body_len(tag);
    match body {
        Err(e) => Err(e),
        Ok(len) => {
            if n - 1 != len {
                return Err(FrameError::BadLength);
            }
            if tag == INTRODUCTION_TAG {
                let public_key = copy_key(bytes, 1);
                let nonce = copy_nonce(bytes, 1 + PUBLIC_KEY_SIZE);
                let f = Frame::Introduction { public_key, nonce };
                assert(frame_bytes(f) =~= bytes@);
                Ok(f)
            } else {
                let kind = if tag == 0 {
                    StreamKind::Blocking
                } else {
                    StreamKind::Nonblocking
                };
                let nonce = copy_nonce(bytes, 1);
                let f = Frame::Callback { kind, nonce };
                assert(frame_bytes(f) =~= bytes@);
                Ok(f)
            }
        },
    }
}

/// The layout of a frame on the wire: an introduction is the byte 2, then the 32 bytes of
/// the public key in their own order, then the 256 bytes of the nonce; a callback is the
/// byte 0 for the blocking stream or 1 for the other, then the nonce. So a peer that reads
/// bytes 1 to 32 of an introduction gets the key that was written there.
pub proof fn lemma_frame_layout(f: Frame)
    ensures
        match f {
            Frame::Introduction { public_key, nonce } => {
                &&& frame_bytes(f).len() == 289
                &&& frame_bytes(f)[0] == 2
                &&& forall|i: int| 0 <= i < 32 ==> #[trigger] frame_bytes(f)[1 + i] == public_key[i]
                &&& forall|i: int| 0 <= i < 256 ==> #[trigger] frame_bytes(f)[33 + i] == nonce[i]
            },
            Frame::Callback { kind, nonce } => {
                &&& frame_bytes(f).len() == 257
                &&& frame_bytes(f)[0] == (if kind == StreamKind::Blocking { 0u8 } else { 1u8 })
                &&& forall|i: int| 0 <= i < 256 ==> #[trigger] frame_bytes(f)[1 + i] == nonce[i]
            },
        },
{
}

/// The bytes of every frame are well formed, so a frame that is written is read back.
pub proof fn lemma_encoded_frame_is_valid(f: Frame)
    ensures
        frame_error(frame_bytes(f)) is None,
{
}

/// Two frames with the same bytes are the same frame: reading back what was written
/// gives the frame that was written.
pub proof fn lemma_frame_bytes_injective(f: Frame, g: Frame)
    requires
        frame_bytes(f) == frame_bytes(g),
    ensures
        f == g,
{
    let b = frame_bytes(f);
    match f {
        Frame::Introduction { public_key: k1, nonce: n1 } => {
            match g {
                Frame::Introduction { public_key: k2, nonce: n2 } => {
                    assert(k1@ =~= b.subrange(1, 1 + PUBLIC_KEY_SIZE));
                    assert(k2@ =~= b.subrange(1, 1 + PUBLIC_KEY_SIZE));
                    assert(n1@ =~= b.subrange(1 + PUBLIC_KEY_SIZE, b.len() as int));
                    assert(n2@ =~= b.subrange(1 + PUBLIC_KEY_SIZE, b.len() as int));
                    assert(k1 =~= k2);
                    assert(n1 =~= n2);
                },
                Frame::Callback { kind, nonce } => {
                    assert(b[0] == frame_bytes(g)[0]);
                },
            }
        },
        Frame::Callback { kind: c1, nonce: n1 } => {
            match g {
                Frame::Introduction { public_key, nonce } => {
                    assert(b[0] == frame_bytes(g)[0]);
                },
                Frame::Callback { kind: c2, nonce: n2 } => {
                    assert(b[0] == frame_bytes(g)[0]);
                    assert(n1@ =~= b.subrange(1, b.len() as int));
                    assert(n2@ =~= b.subrange(1, b.len() as int));
                    assert(n1 =~= n2);
                },
            }
        },
    }
}

} // verus!
