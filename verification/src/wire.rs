//! Request/reply wire codec: length-delimited frames carrying a 32-bit
//! correlation id and an opaque payload. A frame is the 4-byte big-endian id,
//! the 4-byte big-endian payload length, then the payload bytes.

use vstd::prelude::*;

verus! {

/// Default hard per-frame payload maximum (16 MiB): prevents unbounded
/// buffering on a malformed or hostile stream.
pub const DEFAULT_MAX_PAYLOAD: usize = 16 * 1024 * 1024;

/// Errors a codec can produce while translating bytes to frames.
#[derive(PartialEq, Eq, Structural, Clone, Copy, Debug)]
pub enum WireError {
    /// The stream ended in the middle of a frame.
    Truncated,
    /// The frame's declared length exceeds the configured maximum.
    LengthExceeded(usize),
    /// The frame carries an unknown tag.
    Invalid,
}

/// One request/reply message: the id correlates a reply to its request and is
/// chosen by the requesting side; the payload is opaque.
#[derive(PartialEq, Eq, Debug, Clone)]
pub struct Message {
    pub id: u32,
    pub payload: Vec<u8>,
}

impl Message {
    pub fn new(id: u32, payload: Vec<u8>) -> (r: Message)
        ensures
            r.id == id,
            r.payload@ == payload@,
    {
        Message { id, payload }
    }

    pub fn id(&self) -> (r: u32)
        ensures
            r == self.id,
    {
        self.id
    }

    pub fn into_payload(self) -> (r: Vec<u8>)
        ensures
            r@ == self.payload@,
    {
        self.payload
    }
}

/// The four big-endian bytes of a 32-bit value, most significant first.
pub open spec fn be32(n: u32) -> Seq<u8> {
    seq![
        ((n >> 24) & 0xff) as u8,
        ((n >> 16) & 0xff) as u8,
        ((n >> 8) & 0xff) as u8,
        (n & 0xff) as u8,
    ]
}

/// The 32-bit value read from four big-endian bytes.
pub open spec fn be32_val(b: Seq<u8>) -> u32
    recommends
        b.len() == 4,
{
    (((b[0] as u32) << 24) | ((b[1] as u32) << 16) | ((b[2] as u32) << 8) | (b[3] as u32)) as u32
}

/// Reading back the four big-endian bytes of a value recovers the value.
pub proof fn lemma_be32_round_trip(n: u32)
    ensures
        be32_val(be32(n)) == n,
{
    assert((((((n >> 24) & 0xff) as u8) as u32) << 24
        | ((((n >> 16) & 0xff) as u8) as u32) << 16
        | ((((n >> 8) & 0xff) as u8) as u32) << 8
        | (((n & 0xff) as u8) as u32)) as u32 == n) by (bit_vector);
}

/// Appends the four big-endian bytes of `n` to `out`.
pub fn encode_u32(n: u32, out: &mut Vec<u8>)
    ensures
        final(out)@ == old(out)@ + be32(n),
{
    out.push(((n >> 24) & 0xff) as u8);
    out.push(((n >> 16) & 0xff) as u8);
    out.push(((n >> 8) & 0xff) as u8);
    out.push((n & 0xff) as u8);
    assert(out@ =~= old(out)@ + be32(n));
}

/// Reads the 32-bit big-endian value at `pos`.
pub fn decode_u32(b: &Vec<u8>, pos: usize) -> (r: u32)
    requires
        pos + 4 <= b@.len(),
    ensures
        r == be32_val(b@.subrange(pos as int, pos as int + 4)),
{
    let n = b.len();
    assert(pos + 4 <= n);
    let b0 = b[pos];
    let b1 = b[pos + 1];
    let b2 = b[pos + 2];
    let b3 = b[pos + 3];
    assert(b@.subrange(pos as int, pos as int + 4)[0] == b0);
    assert(b@.subrange(pos as int, pos as int + 4)[1] == b1);
    assert(b@.subrange(pos as int, pos as int + 4)[2] == b2);
    assert(b@.subrange(pos as int, pos as int + 4)[3] == b3);
    ((b0 as u32) << 24) | ((b1 as u32) << 16) | ((b2 as u32) << 8) | (b3 as u32)
}

/// The encoding of one frame: big-endian id, big-endian payload length,
/// payload bytes.
pub open spec fn frame(id: u32, payload: Seq<u8>) -> Seq<u8>
    recommends
        payload.len() <= u32::MAX,
{
    be32(id) + be32(payload.len() as u32) + payload
}

/// The payload length a buffer's header declares.
pub open spec fn hdr_len(b: Seq<u8>) -> int
    recommends
        b.len() >= 8,
{
    be32_val(b.subrange(4, 8)) as int
}

/// A whole frame, header and payload, is available at the buffer's front.
pub open spec fn frame_complete(b: Seq<u8>) -> bool {
    b.len() >= 8 && b.len() >= 8 + hdr_len(b)
}

/// The id of the frame at the buffer's front.
pub open spec fn parsed_id(b: Seq<u8>) -> u32
    recommends
        b.len() >= 8,
{
    be32_val(b.subrange(0, 4))
}

/// The payload of the frame at the buffer's front.
pub open spec fn parsed_payload(b: Seq<u8>) -> Seq<u8>
    recommends
        frame_complete(b),
{
    b.subrange(8, 8 + hdr_len(b))
}

/// Encodes one message as a frame.
pub fn encode(msg: &Message) -> (r: Vec<u8>)
    requires
        msg.payload@.len() <= u32::MAX,
    ensures
        r@ == frame(msg.id, msg.payload@),
{
    let mut out: Vec<u8> = Vec::new();
    encode_u32(msg.id, &mut out);
    encode_u32(msg.payload.len() as u32, &mut out);
    let n = msg.payload.len();
    let mut i: usize = 0;
    while i < n
        invariant
            n == msg.payload@.len(),
            i <= n,
            out@ == be32(msg.id) + be32(n as u32) + msg.payload@.subrange(0, i as int),
        decreases n - i,
    {
        out.push(msg.payload[i]);
        assert(msg.payload@.subrange(0, i + 1) =~= msg.payload@.subrange(0, i as int).push(
            msg.payload@[i as int],
        ));
        i = i + 1;
    }
    assert(msg.payload@.subrange(0, n as int) =~= msg.payload@);
    assert(out@ =~= frame(msg.id, msg.payload@));
    out
}

/// Stateful decoder for the request/reply codec: bytes are fed in as they
/// arrive and whole frames are taken out. Consumed bytes are discarded, so
/// the buffer holds no more than what was fed since the last decoded frame.
pub struct Codec {
    buf: Vec<u8>,
    max_payload: usize,
}

impl Codec {
    /// The bytes fed in and not yet consumed by a decoded frame.
    pub closed spec fn pending(&self) -> Seq<u8> {
        self.buf@
    }

    /// The configured per-frame payload maximum.
    pub closed spec fn max_spec(&self) -> int {
        self.max_payload as int
    }

    pub closed spec fn wf(&self) -> bool {
        self.max_payload <= u32::MAX
    }

    /// A decoder with the default per-frame maximum.
    pub fn new() -> (r: Codec)
        ensures
            r.wf(),
            r.pending() == Seq::<u8>::empty(),
            r.max_spec() == DEFAULT_MAX_PAYLOAD as int,
    {
        let r = Codec { buf: Vec::new(), max_payload: DEFAULT_MAX_PAYLOAD };
        assert(r.pending() =~= Seq::<u8>::empty());
        r
    }

    /// A decoder with a chosen per-frame maximum.
    pub fn with_max_payload(max_payload: usize) -> (r: Codec)
        requires
            max_payload <= u32::MAX,
        ensures
            r.wf(),
            r.pending() == Seq::<u8>::empty(),
            r.max_spec() == max_payload as int,
    {
        let r = Codec { buf: Vec::new(), max_payload };
        assert(r.pending() =~= Seq::<u8>::empty());
        r
    }

    /// Appends newly received bytes to the pending buffer.
    pub fn feed(&mut self, bytes: &Vec<u8>)
        requires
            old(self).wf(),
            old(self).pending().len() + bytes@.len() <= usize::MAX,
        ensures
            final(self).wf(),
            final(self).pending() == old(self).pending() + bytes@,
            final(self).max_spec() == old(self).max_spec(),
    {
        let n = bytes.len();
        let mut i: usize = 0;
        while i < n
            invariant
                self.wf(),
                n == bytes@.len(),
                i <= n,
                self.buf@.len() + (n - i) <= usize::MAX,
                self.max_payload == old(self).max_payload,
                self.buf@ == old(self).buf@ + bytes@.subrange(0, i as int),
            decreases n - i,
        {
            self.buf.push(bytes[i]);
            assert(bytes@.subrange(0, i + 1) =~= bytes@.subrange(0, i as int).push(
                bytes@[i as int],
            ));
            i = i + 1;
        }
        assert(bytes@.subrange(0, n as int) =~= bytes@);
        assert(self.pending() =~= old(self).pending() + bytes@);
    }

    /// Decodes one frame from the front of the pending bytes, if a whole one
    /// is available. Exactly one of three outcomes: the header's declared
    /// length exceeds the maximum; too few bytes are pending and nothing
    /// changes; or the frame is returned and its bytes are consumed.
    pub fn decode(&mut self) -> (r: Result<Option<Message>, WireError>)
        requires
            old(self).wf(),
        ensures
            final(self).wf(),
            final(self).max_spec() == old(self).max_spec(),
            old(self).pending().len() < 8 ==> r == Ok::<Option<Message>, WireError>(None)
                && final(self).pending() == old(self).pending(),
            old(self).pending().len() >= 8 && hdr_len(old(self).pending()) > old(self).max_spec()
                ==> (r matches Err(e) && e matches WireError::LengthExceeded(mx) && mx as int
                == old(self).max_spec()) && final(self).pending() == old(self).pending(),
            old(self).pending().len() >= 8 && hdr_len(old(self).pending()) <= old(self).max_spec()
                && !frame_complete(old(self).pending()) ==> r == Ok::<Option<Message>, WireError>(
                None,
            ) && final(self).pending() == old(self).pending(),
            old(self).pending().len() >= 8 && hdr_len(old(self).pending()) <= old(self).max_spec()
                && frame_complete(old(self).pending()) ==> (r matches Ok(Some(m)) && m.id
                == parsed_id(old(self).pending()) && m.payload@ == parsed_payload(
                old(self).pending(),
            ) && final(self).pending() == old(self).pending().skip(8 + hdr_len(old(self).pending()))),
    {
        let avail = self.buf.len();
        if avail < 8 {
            return Ok(None);
        }
        let ghost p = self.pending();
        let id = decode_u32(&self.buf, 0);
        let len32 = decode_u32(&self.buf, 4);
        assert(id == parsed_id(p));
        assert(len32 as int == hdr_len(p));
        if len32 as usize > self.max_payload {
            return Err(WireError::LengthExceeded(self.max_payload));
        }
        let len = len32 as usize;
        if avail - 8 < len {
            assert(!frame_complete(p));
            return Ok(None);
        }
        assert(frame_complete(p));
        let mut payload: Vec<u8> = Vec::new();
        let buf_len = self.buf.len();
        let mut i: usize = 0;
        while i < len
            invariant
                i <= len,
                buf_len == self.buf@.len(),
                8 + len <= buf_len,
                payload@ == self.buf@.subrange(8, 8 + i as int),
            decreases len - i,
        {
            payload.push(self.buf[8 + i]);
            assert(self.buf@.subrange(8, 8 + i + 1) =~= self.buf@.subrange(8, 8 + i as int).push(
                self.buf@[8 + i],
            ));
            i = i + 1;
        }
        assert(payload@ =~= parsed_payload(p));
        // Discard the consumed frame: keep only what follows it.
        let consumed = 8 + len;
        let mut rest: Vec<u8> = Vec::new();
        let mut j: usize = consumed;
        while j < buf_len
            invariant
                consumed <= j <= buf_len,
                buf_len == self.buf@.len(),
                consumed == 8 + len,
                rest@ == self.buf@.subrange(consumed as int, j as int),
            decreases buf_len - j,
        {
            rest.push(self.buf[j]);
            assert(self.buf@.subrange(consumed as int, j + 1) =~= self.buf@.subrange(
                consumed as int,
                j as int,
            ).push(self.buf@[j as int]));
            j = j + 1;
        }
        self.buf = rest;
        assert(self.pending() =~= p.skip(8 + hdr_len(p)));
        Ok(Some(Message { id, payload }))
    }

    /// At end of stream: leftover bytes that form no whole frame mean the
    /// peer truncated a frame.
    pub fn finish(&self) -> (r: Result<(), WireError>)
        requires
            self.wf(),
        ensures
            r == Ok::<(), WireError>(()) <==> self.pending().len() == 0,
            self.pending().len() > 0 ==> r == Err::<(), WireError>(WireError::Truncated),
    {
        if self.buf.len() > 0 {
            Err(WireError::Truncated)
        } else {
            Ok(())
        }
    }
}

/// Round trip: a buffer holding the encoding of a message followed by
/// anything else parses to exactly that message, and consuming the frame
/// leaves exactly the rest.
pub proof fn lemma_frame_round_trip(id: u32, payload: Seq<u8>, rest: Seq<u8>)
    requires
        payload.len() <= u32::MAX,
    ensures
        ({
            let b = frame(id, payload) + rest;
            b.len() >= 8 && hdr_len(b) == payload.len() && parsed_id(b) == id && frame_complete(b)
                && parsed_payload(b) == payload && b.skip(8 + hdr_len(b)) == rest
        }),
{
    let b = frame(id, payload) + rest;
    assert(b.subrange(0, 4) =~= be32(id));
    assert(b.subrange(4, 8) =~= be32(payload.len() as u32));
    lemma_be32_round_trip(id);
    lemma_be32_round_trip(payload.len() as u32);
    assert(hdr_len(b) == payload.len());
    assert(parsed_payload(b) =~= payload);
    assert(b.skip(8 + hdr_len(b)) =~= rest);
}

} // verus!
