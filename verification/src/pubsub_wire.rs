//! Publish/subscribe wire codec. A frame is a 1-byte tag — data, subscribe
//! or unsubscribe — a 2-byte big-endian topic length and the topic bytes;
//! a data frame then carries a 4-byte big-endian payload length and the
//! payload bytes.

use vstd::prelude::*;

use crate::wire;
use crate::wire::WireError;

verus! {

/// The tag byte of a data frame.
pub const TAG_DATA: u8 = 0x01;

/// The tag byte of a subscribe control frame.
pub const TAG_SUBSCRIBE: u8 = 0x02;

/// The tag byte of an unsubscribe control frame.
pub const TAG_UNSUBSCRIBE: u8 = 0x03;

/// One publish/subscribe frame: a topic-carrying message or a subscription
/// control frame.
#[derive(PartialEq, Eq, Debug, Clone)]
pub enum PubSubFrame {
    /// A published message on a topic.
    Data { topic: Vec<u8>, payload: Vec<u8> },
    /// The subscriber starts accepting the topic.
    Subscribe { topic: Vec<u8> },
    /// The subscriber stops accepting the topic.
    Unsubscribe { topic: Vec<u8> },
}

/// The two big-endian bytes of a 16-bit value.
pub open spec fn be16(n: u16) -> Seq<u8> {
    seq![((n >> 8) & 0xff) as u8, (n & 0xff) as u8]
}

/// The 16-bit value read from two big-endian bytes.
pub open spec fn be16_val(b: Seq<u8>) -> u16
    recommends
        b.len() == 2,
{
    (((b[0] as u16) << 8) | (b[1] as u16)) as u16
}

/// Reading back the two big-endian bytes of a value recovers the value.
pub proof fn lemma_be16_round_trip(n: u16)
    ensures
        be16_val(be16(n)) == n,
{
    assert((((((n >> 8) & 0xff) as u8) as u16) << 8 | (((n & 0xff) as u8) as u16)) as u16 == n)
        by (bit_vector);
}

/// Appends the two big-endian bytes of `n` to `out`.
pub fn encode_u16(n: u16, out: &mut Vec<u8>)
    ensures
        final(out)@ == old(out)@ + be16(n),
{
    out.push(((n >> 8) & 0xff) as u8);
    out.push((n & 0xff) as u8);
    assert(out@ =~= old(out)@ + be16(n));
}

/// The encoding of one frame.
pub open spec fn pubsub_encoding(f: PubSubFrame) -> Seq<u8>
    recommends
        frame_encodable(f),
{
    match f {
        PubSubFrame::Data { topic, payload } => seq![TAG_DATA] + be16(topic@.len() as u16) + topic@
            + wire::be32(payload@.len() as u32) + payload@,
        PubSubFrame::Subscribe { topic } => seq![TAG_SUBSCRIBE] + be16(topic@.len() as u16)
            + topic@,
        PubSubFrame::Unsubscribe { topic } => seq![TAG_UNSUBSCRIBE] + be16(topic@.len() as u16)
            + topic@,
    }
}

/// The frame's lengths fit their wire fields.
pub open spec fn frame_encodable(f: PubSubFrame) -> bool {
    match f {
        PubSubFrame::Data { topic, payload } => topic@.len() <= u16::MAX && payload@.len()
            <= u32::MAX,
        PubSubFrame::Subscribe { topic } => topic@.len() <= u16::MAX,
        PubSubFrame::Unsubscribe { topic } => topic@.len() <= u16::MAX,
    }
}

/// Appends every byte of `src` to `out`.
fn push_all(src: &Vec<u8>, out: &mut Vec<u8>)
    requires
        old(out)@.len() + src@.len() <= usize::MAX,
    ensures
        final(out)@ == old(out)@ + src@,
{
    let n = src.len();
    let mut i: usize = 0;
    while i < n
        invariant
            n == src@.len(),
            i <= n,
            out@ == old(out)@ + src@.subrange(0, i as int),
            out@.len() + (n - i) <= usize::MAX,
        decreases n - i,
    {
        out.push(src[i]);
        assert(src@.subrange(0, i + 1) =~= src@.subrange(0, i as int).push(src@[i as int]));
        i = i + 1;
    }
    assert(src@.subrange(0, n as int) =~= src@);
}

/// Encodes one frame.
pub fn encode_pubsub(f: &PubSubFrame) -> (r: Vec<u8>)
    requires
        frame_encodable(*f),
        pubsub_encoding(*f).len() <= usize::MAX,
    ensures
        r@ == pubsub_encoding(*f),
{
    let mut out: Vec<u8> = Vec::new();
    match f {
        PubSubFrame::Data { topic, payload } => {
            out.push(TAG_DATA);
            assert(out@ =~= seq![TAG_DATA]);
            encode_u16(topic.len() as u16, &mut out);
            push_all(topic, &mut out);
            wire::encode_u32(payload.len() as u32, &mut out);
            push_all(payload, &mut out);
            assert(out@ =~= pubsub_encoding(*f));
        },
        PubSubFrame::Subscribe { topic } => {
            out.push(TAG_SUBSCRIBE);
            assert(out@ =~= seq![TAG_SUBSCRIBE]);
            encode_u16(topic.len() as u16, &mut out);
            push_all(topic, &mut out);
            assert(out@ =~= pubsub_encoding(*f));
        },
        PubSubFrame::Unsubscribe { topic } => {
            out.push(TAG_UNSUBSCRIBE);
            assert(out@ =~= seq![TAG_UNSUBSCRIBE]);
            encode_u16(topic.len() as u16, &mut out);
            push_all(topic, &mut out);
            assert(out@ =~= pubsub_encoding(*f));
        },
    }
    out
}

/// The topic length a buffer's front declares.
pub open spec fn ps_topic_len(b: Seq<u8>) -> int
    recommends
        b.len() >= 3,
{
    be16_val(b.subrange(1, 3)) as int
}

/// The payload length a data frame's front declares.
pub open spec fn ps_payload_len(b: Seq<u8>) -> int
    recommends
        b.len() >= 7 + ps_topic_len(b),
{
    wire::be32_val(b.subrange(3 + ps_topic_len(b), 7 + ps_topic_len(b))) as int
}

/// A whole frame is available at the buffer's front.
pub open spec fn ps_complete(b: Seq<u8>) -> bool {
    b.len() >= 3 && (if b[0] == TAG_DATA {
        b.len() >= 7 + ps_topic_len(b) && b.len() >= 7 + ps_topic_len(b) + ps_payload_len(b)
    } else {
        b.len() >= 3 + ps_topic_len(b)
    })
}

/// The topic of the frame at the buffer's front.
pub open spec fn ps_topic(b: Seq<u8>) -> Seq<u8>
    recommends
        b.len() >= 3 + ps_topic_len(b),
{
    b.subrange(3, 3 + ps_topic_len(b))
}

/// The payload of the data frame at the buffer's front.
pub open spec fn ps_payload(b: Seq<u8>) -> Seq<u8>
    recommends
        ps_complete(b) && b[0] == TAG_DATA,
{
    b.subrange(7 + ps_topic_len(b), 7 + ps_topic_len(b) + ps_payload_len(b))
}

/// How many bytes the frame at the buffer's front occupies.
pub open spec fn ps_consumed(b: Seq<u8>) -> int
    recommends
        ps_complete(b),
{
    if b[0] == TAG_DATA {
        7 + ps_topic_len(b) + ps_payload_len(b)
    } else {
        3 + ps_topic_len(b)
    }
}

/// Decodes the frame at the front of `buf`, yielding it and the bytes
/// consumed. An unknown tag is invalid; a declared payload length over
/// `max_payload` is refused; too few bytes yield nothing.
pub fn decode_pubsub(buf: &Vec<u8>, max_payload: usize) -> (r: Result<
    Option<(PubSubFrame, usize)>,
    WireError,
>)
    requires
        max_payload <= u32::MAX,
    ensures
        buf@.len() == 0 ==> r == Ok::<Option<(PubSubFrame, usize)>, WireError>(None),
        buf@.len() >= 1 && buf@[0] != TAG_DATA && buf@[0] != TAG_SUBSCRIBE && buf@[0]
            != TAG_UNSUBSCRIBE ==> r == Err::<Option<(PubSubFrame, usize)>, WireError>(
            WireError::Invalid,
        ),
        buf@.len() >= 1 && buf@[0] == TAG_DATA && buf@.len() >= 7 + ps_topic_len(buf@)
            && ps_payload_len(buf@) > max_payload ==> (r matches Err(e) && e matches
            WireError::LengthExceeded(mx) && mx == max_payload),
        ps_complete(buf@) && buf@[0] == TAG_DATA && ps_payload_len(buf@) <= max_payload ==> (
        r matches Ok(Some(t)) && t.0 matches PubSubFrame::Data { topic, payload } && topic@
            == ps_topic(buf@) && payload@ == ps_payload(buf@) && t.1 == ps_consumed(buf@)),
        ps_complete(buf@) && buf@[0] == TAG_SUBSCRIBE ==> (r matches Ok(Some(t)) && t.0 matches
            PubSubFrame::Subscribe { topic } && topic@ == ps_topic(buf@) && t.1 == ps_consumed(
            buf@,
        )),
        ps_complete(buf@) && buf@[0] == TAG_UNSUBSCRIBE ==> (r matches Ok(Some(t)) && t.0 matches
            PubSubFrame::Unsubscribe { topic } && topic@ == ps_topic(buf@) && t.1 == ps_consumed(
            buf@,
        )),
        !ps_complete(buf@) && (buf@.len() == 0 || (buf@.len() >= 1 && (buf@[0] == TAG_SUBSCRIBE
            || buf@[0] == TAG_UNSUBSCRIBE))) ==> r == Ok::<
            Option<(PubSubFrame, usize)>,
            WireError,
        >(None),
{
    let total = buf.len();
    if total == 0 {
        return Ok(None);
    }
    let tag = buf[0];
    if tag != TAG_DATA && tag != TAG_SUBSCRIBE && tag != TAG_UNSUBSCRIBE {
        return Err(WireError::Invalid);
    }
    if total < 3 {
        return Ok(None);
    }
    let tl32 = {
        let hi = buf[1];
        let lo = buf[2];
        assert(buf@.subrange(1, 3)[0] == hi);
        assert(buf@.subrange(1, 3)[1] == lo);
        ((hi as u16) << 8) | (lo as u16)
    };
    let tl = tl32 as usize;
    assert(tl == ps_topic_len(buf@));
    if total - 3 < tl {
        return Ok(None);
    }
    let mut topic: Vec<u8> = Vec::new();
    let mut i: usize = 0;
    while i < tl
        invariant
            i <= tl,
            total == buf@.len(),
            3 + tl <= total,
            topic@ == buf@.subrange(3, 3 + i as int),
        decreases tl - i,
    {
        topic.push(buf[3 + i]);
        assert(buf@.subrange(3, 3 + i + 1) =~= buf@.subrange(3, 3 + i as int).push(buf@[3 + i]));
        i = i + 1;
    }
    assert(topic@ =~= ps_topic(buf@));
    if tag == TAG_SUBSCRIBE {
        return Ok(Some((PubSubFrame::Subscribe { topic }, 3 + tl)));
    }
    if tag == TAG_UNSUBSCRIBE {
        return Ok(Some((PubSubFrame::Unsubscribe { topic }, 3 + tl)));
    }
    if total - 3 - tl < 4 {
        assert(!ps_complete(buf@));
        return Ok(None);
    }
    let pl32 = wire::decode_u32(buf, 3 + tl);
    assert(pl32 as int == ps_payload_len(buf@));
    if pl32 as usize > max_payload {
        return Err(WireError::LengthExceeded(max_payload));
    }
    let pl = pl32 as usize;
    if total - 7 - tl < pl {
        assert(!ps_complete(buf@));
        return Ok(None);
    }
    assert(ps_complete(buf@));
    let mut payload: Vec<u8> = Vec::new();
    let start = 7 + tl;
    let mut j: usize = 0;
    while j < pl
        invariant
            j <= pl,
            total == buf@.len(),
            start == 7 + tl,
            start + pl <= total,
            payload@ == buf@.subrange(start as int, start as int + j as int),
        decreases pl - j,
    {
        payload.push(buf[start + j]);
        assert(buf@.subrange(start as int, start as int + j + 1) =~= buf@.subrange(
            start as int,
            start as int + j as int,
        ).push(buf@[start + j]));
        j = j + 1;
    }
    assert(payload@ =~= ps_payload(buf@));
    Ok(Some((PubSubFrame::Data { topic, payload }, start + pl)))
}

/// Round trip: the encoding of a data frame followed by anything else parses
/// back to exactly its topic and payload.
pub proof fn lemma_pubsub_data_round_trip(topic: Seq<u8>, payload: Seq<u8>, rest: Seq<u8>)
    requires
        topic.len() <= u16::MAX,
        payload.len() <= u32::MAX,
    ensures
        ({
            let b = seq![TAG_DATA] + be16(topic.len() as u16) + topic + wire::be32(
                payload.len() as u32,
            ) + payload + rest;
            b[0] == TAG_DATA && ps_topic_len(b) == topic.len() && ps_payload_len(b)
                == payload.len() && ps_complete(b) && ps_topic(b) == topic && ps_payload(b)
                == payload && ps_consumed(b) == 7 + topic.len() + payload.len()
        }),
{
    let b = seq![TAG_DATA] + be16(topic.len() as u16) + topic + wire::be32(payload.len() as u32)
        + payload + rest;
    assert(b.subrange(1, 3) =~= be16(topic.len() as u16));
    lemma_be16_round_trip(topic.len() as u16);
    assert(ps_topic_len(b) == topic.len());
    assert(b.subrange(3 + ps_topic_len(b), 7 + ps_topic_len(b)) =~= wire::be32(
        payload.len() as u32,
    ));
    wire::lemma_be32_round_trip(payload.len() as u32);
    assert(ps_payload_len(b) == payload.len());
    assert(ps_topic(b) =~= topic);
    assert(ps_payload(b) =~= payload);
}

/// Round trip: the encoding of a subscribe frame followed by anything else
/// parses back to exactly its topic.
pub proof fn lemma_pubsub_subscribe_round_trip(topic: Seq<u8>, rest: Seq<u8>)
    requires
        topic.len() <= u16::MAX,
    ensures
        ({
            let b = seq![TAG_SUBSCRIBE] + be16(topic.len() as u16) + topic + rest;
            b[0] == TAG_SUBSCRIBE && ps_topic_len(b) == topic.len() && ps_complete(b) && ps_topic(
                b,
            ) == topic && ps_consumed(b) == 3 + topic.len()
        }),
{
    let b = seq![TAG_SUBSCRIBE] + be16(topic.len() as u16) + topic + rest;
    assert(b.subrange(1, 3) =~= be16(topic.len() as u16));
    lemma_be16_round_trip(topic.len() as u16);
    assert(ps_topic(b) =~= topic);
}

} // verus!
