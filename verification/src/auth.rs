//! Authentication codec: a single framed exchange per connection, before any
//! data frame. The client sends its length-prefixed identity token; the
//! server answers one ack byte, reject or accept, and on reject closes the
//! connection.

use vstd::prelude::*;

use crate::reqtable::ReqError;
use crate::wire;
use crate::wire::WireError;

verus! {

/// The ack byte a server sends when the authenticator refuses the token.
pub const ACK_REJECTED: u8 = 0x00;

/// The ack byte a server sends when the authenticator accepts the token.
pub const ACK_ACCEPTED: u8 = 0x01;

/// The encoding of one auth frame: big-endian token length, then the token.
pub open spec fn auth_frame(token: Seq<u8>) -> Seq<u8>
    recommends
        token.len() <= u32::MAX,
{
    wire::be32(token.len() as u32) + token
}

/// Encodes the client's identity token as an auth frame.
pub fn encode_auth(token: &Vec<u8>) -> (r: Vec<u8>)
    requires
        token@.len() <= u32::MAX,
    ensures
        r@ == auth_frame(token@),
{
    let mut out: Vec<u8> = Vec::new();
    wire::encode_u32(token.len() as u32, &mut out);
    let n = token.len();
    let mut i: usize = 0;
    while i < n
        invariant
            n == token@.len(),
            i <= n,
            out@ == wire::be32(n as u32) + token@.subrange(0, i as int),
        decreases n - i,
    {
        out.push(token[i]);
        assert(token@.subrange(0, i + 1) =~= token@.subrange(0, i as int).push(token@[i as int]));
        i = i + 1;
    }
    assert(token@.subrange(0, n as int) =~= token@);
    assert(out@ =~= auth_frame(token@));
    out
}

/// The token length an auth buffer's prefix declares.
pub open spec fn auth_hdr_len(b: Seq<u8>) -> int
    recommends
        b.len() >= 4,
{
    wire::be32_val(b.subrange(0, 4)) as int
}

/// A whole auth frame is available at the buffer's front.
pub open spec fn auth_complete(b: Seq<u8>) -> bool {
    b.len() >= 4 && b.len() >= 4 + auth_hdr_len(b)
}

/// The token of the auth frame at the buffer's front.
pub open spec fn auth_token(b: Seq<u8>) -> Seq<u8>
    recommends
        auth_complete(b),
{
    b.subrange(4, 4 + auth_hdr_len(b))
}

/// Decodes the auth frame at the front of `buf`, yielding the token and the
/// bytes consumed. Too few bytes yield nothing; a declared length over
/// `max_token` is refused.
pub fn decode_auth(buf: &Vec<u8>, max_token: usize) -> (r: Result<Option<(Vec<u8>, usize)>, WireError>)
    requires
        max_token <= u32::MAX,
    ensures
        buf@.len() < 4 ==> r == Ok::<Option<(Vec<u8>, usize)>, WireError>(None),
        buf@.len() >= 4 && auth_hdr_len(buf@) > max_token ==> (r matches Err(e) && e matches
            WireError::LengthExceeded(mx) && mx == max_token),
        buf@.len() >= 4 && auth_hdr_len(buf@) <= max_token && !auth_complete(buf@) ==> r == Ok::<
            Option<(Vec<u8>, usize)>,
            WireError,
        >(None),
        buf@.len() >= 4 && auth_hdr_len(buf@) <= max_token && auth_complete(buf@) ==> (r matches
            Ok(Some(t)) && t.0@ == auth_token(buf@) && t.1 == 4 + auth_hdr_len(buf@)),
{
    let total = buf.len();
    if total < 4 {
        return Ok(None);
    }
    let len32 = wire::decode_u32(buf, 0);
    assert(len32 as int == auth_hdr_len(buf@));
    if len32 as usize > max_token {
        return Err(WireError::LengthExceeded(max_token));
    }
    let len = len32 as usize;
    if total - 4 < len {
        assert(!auth_complete(buf@));
        return Ok(None);
    }
    assert(auth_complete(buf@));
    let mut token: Vec<u8> = Vec::new();
    let mut i: usize = 0;
    while i < len
        invariant
            i <= len,
            total == buf@.len(),
            4 + len <= total,
            token@ == buf@.subrange(4, 4 + i as int),
        decreases len - i,
    {
        token.push(buf[4 + i]);
        assert(buf@.subrange(4, 4 + i + 1) =~= buf@.subrange(4, 4 + i as int).push(
            buf@[4 + i],
        ));
        i = i + 1;
    }
    assert(token@ =~= auth_token(buf@));
    Ok(Some((token, 4 + len)))
}

/// The ack byte for an authenticator's verdict.
pub fn ack_byte(accepted: bool) -> (r: u8)
    ensures
        accepted ==> r == ACK_ACCEPTED,
        !accepted ==> r == ACK_REJECTED,
{
    if accepted {
        ACK_ACCEPTED
    } else {
        ACK_REJECTED
    }
}

/// Reads a server's ack byte: accept, reject, or an invalid-tag wire error.
pub fn parse_ack(b: u8) -> (r: Result<bool, WireError>)
    ensures
        b == ACK_ACCEPTED ==> r == Ok::<bool, WireError>(true),
        b == ACK_REJECTED ==> r == Ok::<bool, WireError>(false),
        b != ACK_ACCEPTED && b != ACK_REJECTED ==> r == Err::<bool, WireError>(WireError::Invalid),
{
    if b == ACK_ACCEPTED {
        Ok(true)
    } else if b == ACK_REJECTED {
        Ok(false)
    } else {
        Err(WireError::Invalid)
    }
}

/// The client-side outcome of the handshake: a rejecting ack fails the
/// connect with `AuthRejected`; only an accepting ack lets it proceed.
pub fn auth_outcome(accepted: bool) -> (r: Result<(), ReqError>)
    ensures
        accepted ==> r == Ok::<(), ReqError>(()),
        !accepted ==> r == Err::<(), ReqError>(ReqError::AuthRejected),
{
    if accepted {
        Ok(())
    } else {
        Err(ReqError::AuthRejected)
    }
}

/// Round trip: a buffer holding the encoding of a token followed by anything
/// else parses back to exactly that token, consuming exactly the frame.
pub proof fn lemma_auth_round_trip(token: Seq<u8>, rest: Seq<u8>)
    requires
        token.len() <= u32::MAX,
    ensures
        ({
            let b = auth_frame(token) + rest;
            b.len() >= 4 && auth_hdr_len(b) == token.len() && auth_complete(b) && auth_token(b)
                == token
        }),
{
    let b = auth_frame(token) + rest;
    assert(b.subrange(0, 4) =~= wire::be32(token.len() as u32));
    wire::lemma_be32_round_trip(token.len() as u32);
    assert(auth_token(b) =~= token);
}

} // verus!
