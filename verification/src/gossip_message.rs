//! The gossip wire protocol: message taxonomy and byte-level codec.
//!
//! Every message travels as a 16-byte random nonce followed by a tagged body.
//! The nonce exists only to defeat payload-identity deduplication in the
//! overlay; it is never inspected on receipt. The body is one of three
//! variants: a snapshot solicitation, opaque document bytes, or a presence
//! record.

use vstd::prelude::*;
use vstd::bytes::{
    spec_u128_to_le_bytes, spec_u64_from_le_bytes, spec_u64_to_le_bytes,
    lemma_auto_spec_u64_to_from_le_bytes, u128_to_le_bytes, u64_from_le_bytes, u64_to_le_bytes,
};
use vstd::slice::{slice_subrange, slice_to_vec};
use vstd::string::StrSliceExecFns;
use vstd::utf8::{decode_utf8, encode_utf8, encode_utf8_decode_utf8, encode_utf8_valid_utf8,
    valid_utf8};

use crate::awareness::{Awareness, AwarenessView, CursorPair, CursorPairView, IdBytes,
    cursors_view};

verus! {

pub const TAG_REQUEST_DATA: u8 = 0;

pub const TAG_UPDATE: u8 = 1;

pub const TAG_AWARENESS: u8 = 2;

/// One protocol message.
///
/// `RequestData` solicits a full snapshot from any peer; `Update` carries
/// opaque document bytes (a snapshot or an incremental change-set, not
/// distinguished at the protocol level); `Awareness` carries one presence
/// record.
pub enum GossipMessage {
    RequestData,
    Update { data: Vec<u8> },
    Awareness(Awareness),
}

pub enum GossipMessageView {
    RequestData,
    Update { data: Seq<u8> },
    Awareness(AwarenessView),
}

impl View for GossipMessage {
    type V = GossipMessageView;

    open spec fn view(&self) -> GossipMessageView {
        match self {
            GossipMessage::RequestData => GossipMessageView::RequestData,
            GossipMessage::Update { data } => GossipMessageView::Update { data: data@ },
            GossipMessage::Awareness(a) => GossipMessageView::Awareness(a@),
        }
    }
}

/// Bounds under which a message body can be framed: every length field must
/// fit its eight-byte wire slot, and an identity is exactly 32 bytes. Every
/// message built from executable values satisfies them.
pub open spec fn cursors_wf(c: Option<CursorPairView>) -> bool {
    match c {
        Option::None => true,
        Option::Some(cp) => cp.primary.len() <= u64::MAX && cp.secondary.len() <= u64::MAX,
    }
}

pub open spec fn awareness_wf(a: AwarenessView) -> bool {
    &&& a.endpoint_id.len() == 32
    &&& encode_utf8(a.name).len() <= u64::MAX
    &&& cursors_wf(a.cursors)
}

pub open spec fn msg_wf(m: GossipMessageView) -> bool {
    match m {
        GossipMessageView::RequestData => true,
        GossipMessageView::Update { data } => true,
        GossipMessageView::Awareness(a) => awareness_wf(a),
    }
}

/// Byte encoding of an optional cursor pair: a presence flag, then each
/// anchor as an eight-byte little-endian length followed by its bytes.
pub open spec fn encode_cursors(c: Option<CursorPairView>) -> Seq<u8> {
    match c {
        Option::None => seq![0u8],
        Option::Some(cp) => seq![1u8] + spec_u64_to_le_bytes(cp.primary.len() as u64) + cp.primary
            + spec_u64_to_le_bytes(cp.secondary.len() as u64) + cp.secondary,
    }
}

/// Byte encoding of a presence record: 32 identity bytes, the timestamp, the
/// UTF-8 display name behind its length, then the cursors.
pub open spec fn encode_awareness(a: AwarenessView) -> Seq<u8> {
    a.endpoint_id + spec_u64_to_le_bytes(a.timestamp_ms) + spec_u64_to_le_bytes(
        encode_utf8(a.name).len() as u64,
    ) + encode_utf8(a.name) + encode_cursors(a.cursors)
}

/// Byte encoding of a message body: a tag byte, then the variant's payload.
pub open spec fn encode_body(m: GossipMessageView) -> Seq<u8> {
    match m {
        GossipMessageView::RequestData => seq![TAG_REQUEST_DATA],
        GossipMessageView::Update { data } => seq![TAG_UPDATE] + data,
        GossipMessageView::Awareness(a) => seq![TAG_AWARENESS] + encode_awareness(a),
    }
}

/// Decoding of an optional cursor pair; `None` on any malformed input.
pub open spec fn decode_cursors(b: Seq<u8>) -> Option<Option<CursorPairView>> {
    if b.len() < 1 {
        Option::None
    } else if b[0] == 0 {
        if b.len() == 1 {
            Option::Some(Option::None)
        } else {
            Option::None
        }
    } else if b[0] == 1 {
        if b.len() < 9 {
            Option::None
        } else {
            let plen = spec_u64_from_le_bytes(b.subrange(1, 9)) as int;
            if b.len() - 9 < plen {
                Option::None
            } else if b.len() - 9 - plen < 8 {
                Option::None
            } else {
                let slen = spec_u64_from_le_bytes(b.subrange(9 + plen, 17 + plen)) as int;
                if b.len() - 17 - plen != slen {
                    Option::None
                } else {
                    Option::Some(
                        Option::Some(
                            CursorPairView {
                                primary: b.subrange(9, 9 + plen),
                                secondary: b.subrange(17 + plen, b.len() as int),
                            },
                        ),
                    )
                }
            }
        }
    } else {
        Option::None
    }
}

/// Decoding of a presence record; `None` on any malformed input, including a
/// display name that is not valid UTF-8.
pub open spec fn decode_awareness(b: Seq<u8>) -> Option<AwarenessView> {
    if b.len() < 48 {
        Option::None
    } else {
        let nlen = spec_u64_from_le_bytes(b.subrange(40, 48)) as int;
        if b.len() - 48 < nlen {
            Option::None
        } else {
            let nbytes = b.subrange(48, 48 + nlen);
            if !valid_utf8(nbytes) {
                Option::None
            } else {
                match decode_cursors(b.subrange(48 + nlen, b.len() as int)) {
                    Option::None => Option::None,
                    Option::Some(c) => Option::Some(
                        AwarenessView {
                            endpoint_id: b.subrange(0, 32),
                            name: decode_utf8(nbytes),
                            timestamp_ms: spec_u64_from_le_bytes(b.subrange(32, 40)),
                            cursors: c,
                        },
                    ),
                }
            }
        }
    }
}

/// Decoding of a message body; `None` on any malformed input.
pub open spec fn decode_body(b: Seq<u8>) -> Option<GossipMessageView> {
    if b.len() < 1 {
        Option::None
    } else if b[0] == TAG_REQUEST_DATA {
        if b.len() == 1 {
            Option::Some(GossipMessageView::RequestData)
        } else {
            Option::None
        }
    } else if b[0] == TAG_UPDATE {
        Option::Some(GossipMessageView::Update { data: b.skip(1) })
    } else if b[0] == TAG_AWARENESS {
        match decode_awareness(b.skip(1)) {
            Option::None => Option::None,
            Option::Some(a) => Option::Some(GossipMessageView::Awareness(a)),
        }
    } else {
        Option::None
    }
}

/// Decoding of a whole wire envelope: the 16 nonce bytes are skipped unread.
pub open spec fn decode_wire(bytes: Seq<u8>) -> Option<GossipMessageView> {
    if bytes.len() < 16 {
        Option::None
    } else {
        decode_body(bytes.skip(16))
    }
}

proof fn lemma_cursors_round_trip(c: Option<CursorPairView>)
    requires
        cursors_wf(c),
    ensures
        decode_cursors(encode_cursors(c)) == Option::Some(c),
{
    lemma_auto_spec_u64_to_from_le_bytes();
    match c {
        Option::None => {
            assert(encode_cursors(c).len() == 1);
        }
        Option::Some(cp) => {
            let b = encode_cursors(c);
            let pl = spec_u64_to_le_bytes(cp.primary.len() as u64);
            let sl = spec_u64_to_le_bytes(cp.secondary.len() as u64);
            let plen = cp.primary.len() as int;
            let slen = cp.secondary.len() as int;
            assert(pl.len() == 8 && sl.len() == 8);
            assert(b.len() == 17 + plen + slen);
            assert(b[0] == 1);
            assert(b.subrange(1, 9) =~= pl);
            assert(spec_u64_from_le_bytes(pl) as int == plen);
            assert(b.subrange(9, 9 + plen) =~= cp.primary);
            assert(b.subrange(9 + plen, 17 + plen) =~= sl);
            assert(spec_u64_from_le_bytes(sl) as int == slen);
            assert(b.subrange(17 + plen, b.len() as int) =~= cp.secondary);
        }
    }
}

proof fn lemma_awareness_round_trip(a: AwarenessView)
    requires
        awareness_wf(a),
    ensures
        decode_awareness(encode_awareness(a)) == Option::Some(a),
{
    lemma_auto_spec_u64_to_from_le_bytes();
    encode_utf8_valid_utf8(a.name);
    encode_utf8_decode_utf8(a.name);
    lemma_cursors_round_trip(a.cursors);
    let b = encode_awareness(a);
    let ts = spec_u64_to_le_bytes(a.timestamp_ms);
    let nb = encode_utf8(a.name);
    let nl = spec_u64_to_le_bytes(nb.len() as u64);
    let nlen = nb.len() as int;
    let cur = encode_cursors(a.cursors);
    assert(ts.len() == 8 && nl.len() == 8);
    assert(cur.len() >= 1);
    assert(b.len() == 48 + nlen + cur.len());
    assert(b.subrange(0, 32) =~= a.endpoint_id);
    assert(b.subrange(32, 40) =~= ts);
    assert(b.subrange(40, 48) =~= nl);
    assert(spec_u64_from_le_bytes(nl) as int == nlen);
    assert(b.subrange(48, 48 + nlen) =~= nb);
    assert(b.subrange(48 + nlen, b.len() as int) =~= cur);
}

/// Decoding a well-formed message's encoding yields that message back: the
/// body codec is lossless, and the encoding is unambiguous.
pub proof fn lemma_body_round_trip(m: GossipMessageView)
    requires
        msg_wf(m),
    ensures
        decode_body(encode_body(m)) == Option::Some(m),
{
    match m {
        GossipMessageView::RequestData => {
            assert(encode_body(m).len() == 1);
        }
        GossipMessageView::Update { data } => {
            let b = encode_body(m);
            assert(b[0] == TAG_UPDATE);
            assert(b.skip(1) =~= data);
        }
        GossipMessageView::Awareness(a) => {
            lemma_awareness_round_trip(a);
            let b = encode_body(m);
            assert(b[0] == TAG_AWARENESS);
            assert(b.skip(1) =~= encode_awareness(a));
        }
    }
}

/// Builds a `[u8; 32]` identity from a 32-byte slice.
pub fn slice_to_id(b: &[u8]) -> (r: IdBytes)
    requires
        b@.len() == 32,
    ensures
        r@ == b@,
{
    let mut out: IdBytes = [0u8; 32];
    let mut i: usize = 0;
    while i < 32
        invariant
            i <= 32,
            b@.len() == 32,
            forall|j: int| 0 <= j < i ==> out@[j] == b@[j],
        decreases 32 - i,
    {
        out[i] = b[i];
        i += 1;
    }
    proof {
        assert(out@ =~= b@);
    }
    out
}

/// Relies on `String::from_utf8`: it accepts exactly the byte strings that
/// are valid UTF-8 and yields the string of their decoded characters.
#[verifier::external_body]
fn string_from_utf8(b: Vec<u8>) -> (r: Option<String>)
    ensures
        r is Some <==> valid_utf8(b@),
        r matches Option::Some(s) ==> s@ == decode_utf8(b@),
{
    match String::from_utf8(b) {
        Result::Ok(s) => Option::Some(s),
        Result::Err(_) => Option::None,
    }
}

/// Relies on `rand::random`: an arbitrary value of the requested type; no
/// property of the result is assumed.
pub assume_specification<T>[ rand::random::<T> ]() -> (r: T)
    where
        rand::distr::StandardUniform: rand::distr::Distribution<T>,
;

fn encode_awareness_into(out: &mut Vec<u8>, a: &Awareness)
    ensures
        final(out)@ == old(out)@ + encode_awareness(a@),
        awareness_wf(a@),
{
    let mut idv = slice_to_vec(a.endpoint_id.as_slice());
    out.append(&mut idv);
    let mut ts = u64_to_le_bytes(a.timestamp_ms);
    out.append(&mut ts);
    let mut nb = a.name.as_str().as_bytes_vec();
    let nlen: usize = nb.len();
    let mut nl = u64_to_le_bytes(nlen as u64);
    out.append(&mut nl);
    out.append(&mut nb);
    match &a.cursors {
        Option::None => {
            out.push(0);
        }
        Option::Some(cp) => {
            out.push(1);
            let mut pl = u64_to_le_bytes(cp.primary.len() as u64);
            out.append(&mut pl);
            let mut p = slice_to_vec(cp.primary.as_slice());
            out.append(&mut p);
            let mut sl = u64_to_le_bytes(cp.secondary.len() as u64);
            out.append(&mut sl);
            let mut s = slice_to_vec(cp.secondary.as_slice());
            out.append(&mut s);
        }
    }
    proof {
        assert(out@ =~= old(out)@ + encode_awareness(a@));
    }
}

/// Serializes a message behind the given nonce.
pub fn encode_message(nonce: u128, m: &GossipMessage) -> (r: Vec<u8>)
    ensures
        r@ == spec_u128_to_le_bytes(nonce) + encode_body(m@),
        msg_wf(m@),
        decode_wire(r@) == Option::Some(m@),
{
    let mut out: Vec<u8> = u128_to_le_bytes(nonce);
    match m {
        GossipMessage::RequestData => {
            out.push(TAG_REQUEST_DATA);
        }
        GossipMessage::Update { data } => {
            out.push(TAG_UPDATE);
            let mut d = slice_to_vec(data.as_slice());
            out.append(&mut d);
        }
        GossipMessage::Awareness(a) => {
            out.push(TAG_AWARENESS);
            encode_awareness_into(&mut out, a);
        }
    }
    proof {
        assert(out@ =~= spec_u128_to_le_bytes(nonce) + encode_body(m@));
        lemma_body_round_trip(m@);
        assert(out@.skip(16) =~= encode_body(m@));
    }
    out
}

/// Serializes a message behind a fresh random nonce, so that structurally
/// identical payloads are not coalesced by the overlay's own deduplication.
pub fn encode_for_broadcast(m: &GossipMessage) -> (r: Vec<u8>)
    ensures
        decode_wire(r@) == Option::Some(m@),
        msg_wf(m@),
{
    let nonce: u128 = rand::random();
    encode_message(nonce, m)
}

fn decode_cursors_bytes(b: &[u8]) -> (r: Option<Option<CursorPair>>)
    ensures
        match r {
            Option::Some(c) => decode_cursors(b@) == Option::Some(cursors_view(c)),
            Option::None => decode_cursors(b@) is None,
        },
{
    let n: usize = b.len();
    if n < 1 {
        return Option::None;
    }
    let flag = b[0];
    if flag == 0 {
        if n == 1 {
            Option::Some(Option::None)
        } else {
            Option::None
        }
    } else if flag == 1 {
        if n < 9 {
            return Option::None;
        }
        let plen64 = u64_from_le_bytes(slice_subrange(b, 1, 9));
        let rem1: usize = n - 9;
        if plen64 > rem1 as u64 {
            return Option::None;
        }
        let plen: usize = plen64 as usize;
        let rem2: usize = rem1 - plen;
        if rem2 < 8 {
            return Option::None;
        }
        let slen64 = u64_from_le_bytes(slice_subrange(b, 9 + plen, 17 + plen));
        let rem3: usize = rem2 - 8;
        if slen64 != rem3 as u64 {
            return Option::None;
        }
        let primary = slice_to_vec(slice_subrange(b, 9, 9 + plen));
        let secondary = slice_to_vec(slice_subrange(b, 17 + plen, n));
        Option::Some(Option::Some(CursorPair { primary, secondary }))
    } else {
        Option::None
    }
}

fn decode_awareness_bytes(b: &[u8]) -> (r: Option<Awareness>)
    ensures
        match r {
            Option::Some(a) => decode_awareness(b@) == Option::Some(a@),
            Option::None => decode_awareness(b@) is None,
        },
{
    let n: usize = b.len();
    if n < 48 {
        return Option::None;
    }
    let endpoint_id = slice_to_id(slice_subrange(b, 0, 32));
    let timestamp_ms = u64_from_le_bytes(slice_subrange(b, 32, 40));
    let nlen64 = u64_from_le_bytes(slice_subrange(b, 40, 48));
    let rem: usize = n - 48;
    if nlen64 > rem as u64 {
        return Option::None;
    }
    let nlen: usize = nlen64 as usize;
    let nbytes = slice_to_vec(slice_subrange(b, 48, 48 + nlen));
    let name = match string_from_utf8(nbytes) {
        Option::Some(s) => s,
        Option::None => {
            return Option::None;
        }
    };
    let cursors = match decode_cursors_bytes(slice_subrange(b, 48 + nlen, n)) {
        Option::Some(c) => c,
        Option::None => {
            return Option::None;
        }
    };
    Option::Some(Awareness { endpoint_id, name, timestamp_ms, cursors })
}

/// Parses one wire envelope. Returns the message exactly when the bytes are a
/// well-formed encoding; the 16-byte nonce prefix is skipped unread.
pub fn decode_message(bytes: &[u8]) -> (r: Option<GossipMessage>)
    ensures
        match r {
            Option::Some(m) => decode_wire(bytes@) == Option::Some(m@),
            Option::None => decode_wire(bytes@) is None,
        },
{
    let n: usize = bytes.len();
    if n < 17 {
        return Option::None;
    }
    let ghost body = bytes@.skip(16);
    let tag = bytes[16];
    proof {
        assert(body.len() == n - 16);
        assert(body[0] == tag);
    }
    if tag == TAG_REQUEST_DATA {
        if n == 17 {
            Option::Some(GossipMessage::RequestData)
        } else {
            Option::None
        }
    } else if tag == TAG_UPDATE {
        let data = slice_to_vec(slice_subrange(bytes, 17, n));
        proof {
            assert(data@ =~= body.skip(1));
        }
        Option::Some(GossipMessage::Update { data })
    } else if tag == TAG_AWARENESS {
        let a = decode_awareness_bytes(slice_subrange(bytes, 17, n));
        proof {
            assert(bytes@.subrange(17, n as int) =~= body.skip(1));
        }
        match a {
            Option::Some(a) => Option::Some(GossipMessage::Awareness(a)),
            Option::None => Option::None,
        }
    } else {
        Option::None
    }
}

} // verus!
