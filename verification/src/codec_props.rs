//! Properties of the frame codec: the encoder and the byte-at-a-time
//! decoder are inverse, adjacent delimiters between frames are tolerated,
//! escaping is neutral, and corrupt or over-long frames are rejected.

use vstd::prelude::*;

use crate::common::{
    is_extended_protocol, is_known_protocol, is_mngp_protocol, is_crc16_protocol,
    lemma_header_roundtrip_extended, lemma_header_roundtrip_short, lemma_escape_xor,
    spec_crc_len, spec_type_protocol, PROTOCOL_PRIME_API,
};
use crate::usi::{
    fresh_view, hdr_model, rx_run, rx_step, spec_be16, spec_be16_bytes, spec_be32,
    spec_be32_bytes, spec_body, spec_check_crc, spec_cmd0, spec_crc_field, spec_escape,
    spec_escape1, spec_finalize, spec_frame, spec_header_step, spec_raw_frame, InMsgView,
    RxState,
};
use crate::crc::{crc16_spec, crc32_spec, crc8_spec};

verus! {

/// The receiver's recorded tag and payload length agree with what its
/// buffer says.
pub open spec fn fields_ok(v: InMsgView) -> bool {
    match hdr_model(v.buf) {
        None => v.protocol is None,
        Some((p, l)) => v.protocol == Some(p) && v.payload_len == l as nat,
    }
}

/// The receiver mid-frame with buffer `buf`, fields as the buffer
/// determines them (`orig` supplies the length field while no header is
/// readable yet).
pub open spec fn msg_view(buf: Seq<u8>, orig: InMsgView) -> InMsgView {
    match hdr_model(buf) {
        None => InMsgView {
            buf,
            state: RxState::RxMsg,
            protocol: None,
            payload_len: orig.payload_len,
        },
        Some((p, l)) => InMsgView {
            buf,
            state: RxState::RxMsg,
            protocol: Some(p),
            payload_len: l as nat,
        },
    }
}

/// A readable header stays as it is when the buffer grows at the back.
proof fn lemma_hdr_stable(buf: Seq<u8>, ext: Seq<u8>)
    requires
        hdr_model(buf) is Some,
    ensures
        hdr_model(buf + ext) == hdr_model(buf),
{
    assert(buf.len() >= 2);
    assert((buf + ext)[0] == buf[0]);
    assert((buf + ext)[1] == buf[1]);
    if buf.len() >= 3 {
        assert((buf + ext)[2] == buf[2]);
    }
}

/// One plain (unescaped) byte appended mid-frame: the buffer grows by that
/// byte, the receiver stays mid-frame, and the fields stay consistent.
proof fn lemma_step_plain(v: InMsgView, ch: u8)
    requires
        v.state == RxState::RxMsg,
        ch != 0x7E,
        ch != 0x7D,
        fields_ok(v),
    ensures
        ({
            let w = rx_step(v, ch);
            w.buf == v.buf.push(ch) && w.state == RxState::RxMsg && fields_ok(w)
                && (hdr_model(w.buf) is None ==> w.payload_len == v.payload_len)
        }),
{
    lemma_append_keeps_fields(v, ch);
    assert(rx_step(v, ch) == spec_header_step(
        InMsgView { buf: v.buf.push(ch), state: RxState::RxMsg, ..v },
    ));
}

/// Feeding the escape-encoding of `raw` into a mid-frame receiver appends
/// `raw` to the buffer, never completing or failing a frame, and then goes
/// on with the rest of the input.
proof fn lemma_run_escaped(v: InMsgView, raw: Seq<u8>, tail: Seq<u8>)
    requires
        v.state == RxState::RxMsg,
        fields_ok(v),
    ensures
        rx_run(v, spec_escape(raw) + tail) == rx_run(msg_view(v.buf + raw, v), tail),
        fields_ok(msg_view(v.buf + raw, v)),
        hdr_model(v.buf + raw) is None ==> msg_view(v.buf + raw, v).payload_len
            == v.payload_len,
    decreases raw.len(),
{
    if raw.len() == 0 {
        assert(spec_escape(raw) + tail =~= tail);
        assert(v.buf + raw =~= v.buf);
        assert(msg_view(v.buf, v) =~= v);
    } else {
        let b = raw[0];
        let rest = raw.skip(1);
        assert(spec_escape(raw) == spec_escape1(b) + spec_escape(rest));
        if b == 0x7E || b == 0x7D {
            // Escaped byte: an escape mark, then the byte xored.
            let e = (b ^ 0x20) as u8;
            lemma_escape_xor(b);
            let s = spec_escape(raw) + tail;
            assert(s.len() >= 2);
            assert(s[0] == 0x7D);
            assert(s[1] == e);
            let v1 = rx_step(v, 0x7D);
            assert(v1 == InMsgView { state: RxState::RxEsc, ..v });
            assert(rx_run(v, s) == rx_run(v1, s.skip(1)));
            assert(s.skip(1)[0] == e);
            let v2 = rx_step(v1, e);
            let pushed = InMsgView { buf: v.buf.push(b), state: RxState::RxMsg, ..v };
            assert(e ^ 0x20 == b);
            assert(v2 == spec_header_step(pushed));
            // The same landing point as a plain append of b.
            let vp = InMsgView { buf: v.buf, state: RxState::RxMsg, ..v };
            assert(vp =~= v);
            lemma_append_keeps_fields(v, b);
            assert(v2.state == RxState::RxMsg && v2.buf == v.buf.push(b) && fields_ok(v2));
            assert(rx_run(v1, s.skip(1)) == rx_run(v2, s.skip(1).skip(1)));
            assert(s.skip(1).skip(1) =~= spec_escape(rest) + tail);
            lemma_run_escaped(v2, rest, tail);
            assert(v2.buf + rest =~= v.buf + raw);
            lemma_msg_view_orig(v.buf + raw, v2, v);
        } else {
            let s = spec_escape(raw) + tail;
            assert(s.len() >= 1);
            assert(s[0] == b);
            lemma_step_plain(v, b);
            let v2 = rx_step(v, b);
            assert(rx_run(v, s) == rx_run(v2, s.skip(1)));
            assert(s.skip(1) =~= spec_escape(rest) + tail);
            lemma_run_escaped(v2, rest, tail);
            assert(v2.buf + rest =~= v.buf + raw);
            lemma_msg_view_orig(v.buf + raw, v2, v);
        }
    }
}

/// `msg_view` ignores which mid-frame receiver it is built from, except
/// for the length field while no header is readable; two receivers with
/// the same length field there give the same view.
proof fn lemma_msg_view_orig(buf: Seq<u8>, a: InMsgView, b: InMsgView)
    requires
        hdr_model(buf) is None ==> a.payload_len == b.payload_len,
    ensures
        msg_view(buf, a) == msg_view(buf, b),
{
}

/// Appending one unescaped byte mid-frame keeps the recorded fields
/// consistent with the buffer, whether the byte arrived plain or escaped.
proof fn lemma_append_keeps_fields(v: InMsgView, b: u8)
    requires
        v.state == RxState::RxMsg,
        fields_ok(v),
    ensures
        ({
            let w = spec_header_step(
                InMsgView { buf: v.buf.push(b), state: RxState::RxMsg, ..v },
            );
            w.buf == v.buf.push(b) && w.state == RxState::RxMsg && fields_ok(w)
                && (hdr_model(w.buf) is None ==> w.payload_len == v.payload_len)
        }),
{
    let pushed = InMsgView { buf: v.buf.push(b), state: RxState::RxMsg, ..v };
    let w = spec_header_step(pushed);
    match hdr_model(v.buf) {
        Some((p, l)) => {
            lemma_hdr_stable(v.buf, seq![b]);
            assert(v.buf + seq![b] =~= v.buf.push(b));
            assert(hdr_model(pushed.buf) == Some((p, l)));
            assert(w == pushed);
        },
        None => {
            assert(v.protocol is None);
        },
    }
}

/// Decoding the delimited, escaped image of a raw frame from a fresh
/// receiver accumulates exactly the raw bytes, reads the header fields
/// from them, completes the frame exactly when the CRC verifies, and
/// leaves whatever follows the closing delimiter unconsumed.
pub proof fn lemma_decode_frame(raw: Seq<u8>, tail: Seq<u8>)
    requires
        raw.len() >= 1,
    ensures
        ({
            let w = msg_view(raw, fresh_view());
            let r = rx_run(fresh_view(), seq![0x7Eu8] + spec_escape(raw) + seq![0x7Eu8] + tail);
            r.1 == tail && r.0 == InMsgView {
                state: if spec_check_crc(w) {
                    RxState::RxDone
                } else {
                    RxState::RxError
                },
                ..w
            }
        }),
{
    let s = seq![0x7Eu8] + spec_escape(raw) + seq![0x7Eu8] + tail;
    assert(s[0] == 0x7E);
    let v0 = fresh_view();
    let v1 = rx_step(v0, 0x7E);
    assert(v1 == InMsgView { state: RxState::RxMsg, ..v0 });
    assert(rx_run(v0, s) == rx_run(v1, s.skip(1)));
    assert(s.skip(1) =~= spec_escape(raw) + (seq![0x7Eu8] + tail));
    assert(fields_ok(v1));
    lemma_run_escaped(v1, raw, seq![0x7Eu8] + tail);
    assert(v1.buf + raw =~= raw);
    let w = msg_view(raw, v1);
    lemma_msg_view_orig(raw, v1, fresh_view());
    assert(w == msg_view(raw, fresh_view()));
    assert(rx_run(v0, s) == rx_run(w, seq![0x7Eu8] + tail));
    assert(w.buf.len() >= 1);
    assert((seq![0x7Eu8] + tail)[0] == 0x7E);
    let v2 = rx_step(w, 0x7E);
    if spec_check_crc(w) {
        assert(v2 == InMsgView { state: RxState::RxDone, ..w });
    } else {
        assert(v2 == InMsgView { state: RxState::RxError, ..w });
    }
    assert(rx_run(w, seq![0x7Eu8] + tail) == (v2, (seq![0x7Eu8] + tail).skip(1)));
    assert((seq![0x7Eu8] + tail).skip(1) =~= tail);
}

/// The bounds under which a payload round-trips exactly: any known tag up
/// to the 10-bit length, PRIME API up to the full 13-bit budget of the
/// encoder; the three extended tags need a 5-bit command byte.
pub open spec fn round_trip_domain(p: u8, data: Seq<u8>) -> bool {
    &&& is_known_protocol(p)
    &&& 1 <= data.len()
    &&& (data.len() <= 1023 || (p == PROTOCOL_PRIME_API && data.len() <= 4096))
    &&& (is_extended_protocol(p) ==> data[0] < 0x20)
}

/// Every known tag is a 6-bit value.
proof fn lemma_known_tag_small(p: u8)
    requires
        is_known_protocol(p),
    ensures
        p < 0x40,
{
}

/// The header of an encoded raw frame reads back its tag and length.
proof fn lemma_raw_frame_header(p: u8, data: Seq<u8>)
    requires
        round_trip_domain(p, data),
    ensures
        hdr_model(spec_raw_frame(p, data)) == Some((p, data.len() as u16)),
        spec_raw_frame(p, data).len() == 2 + data.len() + spec_crc_len(p),
        spec_raw_frame(p, data).subrange(0, 2 + data.len() as int) == spec_body(p, data),
{
    let len = data.len() as u16;
    let body = spec_body(p, data);
    let raw = spec_raw_frame(p, data);
    let cf = spec_crc_field(p, body);
    lemma_known_tag_small(p);
    assert(body.len() == 2 + data.len());
    assert(spec_crc_len(p) == cf.len());
    assert(raw.len() == body.len() + cf.len());
    assert(raw[0] == body[0]);
    assert(raw[1] == body[1]);
    assert(raw[2] == body[2]);
    assert(raw.subrange(0, 2 + data.len() as int) =~= body);
    if is_extended_protocol(p) {
        lemma_header_roundtrip_extended(len, p, data[0]);
        assert(raw[2] == spec_cmd0(p, data));
        assert(spec_cmd0(p, data) == crate::common::spec_len_ex(len) | data[0]);
        assert(spec_type_protocol(raw[1]) == p);
        assert(hdr_model(raw) == Some((p, len)));
    } else {
        assert(data.len() <= 1023);
        lemma_header_roundtrip_short(len, p);
        assert(spec_type_protocol(raw[1]) == p);
        assert(hdr_model(raw) == Some((p, len)));
    }
}

/// Reading back the big-endian bytes of a 32-bit word gives the word.
proof fn lemma_be32_roundtrip(c: u32)
    by (bit_vector)
    ensures
        ((((c >> 24) & 0xFF) as u8) as u32) << 24 | ((((c >> 16) & 0xFF) as u8) as u32) << 16
            | ((((c >> 8) & 0xFF) as u8) as u32) << 8 | (((c & 0xFF) as u8) as u32) == c,
{
}

/// Reading back the big-endian bytes of a 16-bit word gives the word.
proof fn lemma_be16_roundtrip(c: u16)
    by (bit_vector)
    ensures
        ((((c >> 8) & 0xFF) as u8) as u16) << 8 | (((c & 0xFF) as u8) as u16) == c,
{
}

/// Two different byte quadruples read as two different 32-bit words.
proof fn lemma_be32_injective(a0: u8, a1: u8, a2: u8, a3: u8, b0: u8, b1: u8, b2: u8, b3: u8)
    by (bit_vector)
    requires
        ((a0 as u32) << 24 | (a1 as u32) << 16 | (a2 as u32) << 8 | (a3 as u32)) == (
        (b0 as u32) << 24 | (b1 as u32) << 16 | (b2 as u32) << 8 | (b3 as u32)),
    ensures
        a0 == b0 && a1 == b1 && a2 == b2 && a3 == b3,
{
}

/// Two different byte pairs read as two different 16-bit words.
proof fn lemma_be16_injective(a0: u8, a1: u8, b0: u8, b1: u8)
    by (bit_vector)
    requires
        ((a0 as u16) << 8 | (a1 as u16)) == ((b0 as u16) << 8 | (b1 as u16)),
    ensures
        a0 == b0 && a1 == b1,
{
}

/// The CRC of an encoded raw frame verifies.
proof fn lemma_raw_frame_crc_ok(p: u8, data: Seq<u8>)
    requires
        round_trip_domain(p, data),
    ensures
        spec_check_crc(msg_view(spec_raw_frame(p, data), fresh_view())),
{
    let body = spec_body(p, data);
    let raw = spec_raw_frame(p, data);
    let cf = spec_crc_field(p, body);
    lemma_raw_frame_header(p, data);
    let w = msg_view(raw, fresh_view());
    assert(w.protocol == Some(p) && w.payload_len == data.len());
    let n = raw.len() as int;
    let d = raw.subrange(0, w.payload_len + 2 as int);
    assert(d == body);
    if is_mngp_protocol(p) {
        let c = crc32_spec(body);
        assert(cf == spec_be32_bytes(c));
        assert(raw[n - 4] == cf[0] && raw[n - 3] == cf[1] && raw[n - 2] == cf[2] && raw[n - 1]
            == cf[3]);
        lemma_be32_roundtrip(c);
        assert(spec_be32(cf[0], cf[1], cf[2], cf[3]) == c);
    } else if is_crc16_protocol(p) {
        let c = crc16_spec(body);
        assert(cf == spec_be16_bytes(c));
        assert(raw[n - 2] == cf[0] && raw[n - 1] == cf[1]);
        lemma_be16_roundtrip(c);
        assert(spec_be16(cf[0], cf[1]) == c);
    } else {
        assert(p == PROTOCOL_PRIME_API);
        let c = crc8_spec(body);
        assert(cf == seq![c]);
        assert(raw[n - 1] == c);
    }
}

/// Round trip, with the input going on after the frame: decoding the
/// encoding of `(p, data)` completes one frame, reads back the tag and
/// the length, strips to exactly `data` — the masked command byte
/// included — and leaves the trailing input unconsumed.
pub proof fn lemma_round_trip_with_tail(p: u8, data: Seq<u8>, tail: Seq<u8>)
    requires
        round_trip_domain(p, data),
    ensures
        ({
            let r = rx_run(fresh_view(), spec_frame(p, data) + tail);
            r.0.state == RxState::RxDone && r.0.protocol == Some(p) && r.0.payload_len
                == data.len() && spec_finalize(r.0).buf == data && r.1 == tail
        }),
{
    let len = data.len() as u16;
    let body = spec_body(p, data);
    let raw = spec_raw_frame(p, data);
    lemma_raw_frame_header(p, data);
    lemma_raw_frame_crc_ok(p, data);
    assert(spec_frame(p, data) + tail =~= seq![0x7Eu8] + spec_escape(raw) + seq![0x7Eu8] + tail);
    lemma_decode_frame(raw, tail);
    let w = msg_view(raw, fresh_view());
    let r = rx_run(fresh_view(), spec_frame(p, data) + tail);
    assert(r.0 == InMsgView { state: RxState::RxDone, ..w });
    // Stripping the header and CRC leaves exactly the payload.
    let s = r.0.buf.subrange(2, 2 + r.0.payload_len as int);
    assert(s =~= body.skip(2)) by {
        assert(raw.subrange(2, 2 + data.len() as int) =~= body.subrange(
            2,
            body.len() as int,
        ));
        assert(body.subrange(2, body.len() as int) =~= body.skip(2));
    }
    assert(body.skip(2) =~= seq![spec_cmd0(p, data)] + data.skip(1));
    lemma_known_tag_small(p);
    if is_extended_protocol(p) {
        lemma_header_roundtrip_extended(len, p, data[0]);
    }
    if p == PROTOCOL_PRIME_API {
        assert(s[0] == spec_cmd0(p, data));
        assert(spec_cmd0(p, data) == crate::common::spec_len_ex(len) | data[0]);
        assert(crate::common::spec_cmd_protocol(s[0]) == data[0]);
        assert(forall|j: int| 1 <= j < data.len() ==> s[j] == data[j]);
        assert(spec_finalize(r.0).buf =~= data);
    } else if is_extended_protocol(p) {
        // ADP and coordinator frames are not unmasked; their short length
        // keeps the extension bits clear, so the command byte is verbatim.
        assert(data.len() <= 1023);
        assert(s[0] == spec_cmd0(p, data));
        assert(spec_cmd0(p, data) == crate::common::spec_len_ex(len) | data[0]);
        assert(s[0] == data[0]);
        assert(spec_finalize(r.0).buf =~= data);
    } else {
        assert(s[0] == data[0]);
        assert(spec_finalize(r.0).buf =~= data);
    }
}

/// Round trip: decoding the encoding of `(p, data)` consumes the whole
/// input, completes one frame, reads back the tag and the length, and
/// after stripping header and CRC the buffer holds exactly `data` — the
/// masked command byte included.
pub proof fn lemma_encode_decode_round_trip(p: u8, data: Seq<u8>)
    requires
        round_trip_domain(p, data),
    ensures
        ({
            let r = rx_run(fresh_view(), spec_frame(p, data));
            r.0.state == RxState::RxDone && r.0.protocol == Some(p) && r.0.payload_len
                == data.len() && spec_finalize(r.0).buf == data && r.1.len() == 0
        }),
{
    lemma_round_trip_with_tail(p, data, Seq::empty());
    assert(spec_frame(p, data) + Seq::<u8>::empty() =~= spec_frame(p, data));
}

/// Frames arriving back to back, with no gap, decode in order: the first
/// completes with its own payload and leaves the second frame's bytes
/// unconsumed for the next (reset) receiver.
pub proof fn lemma_frames_decode_in_order(p1: u8, d1: Seq<u8>, p2: u8, d2: Seq<u8>)
    requires
        round_trip_domain(p1, d1),
        round_trip_domain(p2, d2),
    ensures
        ({
            let r1 = rx_run(fresh_view(), spec_frame(p1, d1) + spec_frame(p2, d2));
            let r2 = rx_run(fresh_view(), r1.1);
            &&& r1.0.state == RxState::RxDone && spec_finalize(r1.0).buf == d1
            &&& r2.0.state == RxState::RxDone && spec_finalize(r2.0).buf == d2
            &&& r2.1.len() == 0
        }),
{
    lemma_round_trip_with_tail(p1, d1, spec_frame(p2, d2));
    lemma_encode_decode_round_trip(p2, d2);
}

/// Two adjacent delimiters between frames are tolerated: the decoder
/// treats the second opening delimiter as the first.
pub proof fn lemma_double_delimiter(s: Seq<u8>)
    ensures
        rx_run(fresh_view(), seq![0x7Eu8, 0x7Eu8] + s) == rx_run(
            fresh_view(),
            seq![0x7Eu8] + s,
        ),
{
    let v0 = fresh_view();
    let v1 = rx_step(v0, 0x7E);
    let a = seq![0x7Eu8, 0x7Eu8] + s;
    let b = seq![0x7Eu8] + s;
    assert(a[0] == 0x7E && b[0] == 0x7E);
    assert(v1.state == RxState::RxMsg);
    assert(rx_run(v0, a) == rx_run(v1, a.skip(1)));
    assert(rx_run(v0, b) == rx_run(v1, b.skip(1)));
    assert(b.skip(1) =~= s);
    assert(a.skip(1) =~= seq![0x7Eu8] + s);
    assert(a.skip(1)[0] == 0x7E);
    assert(rx_step(v1, 0x7E) == v1);
    assert(rx_run(v1, a.skip(1)) == rx_run(v1, a.skip(1).skip(1)));
    assert(a.skip(1).skip(1) =~= s);
}

/// Escape neutrality: a payload with a delimiter or escape byte inserted
/// at any interior position still round-trips intact.
pub proof fn lemma_escape_neutral_insert(p: u8, data: Seq<u8>, i: int, b: u8)
    requires
        b == 0x7E || b == 0x7D,
        0 <= i <= data.len(),
        is_extended_protocol(p) ==> 1 <= i,
        is_known_protocol(p),
        1 <= data.len(),
        (data.len() + 1 <= 1023 || (p == PROTOCOL_PRIME_API && data.len() + 1 <= 4096)),
        is_extended_protocol(p) ==> data[0] < 0x20,
    ensures
        ({
            let d2 = data.subrange(0, i) + seq![b] + data.subrange(i, data.len() as int);
            let r = rx_run(fresh_view(), spec_frame(p, d2));
            r.0.state == RxState::RxDone && spec_finalize(r.0).buf == d2
        }),
{
    let d2 = data.subrange(0, i) + seq![b] + data.subrange(i, data.len() as int);
    assert(d2.len() == data.len() + 1);
    if is_extended_protocol(p) {
        assert(d2[0] == data[0]);
    }
    lemma_encode_decode_round_trip(p, d2);
}

/// A frame whose trailing CRC bytes were corrupted in any one position is
/// never completed: the decoder moves to the error state.
pub proof fn lemma_crc_corrupted_never_done(p: u8, data: Seq<u8>, i: int, b: u8)
    requires
        round_trip_domain(p, data),
        2 + data.len() <= i < spec_raw_frame(p, data).len(),
        b != spec_raw_frame(p, data)[i],
    ensures
        ({
            let raw2 = spec_raw_frame(p, data).update(i, b);
            let r = rx_run(fresh_view(), seq![0x7Eu8] + spec_escape(raw2) + seq![0x7Eu8]);
            r.0.state == RxState::RxError && r.1.len() == 0
        }),
{
    let body = spec_body(p, data);
    let raw = spec_raw_frame(p, data);
    let cf = spec_crc_field(p, body);
    let raw2 = raw.update(i, b);
    lemma_raw_frame_header(p, data);
    assert(raw2.len() == raw.len());
    assert(raw2[0] == raw[0] && raw2[1] == raw[1] && raw2[2] == raw[2]);
    assert(hdr_model(raw2) == Some((p, data.len() as u16)));
    lemma_decode_frame(raw2, Seq::empty());
    assert(seq![0x7Eu8] + spec_escape(raw2) + seq![0x7Eu8] + Seq::<u8>::empty() =~= seq![0x7Eu8]
        + spec_escape(raw2) + seq![0x7Eu8]);
    let w = msg_view(raw2, fresh_view());
    assert(w.protocol == Some(p) && w.payload_len == data.len());
    let n = raw.len() as int;
    // The corrupted byte sits in the CRC field; the covered prefix and so
    // the computed CRC are unchanged, while the stored CRC now differs.
    assert(raw2.subrange(0, 2 + data.len() as int) =~= body);
    if is_mngp_protocol(p) {
        let c = crc32_spec(body);
        lemma_be32_roundtrip(c);
        assert(cf == spec_be32_bytes(c));
        assert(raw[n - 4] == cf[0] && raw[n - 3] == cf[1] && raw[n - 2] == cf[2] && raw[n - 1]
            == cf[3]);
        assert(spec_be32(cf[0], cf[1], cf[2], cf[3]) == c);
        if spec_be32(raw2[n - 4], raw2[n - 3], raw2[n - 2], raw2[n - 1]) == c {
            lemma_be32_injective(
                raw2[n - 4],
                raw2[n - 3],
                raw2[n - 2],
                raw2[n - 1],
                cf[0],
                cf[1],
                cf[2],
                cf[3],
            );
            assert(raw2[i] == raw[i]);
            assert(false);
        }
        assert(!spec_check_crc(w));
    } else if is_crc16_protocol(p) {
        let c = crc16_spec(body);
        lemma_be16_roundtrip(c);
        assert(cf == spec_be16_bytes(c));
        assert(raw[n - 2] == cf[0] && raw[n - 1] == cf[1]);
        assert(spec_be16(cf[0], cf[1]) == c);
        if spec_be16(raw2[n - 2], raw2[n - 1]) == c {
            lemma_be16_injective(raw2[n - 2], raw2[n - 1], cf[0], cf[1]);
            assert(raw2[i] == raw[i]);
            assert(false);
        }
        assert(!spec_check_crc(w));
    } else {
        assert(p == PROTOCOL_PRIME_API);
        let c = crc8_spec(body);
        assert(cf == seq![c]);
        assert(raw[n - 1] == c);
        assert(i == n - 1);
        assert(raw2[n - 1] != c);
        assert(!spec_check_crc(w));
    }
}

/// A step that completes a frame has verified its CRC, so the buffer
/// covers the header and the announced payload: stripping them afterwards
/// leaves exactly `payload_len` bytes.
pub proof fn lemma_done_covers_payload(v: InMsgView, ch: u8)
    requires
        v.state != RxState::RxDone,
        rx_step(v, ch).state == RxState::RxDone,
    ensures
        rx_step(v, ch).payload_len + 2 <= rx_step(v, ch).buf.len(),
        spec_finalize(rx_step(v, ch)).buf.len() == rx_step(v, ch).payload_len,
{
}

/// A frame whose length field exceeds the bytes actually received fails
/// at the closing delimiter: the CRC check cannot cover the claimed
/// payload.
pub proof fn lemma_length_overrun_errors(v: InMsgView)
    requires
        v.state == RxState::RxMsg,
        v.buf.len() >= 1,
        v.payload_len + 2 > v.buf.len(),
    ensures
        rx_step(v, 0x7E).state == RxState::RxError,
{
    assert(!spec_check_crc(v));
}

} // verus!
