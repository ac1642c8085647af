//! The USI frame codec: byte-at-a-time deframing with escape decoding and
//! CRC verification, and encoding of outbound frames.
//!
//! A frame on the wire is `0x7E, HEADER, PAYLOAD, CRC, 0x7E`, where every
//! delimiter or escape byte between the delimiters is escaped as
//! `0x7D, byte ^ 0x20`.  The header carries a 10-bit payload length and the
//! 6-bit sub-protocol tag; the three extended protocols carry a 13-bit
//! length whose top bits share a byte with the 5-bit command.

use vstd::prelude::*;

use std::collections::VecDeque;

use crate::common::{
    cmd_protocol, get_protocol_len, get_protocol_xlen, is_crc16_protocol, is_extended_protocol,
    is_known_protocol, is_mngp_protocol, len_ex_protocol, len_hi_protocol, len_lo_protocol,
    spec_cmd_protocol, spec_crc_len, spec_len_ex, spec_len_hi, spec_len_lo, spec_protocol_len,
    spec_protocol_xlen, spec_type_protocol, type_protocol,
    MAX_PAYLOAD_LEN, PROTOCOL_ADP_G3, PROTOCOL_COORD_G3, PROTOCOL_DELIMITER, PROTOCOL_ESC,
    PROTOCOL_PRIME_API,
};
use crate::crc::{
    crc16_spec, crc32_spec, crc8_spec, eval_crc16, eval_crc32, eval_crc8,
};

verus! {

/// Big-endian reading of four bytes.
pub open spec fn spec_be32(b0: u8, b1: u8, b2: u8, b3: u8) -> u32 {
    ((b0 as u32) << 24) | ((b1 as u32) << 16) | ((b2 as u32) << 8) | (b3 as u32)
}

/// Big-endian reading of two bytes.
pub open spec fn spec_be16(b0: u8, b1: u8) -> u16 {
    ((b0 as u16) << 8) | (b1 as u16)
}

/// The four big-endian bytes of a 32-bit word.
pub open spec fn spec_be32_bytes(c: u32) -> Seq<u8> {
    seq![
        ((c >> 24) & 0xFF) as u8,
        ((c >> 16) & 0xFF) as u8,
        ((c >> 8) & 0xFF) as u8,
        (c & 0xFF) as u8,
    ]
}

/// The two big-endian bytes of a 16-bit word.
pub open spec fn spec_be16_bytes(c: u16) -> Seq<u8> {
    seq![((c >> 8) & 0xFF) as u8, (c & 0xFF) as u8]
}

/// Events flowing between the port, the heartbeat source and the manager.
#[derive(Debug)]
pub enum Message {
    UsiIn(InMessage),
    UsiOut(OutMessage),
    HeartBeat(u64),
    SystemStartup,
}

/// A consumer of decoded link events.
pub trait MessageHandler {
    fn process(&mut self, msg: Message) -> bool;
}

/// A sink for outbound frames.
pub trait UsiSender {
    fn send(&mut self, cmd: &OutMessage) -> Result<(), String>;
}

/// Receive-side framing states.
#[derive(Clone, Copy, Debug, PartialEq, Eq, Structural)]
pub enum RxState {
    /// Waiting for an opening delimiter.
    RxIdle,
    /// Accumulating frame bytes.
    RxMsg,
    /// The last byte was an escape.
    RxEsc,
    /// The current frame is broken; waiting to be reset.
    RxError,
    /// A frame was received and its CRC verified.
    RxDone,
}

/// An outbound frame: a sub-protocol tag and a payload whose first byte is
/// the command.
#[derive(Debug)]
pub struct OutMessage {
    protocol: u8,
    data: Vec<u8>,
}

/// The mathematical content of an `OutMessage`.
#[verifier::ext_equal]
pub struct OutMsgView {
    pub protocol: u8,
    pub data: Seq<u8>,
}

impl View for OutMessage {
    type V = OutMsgView;

    closed spec fn view(&self) -> OutMsgView {
        OutMsgView { protocol: self.protocol, data: self.data@ }
    }
}

/// The command/extension byte the encoder emits in payload position 0.
pub open spec fn spec_cmd0(p: u8, data: Seq<u8>) -> u8 {
    if is_extended_protocol(p) {
        spec_len_ex(data.len() as u16) | spec_cmd_protocol(data[0])
    } else {
        data[0]
    }
}

/// Header and payload of an encoded frame, before the CRC: two header
/// bytes, then the (possibly masked) command byte, then the rest of the
/// payload.
pub open spec fn spec_body(p: u8, data: Seq<u8>) -> Seq<u8> {
    let len = data.len() as u16;
    let head = seq![spec_len_hi(len), spec_len_lo(len) | spec_type_protocol(p)];
    if data.len() == 0 {
        head
    } else {
        head + seq![spec_cmd0(p, data)] + data.skip(1)
    }
}

/// The CRC field appended to a frame body, selected by the tag.  Unknown
/// tags fall back to the 1-byte CRC.
pub open spec fn spec_crc_field(p: u8, body: Seq<u8>) -> Seq<u8> {
    if is_mngp_protocol(p) {
        spec_be32_bytes(crc32_spec(body))
    } else if is_crc16_protocol(p) {
        spec_be16_bytes(crc16_spec(body))
    } else {
        seq![crc8_spec(body)]
    }
}

/// The whole unescaped frame: body plus CRC.
pub open spec fn spec_raw_frame(p: u8, data: Seq<u8>) -> Seq<u8> {
    spec_body(p, data) + spec_crc_field(p, spec_body(p, data))
}

/// Escaping of one byte.
pub open spec fn spec_escape1(b: u8) -> Seq<u8> {
    if b == PROTOCOL_DELIMITER || b == PROTOCOL_ESC {
        seq![PROTOCOL_ESC, b ^ 0x20]
    } else {
        seq![b]
    }
}

/// Escaping of a byte sequence.
pub open spec fn spec_escape(s: Seq<u8>) -> Seq<u8>
    decreases s.len(),
{
    if s.len() == 0 {
        Seq::empty()
    } else {
        spec_escape1(s[0]) + spec_escape(s.skip(1))
    }
}

/// The encoded wire image of `(p, data)`: delimiter, escaped raw frame,
/// delimiter.
pub open spec fn spec_frame(p: u8, data: Seq<u8>) -> Seq<u8> {
    seq![PROTOCOL_DELIMITER] + spec_escape(spec_raw_frame(p, data)) + seq![PROTOCOL_DELIMITER]
}

impl OutMessage {
    pub fn new(protocol: u8, data: &[u8]) -> (r: OutMessage)
        ensures
            r@.protocol == protocol,
            r@.data == data@,
    {
        let mut v: Vec<u8> = Vec::new();
        let mut i: usize = 0;
        while i < data.len()
            invariant
                i <= data@.len(),
                v@ == data@.take(i as int),
            decreases data@.len() - i,
        {
            v.push(data[i]);
            proof {
                assert(v@ =~= data@.take(i + 1));
            }
            i = i + 1;
        }
        proof {
            assert(v@ =~= data@);
        }
        OutMessage { protocol, data: v }
    }

    /// Encode this message for the wire.  Refused (with `None`) when the
    /// payload is over `MAX_PAYLOAD_LEN` bytes; otherwise the bytes are
    /// exactly the delimited, escaped frame image.
    pub fn to_usi(&self) -> (r: Option<Vec<u8>>)
        ensures
            self@.data.len() > MAX_PAYLOAD_LEN ==> r is None,
            self@.data.len() <= MAX_PAYLOAD_LEN ==> (r matches Some(v) && v@ == spec_frame(
                self@.protocol,
                self@.data,
            )),
    {
        if self.data.len() > MAX_PAYLOAD_LEN {
            return None;
        }
        let len16: u16 = self.data.len() as u16;
        let mut v: Vec<u8> = Vec::new();
        v.push(len_hi_protocol(len16));
        v.push(len_lo_protocol(len16) | type_protocol(self.protocol));
        if self.data.len() > 0 {
            let cmd = self.data[0];
            if self.protocol == PROTOCOL_PRIME_API || self.protocol == PROTOCOL_ADP_G3
                || self.protocol == PROTOCOL_COORD_G3 {
                v.push(len_ex_protocol(len16) | cmd_protocol(cmd));
            } else {
                v.push(cmd);
            }
            let mut i: usize = 1;
            while i < self.data.len()
                invariant
                    1 <= i <= self.data@.len(),
                    self.data@.len() <= MAX_PAYLOAD_LEN,
                    v@ == spec_body(self@.protocol, self@.data).take(2 + i as int),
                    spec_body(self@.protocol, self@.data).len() == 2 + self.data@.len(),
                decreases self.data@.len() - i,
            {
                v.push(self.data[i]);
                proof {
                    assert(v@ =~= spec_body(self@.protocol, self@.data).take(2 + (i + 1)));
                }
                i = i + 1;
            }
        }
        proof {
            assert(v@ =~= spec_body(self@.protocol, self@.data));
        }
        // Append the CRC, selected by the tag.
        let n = v.len();
        if self.protocol <= 0x07 {
            let c = eval_crc32(&v, n);
            proof {
                assert(v@.take(n as int) =~= v@);
                lemma_be_bytes_fit32(c);
            }
            v.push(((c >> 24) & 0xFF) as u8);
            v.push(((c >> 16) & 0xFF) as u8);
            v.push(((c >> 8) & 0xFF) as u8);
            v.push((c & 0xFF) as u8);
        } else if self.protocol == PROTOCOL_PRIME_API {
            let c = eval_crc8(&v, n);
            proof {
                assert(v@.take(n as int) =~= v@);
            }
            v.push(c);
        } else if is_crc16_tag(self.protocol) {
            let c = eval_crc16(&v, n);
            proof {
                assert(v@.take(n as int) =~= v@);
                lemma_be_bytes_fit16(c);
            }
            v.push(((c >> 8) & 0xFF) as u8);
            v.push((c & 0xFF) as u8);
        } else {
            let c = eval_crc8(&v, n);
            proof {
                assert(v@.take(n as int) =~= v@);
            }
            v.push(c);
        }
        proof {
            assert(v@ =~= spec_raw_frame(self@.protocol, self@.data));
        }
        let ghost raw = spec_raw_frame(self@.protocol, self@.data);
        // Escape-encode and delimit.
        let mut r: Vec<u8> = Vec::new();
        r.push(PROTOCOL_DELIMITER);
        let mut i: usize = 0;
        while i < v.len()
            invariant
                i <= v@.len(),
                v@ == raw,
                r@ == seq![PROTOCOL_DELIMITER] + spec_escape(raw.take(i as int)),
            decreases v@.len() - i,
        {
            let ch = v[i];
            if ch == PROTOCOL_DELIMITER || ch == PROTOCOL_ESC {
                r.push(PROTOCOL_ESC);
                r.push(ch ^ 0x20);
            } else {
                r.push(ch);
            }
            proof {
                assert(raw.take(i as int) =~= raw.take(i + 1).drop_last());
                lemma_escape_push(raw.take(i + 1));
                assert(raw.take(i + 1).last() == ch);
                assert(r@ =~= seq![PROTOCOL_DELIMITER] + spec_escape(raw.take(i + 1)));
            }
            i = i + 1;
        }
        proof {
            assert(raw.take(v@.len() as int) =~= raw);
        }
        r.push(PROTOCOL_DELIMITER);
        proof {
            assert(r@ =~= spec_frame(self@.protocol, self@.data));
        }
        Some(r)
    }
}

/// Runtime test matching `is_crc16_protocol`.
fn is_crc16_tag(p: u8) -> (r: bool)
    ensures
        r == is_crc16_protocol(p),
{
    p == crate::common::PROTOCOL_SNIF_PRIME || p == crate::common::PROTOCOL_SNIF_G3
        || p == crate::common::PROTOCOL_MAC_G3 || p == PROTOCOL_ADP_G3
        || p == PROTOCOL_COORD_G3 || p == crate::common::PROTOCOL_PRIME_O_UDP
}

/// Escaping distributes over appending one byte.
pub proof fn lemma_escape_push(s: Seq<u8>)
    requires
        s.len() >= 1,
    ensures
        spec_escape(s) == spec_escape(s.drop_last()) + spec_escape1(s.last()),
    decreases s.len(),
{
    if s.len() == 1 {
        assert(s.drop_last() =~= Seq::<u8>::empty());
        assert(s.skip(1) =~= Seq::<u8>::empty());
        assert(spec_escape(s) =~= spec_escape1(s[0]));
        assert(spec_escape(s.drop_last()) + spec_escape1(s.last()) =~= spec_escape1(s[0]));
    } else {
        lemma_escape_push(s.skip(1));
        assert(s.skip(1).drop_last() =~= s.drop_last().skip(1));
        assert(s.skip(1).last() == s.last());
        assert(spec_escape(s) == spec_escape1(s[0]) + spec_escape(s.skip(1)));
        assert(spec_escape(s.drop_last()) == spec_escape1(s[0]) + spec_escape(
            s.drop_last().skip(1),
        ));
        assert(spec_escape(s) =~= spec_escape(s.drop_last()) + spec_escape1(s.last()));
    }
}

/// Fitting bounds for the big-endian bytes of a 32-bit word.
pub proof fn lemma_be_bytes_fit32(c: u32)
    by (bit_vector)
    ensures
        ((c >> 24) & 0xFF) < 256,
        ((c >> 16) & 0xFF) < 256,
        ((c >> 8) & 0xFF) < 256,
        (c & 0xFF) < 256,
{
}

/// Fitting bounds for the big-endian bytes of a 16-bit word.
pub proof fn lemma_be_bytes_fit16(c: u16)
    by (bit_vector)
    ensures
        ((c >> 8) & 0xFF) < 256,
        (c & 0xFF) < 256,
{
}

/// An inbound frame under construction or delivered.
#[derive(Clone, Debug)]
pub struct InMessage {
    pub buf: Vec<u8>,
    pub rx_state: RxState,
    pub protocol_type: Option<u8>,
    pub payload_len: usize,
}

/// The mathematical content of an `InMessage`.
#[verifier::ext_equal]
pub struct InMsgView {
    pub buf: Seq<u8>,
    pub state: RxState,
    pub protocol: Option<u8>,
    pub payload_len: nat,
}

impl View for InMessage {
    type V = InMsgView;

    open spec fn view(&self) -> InMsgView {
        InMsgView {
            buf: self.buf@,
            state: self.rx_state,
            protocol: self.protocol_type,
            payload_len: self.payload_len as nat,
        }
    }
}

/// A freshly reset receiver.
pub open spec fn fresh_view() -> InMsgView {
    InMsgView { buf: Seq::empty(), state: RxState::RxIdle, protocol: None, payload_len: 0 }
}

/// The header fields readable from an accumulated buffer: the tag from
/// byte 1, and the payload length from bytes 0 and 1 (and 2, for the
/// extended protocols).  `None` until enough bytes are present.
pub open spec fn hdr_model(buf: Seq<u8>) -> Option<(u8, u16)> {
    if buf.len() < 2 {
        None
    } else {
        let p = spec_type_protocol(buf[1]);
        if is_extended_protocol(p) {
            if buf.len() < 3 {
                None
            } else {
                Some((p, spec_protocol_xlen(buf[0], buf[1], buf[2])))
            }
        } else {
            Some((p, spec_protocol_len(buf[0], buf[1])))
        }
    }
}

/// Header extraction: record the tag and payload length once readable;
/// idempotent once the tag is set.
pub open spec fn spec_header_step(v: InMsgView) -> InMsgView {
    if v.protocol is Some {
        v
    } else {
        match hdr_model(v.buf) {
            None => v,
            Some((p, l)) => InMsgView { protocol: Some(p), payload_len: l as nat, ..v },
        }
    }
}

/// CRC verification over the accumulated, unescaped buffer: the CRC is
/// computed over the leading `payload_len + 2` bytes and compared with the
/// trailing CRC field, whose width the tag selects.
pub open spec fn spec_check_crc(v: InMsgView) -> bool {
    match v.protocol {
        None => false,
        Some(p) => {
            if !is_known_protocol(p) {
                false
            } else if v.buf.len() < spec_crc_len(p) || v.payload_len + 2 > v.buf.len() {
                false
            } else {
                let d = v.buf.subrange(0, v.payload_len + 2 as int);
                let n = v.buf.len() as int;
                if is_mngp_protocol(p) {
                    spec_be32(v.buf[n - 4], v.buf[n - 3], v.buf[n - 2], v.buf[n - 1])
                        == crc32_spec(d)
                } else if is_crc16_protocol(p) {
                    spec_be16(v.buf[n - 2], v.buf[n - 1]) == crc16_spec(d)
                } else {
                    v.buf[n - 1] == crc8_spec(d)
                }
            }
        },
    }
}

/// One decoding step of the receive state machine.
pub open spec fn rx_step(v: InMsgView, ch: u8) -> InMsgView {
    match v.state {
        RxState::RxIdle => {
            if ch == PROTOCOL_DELIMITER {
                InMsgView { state: RxState::RxMsg, ..v }
            } else {
                v
            }
        },
        RxState::RxMsg => {
            if ch == PROTOCOL_ESC {
                InMsgView { state: RxState::RxEsc, ..v }
            } else if ch == PROTOCOL_DELIMITER {
                if v.buf.len() == 0 {
                    // Two adjacent delimiters: the end of the previous
                    // frame meets the start of the next.
                    v
                } else if spec_check_crc(v) {
                    InMsgView { state: RxState::RxDone, ..v }
                } else {
                    InMsgView { state: RxState::RxError, ..v }
                }
            } else {
                spec_header_step(InMsgView { buf: v.buf.push(ch), ..v })
            }
        },
        RxState::RxEsc => {
            if ch == PROTOCOL_ESC {
                InMsgView { state: RxState::RxError, ..v }
            } else {
                spec_header_step(
                    InMsgView { buf: v.buf.push(ch ^ 0x20), state: RxState::RxMsg, ..v },
                )
            }
        },
        _ => v,
    }
}

/// Decoding a byte sequence: steps until a frame completes or fails, or
/// the input runs out; yields the final receiver and the unconsumed rest.
pub open spec fn rx_run(v: InMsgView, s: Seq<u8>) -> (InMsgView, Seq<u8>)
    decreases s.len(),
{
    if s.len() == 0 {
        (v, s)
    } else {
        let v2 = rx_step(v, s[0]);
        if v2.state == RxState::RxDone || v2.state == RxState::RxError {
            (v2, s.skip(1))
        } else {
            rx_run(v2, s.skip(1))
        }
    }
}

/// Stripping of header and CRC on completion: keep exactly the payload,
/// and unmask the command byte of a PRIME API frame.
pub open spec fn spec_finalize(v: InMsgView) -> InMsgView {
    let s = v.buf.subrange(2, 2 + v.payload_len as int);
    let b = if v.protocol == Some(PROTOCOL_PRIME_API) && s.len() > 0 {
        s.update(0, spec_cmd_protocol(s[0]))
    } else {
        s
    };
    InMsgView { buf: b, ..v }
}

impl InMessage {
    pub fn new() -> (r: InMessage)
        ensures
            r@ == fresh_view(),
    {
        let r = InMessage {
            rx_state: RxState::RxIdle,
            buf: Vec::new(),
            payload_len: 0,
            protocol_type: None,
        };
        proof {
            assert(r@ =~= fresh_view());
        }
        r
    }

    pub fn get_state(&self) -> (r: &RxState)
        ensures
            *r == self@.state,
    {
        &self.rx_state
    }

    /// The payload length the header announced (0 until the header is in).
    pub fn get_payload_len(&self) -> (r: usize)
        ensures
            r == self@.payload_len,
    {
        self.payload_len
    }

    /// Strip the two header bytes and the trailing CRC, leaving exactly
    /// the payload; unmask the command byte of a PRIME API frame.
    pub fn remove_header_and_crc(&mut self)
        requires
            old(self)@.payload_len + 2 <= old(self)@.buf.len(),
        ensures
            final(self)@ == spec_finalize(old(self)@),
            final(self)@.buf.len() == old(self)@.payload_len,
    {
        let n = self.payload_len;
        let total = self.buf.len();
        let mut out: Vec<u8> = Vec::new();
        if n > 0 {
            let first = self.buf[2];
            let is_prime_api = match self.protocol_type {
                Some(pt) => pt == PROTOCOL_PRIME_API,
                None => false,
            };
            if is_prime_api {
                out.push(cmd_protocol(first));
            } else {
                out.push(first);
            }
            let mut i: usize = 1;
            while i < n
                invariant
                    1 <= i <= n,
                    n + 2 <= total,
                    total == self@.buf.len(),
                    out@.len() == i,
                    out@[0] == (if self@.protocol == Some(PROTOCOL_PRIME_API) {
                        spec_cmd_protocol(self@.buf[2])
                    } else {
                        self@.buf[2]
                    }),
                    forall|j: int| 1 <= j < i ==> out@[j] == self@.buf[2 + j],
                decreases n - i,
            {
                out.push(self.buf[2 + i]);
                i = i + 1;
            }
        }
        proof {
            assert(out@ =~= spec_finalize(self@).buf);
        }
        self.buf = out;
        proof {
            assert(self@ =~= spec_finalize(old(self)@));
        }
    }

    /// Header extraction over the accumulated bytes; does nothing until
    /// enough bytes are in, and nothing once the tag is known.
    pub fn process_header(&mut self)
        ensures
            final(self)@ == spec_header_step(old(self)@),
    {
        if self.protocol_type.is_some() {
            return ;
        }
        if self.buf.len() < 2 {
            return ;
        }
        let proto = type_protocol(self.buf[1]);
        if proto == PROTOCOL_PRIME_API || proto == PROTOCOL_ADP_G3 || proto == PROTOCOL_COORD_G3 {
            if self.buf.len() < 3 {
                return ;
            }
            self.payload_len = get_protocol_xlen(self.buf[0], self.buf[1], self.buf[2]) as usize;
            self.protocol_type = Some(proto);
        } else {
            self.payload_len = get_protocol_len(self.buf[0], self.buf[1]) as usize;
            self.protocol_type = Some(proto);
        }
    }

    /// Verify the trailing CRC against the CRC computed over the leading
    /// `payload_len + 2` bytes, with the algorithm the tag selects.
    pub fn check_crc(&self) -> (r: bool)
        ensures
            r == spec_check_crc(self@),
    {
        let n = self.buf.len();
        match self.protocol_type {
            None => false,
            Some(p) => {
                if p <= 0x07 {
                    // Management protocols: CRC-32.
                    if n < 4 || n < 2 || self.payload_len > n - 2 {
                        return false;
                    }
                    let computed = eval_crc32(&self.buf, self.payload_len + 2);
                    let rx = ((self.buf[n - 4] as u32) << 24) | ((self.buf[n - 3] as u32) << 16)
                        | ((self.buf[n - 2] as u32) << 8) | (self.buf[n - 1] as u32);
                    proof {
                        assert(self@.buf.subrange(0, self@.payload_len + 2 as int) =~= self@
                            .buf.take(self@.payload_len + 2 as int));
                    }
                    rx == computed
                } else if is_crc16_tag(p) {
                    if n < 2 || self.payload_len > n - 2 {
                        return false;
                    }
                    let computed = eval_crc16(&self.buf, self.payload_len + 2);
                    let rx = ((self.buf[n - 2] as u16) << 8) | (self.buf[n - 1] as u16);
                    proof {
                        assert(self@.buf.subrange(0, self@.payload_len + 2 as int) =~= self@
                            .buf.take(self@.payload_len + 2 as int));
                    }
                    rx == computed
                } else if p == PROTOCOL_PRIME_API {
                    if n < 1 || n < 2 || self.payload_len > n - 2 {
                        return false;
                    }
                    let computed = eval_crc8(&self.buf, self.payload_len + 2);
                    let rx = self.buf[n - 1];
                    proof {
                        assert(self@.buf.subrange(0, self@.payload_len + 2 as int) =~= self@
                            .buf.take(self@.payload_len + 2 as int));
                    }
                    rx == computed
                } else {
                    false
                }
            },
        }
    }

    /// One byte of the deframing state machine.
    pub fn process_ch(&mut self, ch: u8)
        ensures
            final(self)@ == rx_step(old(self)@, ch),
    {
        match self.rx_state {
            RxState::RxIdle => {
                if ch == PROTOCOL_DELIMITER {
                    self.rx_state = RxState::RxMsg;
                }
            },
            RxState::RxMsg => {
                if ch == PROTOCOL_ESC {
                    self.rx_state = RxState::RxEsc;
                } else if ch == PROTOCOL_DELIMITER {
                    if self.buf.len() == 0 {
                        // Two adjacent delimiters between frames: stay put.
                    } else {
                        if self.check_crc() {
                            self.rx_state = RxState::RxDone;
                        } else {
                            self.rx_state = RxState::RxError;
                        }
                    }
                } else {
                    self.buf.push(ch);
                    if self.protocol_type.is_none() {
                        self.process_header();
                    }
                }
            },
            RxState::RxEsc => {
                if ch == PROTOCOL_ESC {
                    // An escape may not follow an escape.
                    self.rx_state = RxState::RxError;
                } else {
                    self.buf.push(ch ^ 0x20);
                    self.rx_state = RxState::RxMsg;
                    if self.protocol_type.is_none() {
                        self.process_header();
                    }
                }
            },
            _ => {},
        }
    }

    /// Drain bytes from the front of `data` through the deframer until a
    /// frame completes or fails, or the input runs out.
    pub fn process(&mut self, data: &mut VecDeque<u8>)
        ensures
            final(self)@ == rx_run(old(self)@, old(data)@).0,
            final(data)@ == rx_run(old(self)@, old(data)@).1,
    {
        let ghost om = self@;
        let ghost od = data@;
        loop
            invariant_except_break
                rx_run(self@, data@) == rx_run(om, od),
            ensures
                self@ == rx_run(om, od).0,
                data@ == rx_run(om, od).1,
            decreases data@.len(),
        {
            let ghost vi = self@;
            let ghost si = data@;
            match data.pop_front() {
                None => {
                    proof {
                        assert(si.len() == 0);
                        assert(rx_run(vi, si) == (vi, si));
                    }
                    break ;
                },
                Some(c) => {
                    proof {
                        assert(si[0] == c);
                        assert(data@ =~= si.skip(1));
                    }
                    self.process_ch(c);
                    let done = match self.rx_state {
                        RxState::RxDone => true,
                        RxState::RxError => true,
                        _ => false,
                    };
                    proof {
                        if done {
                            assert(rx_run(vi, si) == (rx_step(vi, c), si.skip(1)));
                        } else {
                            assert(rx_run(vi, si) == rx_run(rx_step(vi, c), si.skip(1)));
                        }
                    }
                    if done {
                        break ;
                    }
                },
            }
        }
    }
}

/// Port lifecycle tags.
#[derive(PartialEq, Eq, Structural, Debug)]
pub enum PortState {
    Stopped,
    Starting,
    Started,
    Stopping,
}

} // verus!
