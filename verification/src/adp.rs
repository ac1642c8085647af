//! The ADP message model: the decoded forms of the modem's adaptation-layer
//! responses and indications, the decoder from deframed payloads, and the
//! routing rule that splits LBP traffic from ordinary network traffic.

use vstd::prelude::*;

use crate::usi::{spec_be16, spec_be32, InMessage};

verus! {

/// The modem's success status code.
pub const G3_STATUS_SUCCESS: u8 = 0x00;

// Serial command identifiers.  The ADP tag is an extended protocol, so the
// command space is 5 bits wide.
pub const CMD_ADP_INITIALIZE: u8 = 0x01;
pub const CMD_ADP_SET_REQUEST: u8 = 0x02;
pub const CMD_ADP_GET_REQUEST: u8 = 0x03;
pub const CMD_ADP_DISCOVERY_REQUEST: u8 = 0x04;
pub const CMD_ADP_NETWORK_JOIN_REQUEST: u8 = 0x05;
pub const CMD_ADP_NETWORK_START_REQUEST: u8 = 0x06;
pub const CMD_ADP_LBP_REQUEST: u8 = 0x07;
pub const CMD_ADP_INITIALIZE_CONFIRM: u8 = 0x11;
pub const CMD_ADP_SET_CONFIRM: u8 = 0x12;
pub const CMD_ADP_GET_CONFIRM: u8 = 0x13;
pub const CMD_ADP_DISCOVERY_CONFIRM: u8 = 0x14;
pub const CMD_ADP_NETWORK_JOIN_CONFIRM: u8 = 0x15;
pub const CMD_ADP_NETWORK_START_CONFIRM: u8 = 0x16;
pub const CMD_ADP_STATUS_INDICATION: u8 = 0x17;
pub const CMD_ADP_LBP_INDICATION: u8 = 0x18;
pub const CMD_ADP_LBP_CONFIRM: u8 = 0x19;

// PIB attribute identifiers.
pub const ADP_PIB_SECURITY_LEVEL: u32 = 0x0000_0000;
pub const ADP_PIB_MAX_HOPS: u32 = 0x0000_0010;
pub const ADP_PIB_EXTENDED_ADDRESS: u32 = 0x0800_0001;

/// A decoded adaptation-layer message from the modem.
#[derive(Clone, Debug)]
pub enum AdpMessage {
    AdpG3InitializeResponse { status: u8 },
    AdpG3SetResponse { status: u8, attribute_id: u32 },
    AdpG3GetResponse { status: u8, attribute_id: u32, value: u64 },
    AdpG3DiscoveryResponse { status: u8 },
    AdpG3NetworkJoinResponse { status: u8, network_address: u16 },
    AdpG3NetworkStartResponse { status: u8 },
    AdpG3MsgStatusResponse { status: u8 },
    AdpG3LbpEvent { payload: Vec<u8> },
    AdpG3LbpResponse { status: u8 },
}

/// The mathematical content of an `AdpMessage`.
#[verifier::ext_equal]
pub enum AdpView {
    InitializeResponse { status: u8 },
    SetResponse { status: u8, attribute_id: u32 },
    GetResponse { status: u8, attribute_id: u32, value: u64 },
    DiscoveryResponse { status: u8 },
    NetworkJoinResponse { status: u8, network_address: u16 },
    NetworkStartResponse { status: u8 },
    MsgStatusResponse { status: u8 },
    LbpEvent { payload: Seq<u8> },
    LbpResponse { status: u8 },
}

impl View for AdpMessage {
    type V = AdpView;

    open spec fn view(&self) -> AdpView {
        match self {
            AdpMessage::AdpG3InitializeResponse { status } => AdpView::InitializeResponse {
                status: *status,
            },
            AdpMessage::AdpG3SetResponse { status, attribute_id } => AdpView::SetResponse {
                status: *status,
                attribute_id: *attribute_id,
            },
            AdpMessage::AdpG3GetResponse { status, attribute_id, value } => AdpView::GetResponse {
                status: *status,
                attribute_id: *attribute_id,
                value: *value,
            },
            AdpMessage::AdpG3DiscoveryResponse { status } => AdpView::DiscoveryResponse {
                status: *status,
            },
            AdpMessage::AdpG3NetworkJoinResponse { status, network_address } =>
                AdpView::NetworkJoinResponse {
                status: *status,
                network_address: *network_address,
            },
            AdpMessage::AdpG3NetworkStartResponse { status } => AdpView::NetworkStartResponse {
                status: *status,
            },
            AdpMessage::AdpG3MsgStatusResponse { status } => AdpView::MsgStatusResponse {
                status: *status,
            },
            AdpMessage::AdpG3LbpEvent { payload } => AdpView::LbpEvent { payload: payload@ },
            AdpMessage::AdpG3LbpResponse { status } => AdpView::LbpResponse { status: *status },
        }
    }
}

/// Big-endian reading of eight bytes.
pub open spec fn spec_be64(
    b0: u8,
    b1: u8,
    b2: u8,
    b3: u8,
    b4: u8,
    b5: u8,
    b6: u8,
    b7: u8,
) -> u64 {
    ((b0 as u64) << 56) | ((b1 as u64) << 48) | ((b2 as u64) << 40) | ((b3 as u64) << 32) | (
    (b4 as u64) << 24) | ((b5 as u64) << 16) | ((b6 as u64) << 8) | (b7 as u64)
}

/// What a deframed payload decodes to: the first byte is the command, the
/// fields follow big-endian.  Too-short or unknown payloads decode to
/// nothing.
pub open spec fn adp_decode(buf: Seq<u8>) -> Option<AdpView> {
    if buf.len() < 1 {
        None
    } else {
        let c = buf[0];
        if c == CMD_ADP_INITIALIZE_CONFIRM {
            if buf.len() >= 2 {
                Some(AdpView::InitializeResponse { status: buf[1] })
            } else {
                None
            }
        } else if c == CMD_ADP_SET_CONFIRM {
            if buf.len() >= 6 {
                Some(
                    AdpView::SetResponse {
                        status: buf[1],
                        attribute_id: spec_be32(buf[2], buf[3], buf[4], buf[5]),
                    },
                )
            } else {
                None
            }
        } else if c == CMD_ADP_GET_CONFIRM {
            if buf.len() >= 14 {
                Some(
                    AdpView::GetResponse {
                        status: buf[1],
                        attribute_id: spec_be32(buf[2], buf[3], buf[4], buf[5]),
                        value: spec_be64(
                            buf[6],
                            buf[7],
                            buf[8],
                            buf[9],
                            buf[10],
                            buf[11],
                            buf[12],
                            buf[13],
                        ),
                    },
                )
            } else {
                None
            }
        } else if c == CMD_ADP_DISCOVERY_CONFIRM {
            if buf.len() >= 2 {
                Some(AdpView::DiscoveryResponse { status: buf[1] })
            } else {
                None
            }
        } else if c == CMD_ADP_NETWORK_JOIN_CONFIRM {
            if buf.len() >= 4 {
                Some(
                    AdpView::NetworkJoinResponse {
                        status: buf[1],
                        network_address: spec_be16(buf[2], buf[3]),
                    },
                )
            } else {
                None
            }
        } else if c == CMD_ADP_NETWORK_START_CONFIRM {
            if buf.len() >= 2 {
                Some(AdpView::NetworkStartResponse { status: buf[1] })
            } else {
                None
            }
        } else if c == CMD_ADP_STATUS_INDICATION {
            if buf.len() >= 2 {
                Some(AdpView::MsgStatusResponse { status: buf[1] })
            } else {
                None
            }
        } else if c == CMD_ADP_LBP_INDICATION {
            Some(AdpView::LbpEvent { payload: buf.skip(1) })
        } else if c == CMD_ADP_LBP_CONFIRM {
            if buf.len() >= 2 {
                Some(AdpView::LbpResponse { status: buf[1] })
            } else {
                None
            }
        } else {
            None
        }
    }
}

/// Decode a deframed inbound frame into an ADP message.
pub fn usi_message_to_message(msg: &InMessage) -> (r: Option<AdpMessage>)
    ensures
        ({
            let d = adp_decode(msg.buf@);
            match r {
                None => d is None,
                Some(m) => d == Some(m@),
            }
        }),
{
    if msg.buf.len() < 1 {
        return None;
    }
    let c = msg.buf[0];
    if c == CMD_ADP_INITIALIZE_CONFIRM {
        if msg.buf.len() >= 2 {
            Some(AdpMessage::AdpG3InitializeResponse { status: msg.buf[1] })
        } else {
            None
        }
    } else if c == CMD_ADP_SET_CONFIRM {
        if msg.buf.len() >= 6 {
            Some(
                AdpMessage::AdpG3SetResponse {
                    status: msg.buf[1],
                    attribute_id: read_be32(&msg.buf, 2),
                },
            )
        } else {
            None
        }
    } else if c == CMD_ADP_GET_CONFIRM {
        if msg.buf.len() >= 14 {
            Some(
                AdpMessage::AdpG3GetResponse {
                    status: msg.buf[1],
                    attribute_id: read_be32(&msg.buf, 2),
                    value: read_be64(&msg.buf, 6),
                },
            )
        } else {
            None
        }
    } else if c == CMD_ADP_DISCOVERY_CONFIRM {
        if msg.buf.len() >= 2 {
            Some(AdpMessage::AdpG3DiscoveryResponse { status: msg.buf[1] })
        } else {
            None
        }
    } else if c == CMD_ADP_NETWORK_JOIN_CONFIRM {
        if msg.buf.len() >= 4 {
            Some(
                AdpMessage::AdpG3NetworkJoinResponse {
                    status: msg.buf[1],
                    network_address: ((msg.buf[2] as u16) << 8) | (msg.buf[3] as u16),
                },
            )
        } else {
            None
        }
    } else if c == CMD_ADP_NETWORK_START_CONFIRM {
        if msg.buf.len() >= 2 {
            Some(AdpMessage::AdpG3NetworkStartResponse { status: msg.buf[1] })
        } else {
            None
        }
    } else if c == CMD_ADP_STATUS_INDICATION {
        if msg.buf.len() >= 2 {
            Some(AdpMessage::AdpG3MsgStatusResponse { status: msg.buf[1] })
        } else {
            None
        }
    } else if c == CMD_ADP_LBP_INDICATION {
        let mut payload: Vec<u8> = Vec::new();
        let mut i: usize = 1;
        while i < msg.buf.len()
            invariant
                1 <= i <= msg.buf@.len(),
                payload@ == msg.buf@.subrange(1, i as int),
            decreases msg.buf@.len() - i,
        {
            payload.push(msg.buf[i]);
            proof {
                assert(payload@ =~= msg.buf@.subrange(1, i + 1));
            }
            i = i + 1;
        }
        proof {
            assert(payload@ =~= msg.buf@.skip(1));
        }
        Some(AdpMessage::AdpG3LbpEvent { payload })
    } else if c == CMD_ADP_LBP_CONFIRM {
        if msg.buf.len() >= 2 {
            Some(AdpMessage::AdpG3LbpResponse { status: msg.buf[1] })
        } else {
            None
        }
    } else {
        None
    }
}

/// Big-endian 32-bit read at `at`.
fn read_be32(buf: &Vec<u8>, at: usize) -> (r: u32)
    requires
        at + 4 <= buf@.len(),
    ensures
        r == spec_be32(buf@[at as int], buf@[at + 1], buf@[at + 2], buf@[at + 3]),
{
    let n = buf.len();
    assert(at + 4 <= n);
    ((buf[at] as u32) << 24) | ((buf[at + 1] as u32) << 16) | ((buf[at + 2] as u32) << 8) | (
    buf[at + 3] as u32)
}

/// Big-endian 64-bit read at `at`.
fn read_be64(buf: &Vec<u8>, at: usize) -> (r: u64)
    requires
        at + 8 <= buf@.len(),
    ensures
        r == spec_be64(
            buf@[at as int],
            buf@[at + 1],
            buf@[at + 2],
            buf@[at + 3],
            buf@[at + 4],
            buf@[at + 5],
            buf@[at + 6],
            buf@[at + 7],
        ),
{
    let n = buf.len();
    assert(at + 8 <= n);
    ((buf[at] as u64) << 56) | ((buf[at + 1] as u64) << 48) | ((buf[at + 2] as u64) << 40) | (
    (buf[at + 3] as u64) << 32) | ((buf[at + 4] as u64) << 24) | ((buf[at + 5] as u64) << 16) | (
    (buf[at + 6] as u64) << 8) | (buf[at + 7] as u64)
}

/// The eight big-endian bytes of a 64-bit word.
pub open spec fn spec_be64_bytes(c: u64) -> Seq<u8> {
    seq![
        ((c >> 56) & 0xFF) as u8,
        ((c >> 48) & 0xFF) as u8,
        ((c >> 40) & 0xFF) as u8,
        ((c >> 32) & 0xFF) as u8,
        ((c >> 24) & 0xFF) as u8,
        ((c >> 16) & 0xFF) as u8,
        ((c >> 8) & 0xFF) as u8,
        (c & 0xFF) as u8,
    ]
}

/// Fitting bounds for the big-endian bytes of a 64-bit word.
proof fn lemma_be_bytes_fit64(c: u64)
    by (bit_vector)
    ensures
        ((c >> 56) & 0xFF) < 256,
        ((c >> 48) & 0xFF) < 256,
        ((c >> 40) & 0xFF) < 256,
        ((c >> 32) & 0xFF) < 256,
        ((c >> 24) & 0xFF) < 256,
        ((c >> 16) & 0xFF) < 256,
        ((c >> 8) & 0xFF) < 256,
        (c & 0xFF) < 256,
{
}

/// Append a 32-bit word big-endian.
pub fn push_be32(v: &mut Vec<u8>, x: u32)
    ensures
        final(v)@ == old(v)@ + crate::usi::spec_be32_bytes(x),
{
    proof {
        crate::usi::lemma_be_bytes_fit32(x);
    }
    v.push(((x >> 24) & 0xFF) as u8);
    v.push(((x >> 16) & 0xFF) as u8);
    v.push(((x >> 8) & 0xFF) as u8);
    v.push((x & 0xFF) as u8);
    proof {
        assert(v@ =~= old(v)@ + crate::usi::spec_be32_bytes(x));
    }
}

/// Append a 64-bit word big-endian.
pub fn push_be64(v: &mut Vec<u8>, x: u64)
    ensures
        final(v)@ == old(v)@ + spec_be64_bytes(x),
{
    proof {
        lemma_be_bytes_fit64(x);
    }
    v.push(((x >> 56) & 0xFF) as u8);
    v.push(((x >> 48) & 0xFF) as u8);
    v.push(((x >> 40) & 0xFF) as u8);
    v.push(((x >> 32) & 0xFF) as u8);
    v.push(((x >> 24) & 0xFF) as u8);
    v.push(((x >> 16) & 0xFF) as u8);
    v.push(((x >> 8) & 0xFF) as u8);
    v.push((x & 0xFF) as u8);
    proof {
        assert(v@ =~= old(v)@ + spec_be64_bytes(x));
    }
}

/// Seconds a network discovery scan runs for.
pub const ADP_DISCOVERY_DURATION_S: u8 = 15;

/// The CENELEC-A frequency band selector.
pub const BAND_CENELEC_A: u8 = 0x00;

/// Where the manager forwards a decoded ADP message after the state
/// machine has seen it.
#[derive(PartialEq, Eq, Structural, Debug)]
pub enum Route {
    /// An LBP bootstrap event: decode the embedded PDU for the LBP handler.
    LbpHandlerEvent,
    /// An LBP response: update the LBP handler's pending-request table.
    LbpHandlerResponse,
    /// Everything else goes to the network manager.
    NetworkManager,
}

/// The routing rule of the manager's main loop.
pub open spec fn spec_route(m: AdpMessage) -> Route {
    match m {
        AdpMessage::AdpG3LbpEvent { .. } => Route::LbpHandlerEvent,
        AdpMessage::AdpG3LbpResponse { .. } => Route::LbpHandlerResponse,
        _ => Route::NetworkManager,
    }
}

/// Classify a decoded ADP message for forwarding.
pub fn route_adp(msg: &AdpMessage) -> (r: Route)
    ensures
        r == spec_route(*msg),
{
    match msg {
        AdpMessage::AdpG3LbpEvent { .. } => Route::LbpHandlerEvent,
        AdpMessage::AdpG3LbpResponse { .. } => Route::LbpHandlerResponse,
        _ => Route::NetworkManager,
    }
}

/// A decoded LBP bootstrap PDU: its kind byte and body.
pub struct LbpMessage {
    pub kind: u8,
    pub payload: Vec<u8>,
}

/// Decode the LBP PDU embedded in an `AdpG3LbpEvent`: the first payload
/// byte is the kind, the rest the body.  Anything else decodes to nothing.
pub fn adp_message_to_lbp_message(event: &AdpMessage) -> (r: Option<LbpMessage>)
    ensures
        match *event {
            AdpMessage::AdpG3LbpEvent { ref payload } => {
                if payload@.len() >= 1 {
                    r matches Some(m) && m.kind == payload@[0] && m.payload@ == payload@.skip(1)
                } else {
                    r is None
                }
            },
            _ => r is None,
        },
{
    match event {
        AdpMessage::AdpG3LbpEvent { payload } => {
            if payload.len() < 1 {
                return None;
            }
            let kind = payload[0];
            let mut body: Vec<u8> = Vec::new();
            let mut i: usize = 1;
            while i < payload.len()
                invariant
                    1 <= i <= payload@.len(),
                    body@ == payload@.subrange(1, i as int),
                decreases payload@.len() - i,
            {
                body.push(payload[i]);
                proof {
                    assert(body@ =~= payload@.subrange(1, i + 1));
                }
                i = i + 1;
            }
            proof {
                assert(body@ =~= payload@.skip(1));
            }
            Some(LbpMessage { kind, payload: body })
        },
        _ => None,
    }
}

} // verus!
