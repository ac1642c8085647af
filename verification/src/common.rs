//! Framing constants of the USI link protocol, the closed set of
//! sub-protocol tags, and the bit-level header field helpers.

use vstd::prelude::*;

verus! {

/// Frame delimiter byte; one before and one after every frame on the wire.
pub const PROTOCOL_DELIMITER: u8 = 0x7E;
/// Escape byte; a delimiter or escape inside a frame is sent escaped.
pub const PROTOCOL_ESC: u8 = 0x7D;
/// An escaped byte is sent as `PROTOCOL_ESC` followed by `byte ^ ESCAPE_XOR`.
pub const ESCAPE_XOR: u8 = 0x20;

/// Largest payload an outbound frame may carry.
pub const MAX_PAYLOAD_LEN: usize = 4096;

// The closed set of sub-protocol tags (6-bit selectors in the frame header).
pub const MNGP_PRIME_GETQRY: u8 = 0x00;
pub const MNGP_PRIME_GETRSP: u8 = 0x01;
pub const MNGP_PRIME_SET: u8 = 0x02;
pub const MNGP_PRIME_RESET: u8 = 0x03;
pub const MNGP_PRIME_REBOOT: u8 = 0x04;
pub const MNGP_PRIME_FU: u8 = 0x05;
pub const MNGP_PRIME_EN_PIBQRY: u8 = 0x06;
pub const MNGP_PRIME_EN_PIBRSP: u8 = 0x07;
pub const PROTOCOL_SNIF_PRIME: u8 = 0x13;
pub const PROTOCOL_SNIF_G3: u8 = 0x23;
pub const PROTOCOL_MAC_G3: u8 = 0x24;
pub const PROTOCOL_ADP_G3: u8 = 0x25;
pub const PROTOCOL_COORD_G3: u8 = 0x26;
pub const PROTOCOL_PRIME_API: u8 = 0x30;
pub const PROTOCOL_PRIME_O_UDP: u8 = 0x31;

/// Management sub-protocols, protected by CRC-32.
pub open spec fn is_mngp_protocol(p: u8) -> bool {
    ||| p == MNGP_PRIME_GETQRY
    ||| p == MNGP_PRIME_GETRSP
    ||| p == MNGP_PRIME_SET
    ||| p == MNGP_PRIME_RESET
    ||| p == MNGP_PRIME_REBOOT
    ||| p == MNGP_PRIME_FU
    ||| p == MNGP_PRIME_EN_PIBQRY
    ||| p == MNGP_PRIME_EN_PIBRSP
}

/// Sub-protocols protected by CRC-16.
pub open spec fn is_crc16_protocol(p: u8) -> bool {
    ||| p == PROTOCOL_SNIF_PRIME
    ||| p == PROTOCOL_SNIF_G3
    ||| p == PROTOCOL_MAC_G3
    ||| p == PROTOCOL_ADP_G3
    ||| p == PROTOCOL_COORD_G3
    ||| p == PROTOCOL_PRIME_O_UDP
}

/// The whole closed set of sub-protocol tags.
pub open spec fn is_known_protocol(p: u8) -> bool {
    is_mngp_protocol(p) || is_crc16_protocol(p) || p == PROTOCOL_PRIME_API
}

/// Tags whose header carries a 13-bit length in an extension byte that also
/// holds the 5-bit command.
pub open spec fn is_extended_protocol(p: u8) -> bool {
    p == PROTOCOL_PRIME_API || p == PROTOCOL_ADP_G3 || p == PROTOCOL_COORD_G3
}

/// Width in bytes of the CRC an encoded frame of tag `p` carries.
/// Unknown tags fall back to the 1-byte CRC, as the encoder does.
pub open spec fn spec_crc_len(p: u8) -> nat {
    if is_mngp_protocol(p) {
        4
    } else if is_crc16_protocol(p) {
        2
    } else {
        1
    }
}

/// Header byte 0: the upper 8 bits of the (10- or 13-bit) payload length.
pub open spec fn spec_len_hi(len: u16) -> u8 {
    ((len >> 2) & 0xFF) as u8
}

/// Length bits of header byte 1: the two low length bits, shifted high.
pub open spec fn spec_len_lo(len: u16) -> u8 {
    ((len & 0x3) << 6) as u8
}

/// Length bits of the extension byte: bits 10..13 of the length, shifted to
/// the top three bits.
pub open spec fn spec_len_ex(len: u16) -> u8 {
    (((len >> 10) & 0x7) << 5) as u8
}

/// The 6-bit sub-protocol tag carried in header byte 1.
pub open spec fn spec_type_protocol(b: u8) -> u8 {
    b & 0x3F
}

/// The 5-bit command carried in the extension byte.
pub open spec fn spec_cmd_protocol(b: u8) -> u8 {
    b & 0x1F
}

/// The 10-bit payload length recovered from the two header bytes.
pub open spec fn spec_protocol_len(b0: u8, b1: u8) -> u16 {
    (((b0 as u16) << 2) | ((b1 as u16) >> 6)) as u16
}

/// The 13-bit payload length recovered from the two header bytes and the
/// extension byte.
pub open spec fn spec_protocol_xlen(b0: u8, b1: u8, b2: u8) -> u16 {
    (spec_protocol_len(b0, b1) | ((((b2 as u16) >> 5) & 0x7) << 10)) as u16
}

pub fn len_hi_protocol(len: u16) -> (r: u8)
    ensures
        r == spec_len_hi(len),
{
    proof {
        lemma_header_fields_fit(len);
    }
    ((len >> 2) & 0xFF) as u8
}

pub fn len_lo_protocol(len: u16) -> (r: u8)
    ensures
        r == spec_len_lo(len),
{
    proof {
        lemma_header_fields_fit(len);
    }
    ((len & 0x3) << 6) as u8
}

pub fn len_ex_protocol(len: u16) -> (r: u8)
    ensures
        r == spec_len_ex(len),
{
    proof {
        lemma_header_fields_fit(len);
    }
    (((len >> 10) & 0x7) << 5) as u8
}

pub fn type_protocol(b: u8) -> (r: u8)
    ensures
        r == spec_type_protocol(b),
{
    b & 0x3F
}

pub fn cmd_protocol(b: u8) -> (r: u8)
    ensures
        r == spec_cmd_protocol(b),
{
    b & 0x1F
}

pub fn get_protocol_len(b0: u8, b1: u8) -> (r: u16)
    ensures
        r == spec_protocol_len(b0, b1),
{
    proof {
        lemma_recovered_len_fits(b0, b1, 0);
    }
    ((b0 as u16) << 2) | ((b1 as u16) >> 6)
}

pub fn get_protocol_xlen(b0: u8, b1: u8, b2: u8) -> (r: u16)
    ensures
        r == spec_protocol_xlen(b0, b1, b2),
{
    proof {
        lemma_recovered_len_fits(b0, b1, b2);
    }
    (((b0 as u16) << 2) | ((b1 as u16) >> 6)) | ((((b2 as u16) >> 5) & 0x7) << 10)
}

/// Every header field expression fits in a byte.
pub proof fn lemma_header_fields_fit(len: u16)
    by (bit_vector)
    ensures
        ((len >> 2) & 0xFF) < 256,
        ((len & 0x3) << 6) < 256,
        (((len >> 10) & 0x7) << 5) < 256,
{
}

/// The recovered length expressions never overflow a `u16`.
pub proof fn lemma_recovered_len_fits(b0: u8, b1: u8, b2: u8)
    by (bit_vector)
    ensures
        (((b0 as u16) << 2) | ((b1 as u16) >> 6)) < 1024,
        ((((b0 as u16) << 2) | ((b1 as u16) >> 6)) | ((((b2 as u16) >> 5) & 0x7) << 10))
            < 8192,
{
}

/// A 10-bit length and a 6-bit tag written into the two header bytes are
/// recovered exactly.
pub proof fn lemma_header_roundtrip_short(len: u16, p: u8)
    by (bit_vector)
    requires
        len < 1024,
        p < 0x40,
    ensures
        spec_protocol_len(spec_len_hi(len), spec_len_lo(len) | p) == len,
        spec_type_protocol(spec_len_lo(len) | p) == p,
        spec_type_protocol(p) == p,
{
}

/// A 13-bit length, a 6-bit tag and a 5-bit command written into the header
/// and extension bytes are recovered exactly; a short length leaves the
/// extension bits clear.
pub proof fn lemma_header_roundtrip_extended(len: u16, p: u8, cmd: u8)
    by (bit_vector)
    requires
        len < 8192,
        p < 0x40,
        cmd < 0x20,
    ensures
        spec_protocol_xlen(spec_len_hi(len), spec_len_lo(len) | p, spec_len_ex(len) | cmd)
            == len,
        spec_type_protocol(spec_len_lo(len) | p) == p,
        spec_type_protocol(p) == p,
        spec_cmd_protocol(cmd) == cmd,
        spec_cmd_protocol(spec_len_ex(len) | cmd) == cmd,
        len < 1024 ==> (spec_len_ex(len) | cmd) == cmd,
{
}

/// Escaping is an involution, and an escaped delimiter or escape byte is
/// itself neither.
pub proof fn lemma_escape_xor(b: u8)
    by (bit_vector)
    ensures
        (b ^ 0x20) ^ 0x20 == b,
        (b == 0x7E || b == 0x7D) ==> ((b ^ 0x20) != 0x7E && (b ^ 0x20) != 0x7D),
{
}

} // verus!
