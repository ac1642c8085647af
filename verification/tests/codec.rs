//! Frame codec tests: encoding, byte-at-a-time decoding, escaping, CRC
//! selection and failure handling.

use std::collections::VecDeque;

use plc_usi::common::{
    MNGP_PRIME_SET, PROTOCOL_ADP_G3, PROTOCOL_MAC_G3, PROTOCOL_PRIME_API, PROTOCOL_PRIME_O_UDP,
};
use plc_usi::crc::{eval_crc16, eval_crc32, eval_crc8};
use plc_usi::usi::{InMessage, OutMessage, RxState};

fn decode_all(bytes: &[u8]) -> InMessage {
    let mut msg = InMessage::new();
    let mut data: VecDeque<u8> = bytes.iter().copied().collect();
    msg.process(&mut data);
    msg
}

fn roundtrip(protocol: u8, payload: &[u8]) -> Vec<u8> {
    let encoded = OutMessage::new(protocol, payload).to_usi().expect("encodable");
    let mut msg = decode_all(&encoded);
    assert!(matches!(msg.get_state(), RxState::RxDone), "frame should decode");
    assert_eq!(msg.get_payload_len(), payload.len());
    msg.remove_header_and_crc();
    assert_eq!(msg.buf.len(), payload.len());
    msg.buf
}

#[test]
fn crc8_known_value() {
    let data = vec![0x01u8];
    assert_eq!(eval_crc8(&data, 1), 0x07);
    assert_eq!(eval_crc8(&data, 0), 0x00);
}

#[test]
fn crc16_known_value() {
    let data = vec![0x01u8];
    assert_eq!(eval_crc16(&data, 1), 0x1021);
}

#[test]
fn crc32_known_value() {
    let data = vec![0x01u8];
    assert_eq!(eval_crc32(&data, 1), 0x04C1_1DB7);
}

#[test]
fn encode_adp_frame_shape() {
    // S1: the encoded frame is delimited, its length bits decode to 3,
    // and its CRC-16 verifies on decode.
    let encoded = OutMessage::new(PROTOCOL_ADP_G3, &[0x01, 0x02, 0x03]).to_usi().unwrap();
    assert_eq!(*encoded.first().unwrap(), 0x7E);
    assert_eq!(*encoded.last().unwrap(), 0x7E);
    let msg = decode_all(&encoded);
    assert!(matches!(msg.get_state(), RxState::RxDone));
    assert_eq!(msg.get_payload_len(), 3);
    assert_eq!(msg.protocol_type, Some(PROTOCOL_ADP_G3));
}

#[test]
fn roundtrip_adp_payload() {
    assert_eq!(roundtrip(PROTOCOL_ADP_G3, &[0x01, 0x02, 0x03]), vec![0x01, 0x02, 0x03]);
}

#[test]
fn roundtrip_escaped_delimiter_in_payload() {
    // S2 / escape neutrality: payload bytes equal to the delimiter or the
    // escape are stuffed on the wire and restored on decode.
    let payload = [0x01u8, 0x7E, 0x7D, 0x20, 0x5E];
    let encoded = OutMessage::new(PROTOCOL_ADP_G3, &payload).to_usi().unwrap();
    // The raw 0x7E inside must not appear between the delimiters.
    assert!(!encoded[1..encoded.len() - 1].contains(&0x7E));
    let stuffed = encoded.windows(2).any(|w| w[0] == 0x7D && w[1] == 0x5E);
    assert!(stuffed, "escaped delimiter expected on the wire");
    assert_eq!(roundtrip(PROTOCOL_ADP_G3, &payload), payload.to_vec());
}

#[test]
fn roundtrip_prime_api_command_masking() {
    // The PRIME API command byte is masked with length-extension bits on
    // the wire and unmasked on decode.
    let payload = [0x1Fu8, 0xAA, 0x55];
    assert_eq!(roundtrip(PROTOCOL_PRIME_API, &payload), payload.to_vec());
}

#[test]
fn roundtrip_mngp_crc32() {
    let payload = [0x04u8, 0x00, 0x01];
    assert_eq!(roundtrip(MNGP_PRIME_SET, &payload), payload.to_vec());
}

#[test]
fn roundtrip_primeoudp_crc16() {
    let payload = [0x09u8, 0x08, 0x07];
    assert_eq!(roundtrip(PROTOCOL_PRIME_O_UDP, &payload), payload.to_vec());
}

#[test]
fn roundtrip_empty_payload() {
    // An empty payload frames to header plus CRC alone and decodes back
    // to an empty buffer.  (An extended tag could not: with no payload,
    // its header extraction would read length-extension bits out of the
    // first CRC byte.)
    let encoded = OutMessage::new(PROTOCOL_MAC_G3, &[]).to_usi().unwrap();
    let mut msg = decode_all(&encoded);
    assert!(matches!(msg.get_state(), RxState::RxDone));
    assert_eq!(msg.get_payload_len(), 0);
    msg.remove_header_and_crc();
    assert!(msg.buf.is_empty());
}

#[test]
fn roundtrip_mngp_en_pibrsp_uses_crc32() {
    // Every management tag selects CRC-32, the PIB response included.
    let payload = [0x33u8, 0x22];
    assert_eq!(
        roundtrip(plc_usi::common::MNGP_PRIME_EN_PIBRSP, &payload),
        payload.to_vec()
    );
}

#[test]
fn oversize_payload_refused() {
    // S4: a 5000-byte payload is refused by the encoder.
    let payload = vec![0xABu8; 5000];
    assert!(OutMessage::new(PROTOCOL_ADP_G3, &payload).to_usi().is_none());
}

#[test]
fn max_payload_encodes() {
    let payload = vec![0x11u8; 4096];
    assert!(OutMessage::new(PROTOCOL_PRIME_API, &payload).to_usi().is_some());
}

#[test]
fn corrupted_byte_fails_crc() {
    // S3: a frame with one corrupted byte moves the decoder to the error
    // state instead of completing.
    let mut encoded = OutMessage::new(PROTOCOL_ADP_G3, &[0x01, 0x02, 0x03]).to_usi().unwrap();
    // Corrupt a payload byte (index 4 is inside the frame body); keep it
    // off the delimiter and escape values.
    assert!(encoded[4] != 0x7E && encoded[4] != 0x7D);
    encoded[4] ^= 0x01;
    assert!(encoded[4] != 0x7E && encoded[4] != 0x7D);
    let msg = decode_all(&encoded);
    assert!(matches!(msg.get_state(), RxState::RxError));
}

#[test]
fn corrupted_crc_byte_is_error() {
    // A frame whose trailing CRC no longer matches is rejected; find a
    // corruptible trailing byte that stays clear of the framing bytes.
    let encoded = OutMessage::new(PROTOCOL_ADP_G3, &[0x21, 0x42, 0x63]).to_usi().unwrap();
    let mut i = encoded.len() - 2;
    while encoded[i] == 0x7E || encoded[i] == 0x7D || encoded[i] ^ 0x01 == 0x7E
        || encoded[i] ^ 0x01 == 0x7D
    {
        i -= 1;
    }
    let mut corrupted = encoded.clone();
    corrupted[i] ^= 0x01;
    let msg = decode_all(&corrupted);
    assert!(matches!(msg.get_state(), RxState::RxError));
}

#[test]
fn double_delimiter_between_frames_tolerated() {
    // An extra delimiter in front (the close of an unprocessed frame)
    // yields the same single frame.
    let encoded = OutMessage::new(PROTOCOL_ADP_G3, &[0x0A, 0x0B]).to_usi().unwrap();
    let mut with_extra = vec![0x7Eu8];
    with_extra.extend_from_slice(&encoded);
    let mut msg = decode_all(&with_extra);
    assert!(matches!(msg.get_state(), RxState::RxDone));
    msg.remove_header_and_crc();
    assert_eq!(msg.buf, vec![0x0A, 0x0B]);
}

#[test]
fn double_escape_is_error() {
    let bytes = [0x7Eu8, 0x7D, 0x7D, 0x7E];
    let msg = decode_all(&bytes);
    assert!(matches!(msg.get_state(), RxState::RxError));
}

#[test]
fn length_field_overrun_is_error() {
    // A header claiming five payload bytes when only two bytes follow
    // cannot pass the CRC check.
    let bytes = [0x7Eu8, 0x01, 0x64, 0x33, 0x44, 0x7E];
    let msg = decode_all(&bytes);
    assert_eq!(msg.protocol_type, Some(PROTOCOL_MAC_G3));
    assert_eq!(msg.get_payload_len(), 5);
    assert!(matches!(msg.get_state(), RxState::RxError));
}

#[test]
fn two_concatenated_frames_decode_in_order() {
    // S6: frames back to back, no gap; both come out, in order.
    let f1 = OutMessage::new(PROTOCOL_ADP_G3, &[0x01, 0x02]).to_usi().unwrap();
    let f2 = OutMessage::new(PROTOCOL_ADP_G3, &[0x03, 0x04, 0x05]).to_usi().unwrap();
    let mut stream: VecDeque<u8> = f1.iter().chain(f2.iter()).copied().collect();

    let mut msg = InMessage::new();
    msg.process(&mut stream);
    assert!(matches!(msg.get_state(), RxState::RxDone));
    msg.remove_header_and_crc();
    assert_eq!(msg.buf, vec![0x01, 0x02]);

    let mut msg2 = InMessage::new();
    msg2.process(&mut stream);
    assert!(matches!(msg2.get_state(), RxState::RxDone));
    msg2.remove_header_and_crc();
    assert_eq!(msg2.buf, vec![0x03, 0x04, 0x05]);
    assert!(stream.is_empty());
}

#[test]
fn idle_drops_noise_until_delimiter() {
    let mut noise_then_frame = vec![0x55u8, 0xAA, 0x10];
    noise_then_frame.extend_from_slice(&OutMessage::new(PROTOCOL_ADP_G3, &[0x09]).to_usi().unwrap());
    let mut msg = decode_all(&noise_then_frame);
    assert!(matches!(msg.get_state(), RxState::RxDone));
    msg.remove_header_and_crc();
    assert_eq!(msg.buf, vec![0x09]);
}

#[test]
fn process_header_reads_extended_length() {
    // A single in-progress receiver sees the tag only once three bytes of
    // an extended-protocol header are in.
    let mut msg = InMessage::new();
    msg.process_ch(0x7E);
    msg.process_ch(0x04); // LEN_HI of 0x10 << 2 ... payload length 17
    assert_eq!(msg.protocol_type, None);
    msg.process_ch(0x65); // (1 & 3) << 6 | ADP tag
    assert_eq!(msg.protocol_type, None, "extended header needs its third byte");
    msg.process_ch(0x01); // extension byte: no high bits, command 1
    assert_eq!(msg.protocol_type, Some(PROTOCOL_ADP_G3));
    assert_eq!(msg.get_payload_len(), 0x11);
}
