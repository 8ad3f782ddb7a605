use can_protocol_adapter::decoder::{DecodeError, Decoder};
use can_protocol_adapter::signal::{load_frame_word, ByteOrder, SignalLayout};

fn layout(start_bit: u64, bit_width: u64, byte_order: ByteOrder) -> SignalLayout {
    SignalLayout { start_bit, bit_width, byte_order }
}

fn decoder_with(name: &str, l: SignalLayout) -> Decoder {
    Decoder::new(vec![(name.to_string(), l)])
}

#[test]
fn little_endian_start_bit_seven_reads_second_byte() {
    let d = decoder_with("Speed", layout(7, 8, ByteOrder::LittleEndian));
    let payload = [0x00, 0x2A, 0, 0, 0, 0, 0, 0];
    assert_eq!(d.decode_message_by_name("Speed", &payload), Ok(0x2A));
}

#[test]
fn big_endian_field_follows_the_shift_formula() {
    // (word >> (64 - (7 + 1 + 8))) & 0xFF takes the second byte of the frame.
    let d = decoder_with("Speed", layout(7, 8, ByteOrder::BigEndian));
    assert_eq!(d.decode_message_by_name("Speed", &[0x00, 0x2A, 0, 0, 0, 0, 0, 0]), Ok(0x2A));
    assert_eq!(d.decode_message_by_name("Speed", &[0x2A, 0, 0, 0, 0, 0, 0, 0]), Ok(0x00));
}

#[test]
fn big_endian_field_at_the_top_of_the_word() {
    // start_bit 55, width 8: shift 0, the last byte of the frame.
    let d = decoder_with("S", layout(55, 8, ByteOrder::BigEndian));
    assert_eq!(d.decode_message_by_name("S", &[1, 2, 3, 4, 5, 6, 7, 0x99]), Ok(0x99));
}

#[test]
fn engine_speed_response_decodes_to_one_hundred() {
    let d = decoder_with("EngineSpeed", layout(23, 8, ByteOrder::LittleEndian));
    let raw = d.decode_message_by_name("EngineSpeed", &[0x02, 0x01, 0x00, 0x64]).unwrap();
    assert_eq!(raw, 100);
    assert_eq!(raw as f64 * 0.25 + 0.0, 25.0);
}

#[test]
fn short_payload_is_padded_with_zeros() {
    assert_eq!(load_frame_word(&[0x12, 0x34], ByteOrder::BigEndian), 0x1234_0000_0000_0000);
    assert_eq!(load_frame_word(&[0x12, 0x34], ByteOrder::LittleEndian), 0x3412);
    assert_eq!(load_frame_word(&[], ByteOrder::LittleEndian), 0);
}

#[test]
fn full_frame_loads_in_both_orders() {
    let p = [1, 2, 3, 4, 5, 6, 7, 8];
    assert_eq!(load_frame_word(&p, ByteOrder::BigEndian), 0x0102_0304_0506_0708);
    assert_eq!(load_frame_word(&p, ByteOrder::LittleEndian), 0x0807_0605_0403_0201);
}

#[test]
fn unknown_signal_is_reported() {
    let d = decoder_with("A", layout(7, 8, ByteOrder::LittleEndian));
    assert_eq!(d.decode_message_by_name("B", &[1]), Err(DecodeError::UnknownSignal));
    assert_eq!(Decoder::new(vec![]).decode_message_by_name("A", &[1]), Err(DecodeError::UnknownSignal));
}

#[test]
fn oversized_payload_is_malformed() {
    let d = decoder_with("A", layout(7, 8, ByteOrder::LittleEndian));
    let payload = [0u8; 9];
    assert_eq!(d.decode_message_by_name("A", &payload), Err(DecodeError::MalformedPayload));
}

#[test]
fn field_outside_the_word_is_refused() {
    let be = decoder_with("A", layout(60, 8, ByteOrder::BigEndian));
    assert_eq!(be.decode_message_by_name("A", &[0]), Err(DecodeError::FieldOutOfFrame));
    let le = decoder_with("A", layout(63, 1, ByteOrder::LittleEndian));
    assert_eq!(le.decode_message_by_name("A", &[0]), Err(DecodeError::FieldOutOfFrame));
    let wide = decoder_with("A", layout(0, 65, ByteOrder::LittleEndian));
    assert_eq!(wide.decode_message_by_name("A", &[0]), Err(DecodeError::FieldOutOfFrame));
}

#[test]
fn widest_little_endian_field() {
    let d = decoder_with("A", layout(0, 64, ByteOrder::LittleEndian));
    let p = [0xFF; 8];
    assert_eq!(d.decode_message_by_name("A", &p), Ok(u64::MAX >> 1));
}

#[test]
fn later_signal_of_the_same_name_wins() {
    let mut d = Decoder::new(vec![
        ("A".to_string(), layout(7, 8, ByteOrder::LittleEndian)),
        ("A".to_string(), layout(15, 8, ByteOrder::LittleEndian)),
    ]);
    let p = [0, 1, 2, 3];
    assert_eq!(d.decode_message_by_name("A", &p), Ok(2));
    assert_eq!(d.lookup("A"), Some(layout(15, 8, ByteOrder::LittleEndian)));
    d.insert("A".to_string(), layout(-1i64 as u64, 8, ByteOrder::LittleEndian));
    assert_eq!(d.decode_message_by_name("A", &p), Err(DecodeError::FieldOutOfFrame));
    d.insert("B".to_string(), layout(23, 8, ByteOrder::LittleEndian));
    assert_eq!(d.decode_message_by_name("B", &p), Ok(3));
    assert_eq!(d.lookup("C"), None);
}

#[test]
fn decoding_twice_gives_the_same_value() {
    let d = decoder_with("A", layout(11, 12, ByteOrder::BigEndian));
    let p = [0xDE, 0xAD, 0xBE, 0xEF, 1, 2, 3, 4];
    let first = d.decode_message_by_name("A", &p);
    let second = d.decode_message_by_name("A", &p);
    assert_eq!(first, second);
    assert_eq!(first, Ok(0xDBE));
}

#[test]
fn encoded_value_decodes_back() {
    for l in [
        layout(23, 8, ByteOrder::LittleEndian),
        layout(3, 16, ByteOrder::LittleEndian),
        layout(7, 8, ByteOrder::BigEndian),
        layout(20, 13, ByteOrder::BigEndian),
    ] {
        let d = decoder_with("S", l);
        for raw in [0u64, 1, 100, 0xFF] {
            let frame = l.encode_raw(raw);
            assert_eq!(frame.len(), 8);
            assert_eq!(d.decode_message_by_name("S", &frame), Ok(raw));
        }
    }
}

#[test]
fn encoding_places_the_field_in_the_frame() {
    let le = layout(23, 8, ByteOrder::LittleEndian);
    assert_eq!(le.encode_raw(0x64), vec![0, 0, 0, 0x64, 0, 0, 0, 0]);
    let be = layout(7, 8, ByteOrder::BigEndian);
    assert_eq!(be.encode_raw(0x2A), vec![0, 0x2A, 0, 0, 0, 0, 0, 0]);
}

#[test]
fn field_extraction_masks_and_shifts() {
    let l = layout(3, 4, ByteOrder::LittleEndian);
    assert_eq!(l.extract_field(0b1011_0000), 0b1011);
    assert!(l.is_in_frame());
    assert_eq!(l.raw_value(&[0xF0]), 0xF);
}
