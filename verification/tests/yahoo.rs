use touch_fish::platform::yahoo::{decode_pricing_bytes, decode_pricing_message, read_varint, wire_pricing};

#[test]
fn reads_varints() {
    assert_eq!(read_varint(&[0x96, 0x01], 0), Some((150, 2)));
    assert_eq!(read_varint(&[0x05], 0), Some((5, 1)));
    assert_eq!(read_varint(&[0x80], 0), None);
    assert_eq!(read_varint(&[0x01, 0xac, 0x02], 1), Some((300, 3)));
}

#[test]
fn decodes_pricing_fields() {
    // field 1 (symbol) "AAPL", field 2 (price) 1.5f32, field 3 (time) 150,
    // field 5 (exchange) "NMS", field 27 (price hint) 2, an unknown varint
    // field 9 that is skipped.
    let mut bytes = vec![0x0a, 4, b'A', b'A', b'P', b'L'];
    bytes.push(0x15);
    bytes.extend_from_slice(&1.5f32.to_le_bytes());
    bytes.extend_from_slice(&[0x18, 0x96, 0x01]);
    bytes.extend_from_slice(&[0x2a, 3, b'N', b'M', b'S']);
    bytes.extend_from_slice(&[0x48, 0x07]);
    bytes.extend_from_slice(&[0xd8, 0x01, 0x02]);
    let p = decode_pricing_bytes(&bytes);
    assert_eq!(p.symbol.as_deref(), Some("AAPL"));
    assert_eq!(p.price_bits.map(f32::from_bits), Some(1.5));
    assert_eq!(p.time, Some(150));
    assert_eq!(p.exchange.as_deref(), Some("NMS"));
    assert_eq!(p.price_hint, Some(2));
    assert_eq!(p.quote_type, None);
}

#[test]
fn decodes_base64_messages() {
    // "CgRBQVBM" is base64 of [0x0a, 4, 'A', 'A', 'P', 'L'].
    let p = decode_pricing_message("CgRBQVBM").unwrap();
    assert_eq!(p.symbol.as_deref(), Some("AAPL"));
    assert!(decode_pricing_message("not base64!").is_err());
    assert!(wire_pricing("pricing", Some("CgRBQVBM")).is_some());
    assert!(wire_pricing("heartbeat", Some("CgRBQVBM")).is_none());
    assert!(wire_pricing("pricing", None).is_none());
}

#[test]
fn truncated_field_stops_decoding() {
    let p = decode_pricing_bytes(&[0x0a, 10, b'A']);
    assert_eq!(p.symbol, None);
}
