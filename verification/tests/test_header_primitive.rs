use http2::header::primitive::HpackInteger;

#[test]
pub fn test_header_primitive_test_hpack_integer() {
    // Encoding and decoding 10 using a 5-bit prefix.
    let mask: u8 = 0b10100000;
    let integer = HpackInteger::from(10 as u128);

    let mut encoded_integer = integer.encode(5).unwrap();
    assert_eq!(encoded_integer.len(), 1);

    encoded_integer[0] = encoded_integer[0] + mask;
    assert_eq!(0b10101010, encoded_integer[0]);

    encoded_integer.push(0b00010110);

    let decoded_integer = HpackInteger::decode(5, &mut encoded_integer).unwrap();
    assert_eq!(HpackInteger::from(10 as u128), decoded_integer);
    assert_eq!(encoded_integer.len(), 1);
    assert_eq!(encoded_integer[0], 0b00010110);

    // Encoding and decoding 1337 using a 5-bit prefix.
    let mask: u8 = 0b10100000;
    let integer = HpackInteger::from(1337 as u128);

    let mut encoded_integer = integer.encode(5).unwrap();
    assert_eq!(encoded_integer.len(), 3);

    encoded_integer[0] = encoded_integer[0] + mask;
    assert_eq!(vec![0b10111111, 0b10011010, 0b00001010], encoded_integer);

    encoded_integer.push(0b11111010);

    let decoded_integer = HpackInteger::decode(5, &mut encoded_integer).unwrap();
    assert_eq!(HpackInteger::from(1337 as u128), decoded_integer);
    assert_eq!(encoded_integer.len(), 1);
    assert_eq!(encoded_integer[0], 0b11111010);

    // Encoding and decoding 42 starting at an octet boundary.
    let integer = HpackInteger::from(42 as u128);

    let mut encoded_integer = integer.encode(8).unwrap();
    assert_eq!(vec![0b00101010], encoded_integer);

    encoded_integer.push(0b11111010);

    let decoded_integer = HpackInteger::decode(8, &mut encoded_integer).unwrap();
    assert_eq!(HpackInteger::from(42 as u128), decoded_integer);
    assert_eq!(encoded_integer.len(), 1);
    assert_eq!(encoded_integer[0], 0b11111010);
}

#[test]
pub fn test_header_primitive_test_hpack_string() {}
