use http2::header::huffman;
use http2::header::primitive::HpackString;

#[test]
pub fn test_huffman() {
    // Literal name and value, sent raw: custom-key, custom-header.
    let mut encoded_data: Vec<u8> = vec![
        0x0a, 0x63, 0x75, 0x73, 0x74, 0x6f, 0x6d, 0x2d, 0x6b, 0x65, 0x79, 0x0d, 0x63, 0x75, 0x73,
        0x74, 0x6f, 0x6d, 0x2d, 0x68, 0x65, 0x61, 0x64, 0x65, 0x72,
    ];

    let custom_key = HpackString::decode(&mut encoded_data).unwrap();
    let custom_header = HpackString::decode(&mut encoded_data).unwrap();
    assert_eq!(custom_key.as_bytes(), &b"custom-key".to_vec());
    assert_eq!(custom_header.as_bytes(), &b"custom-header".to_vec());

    // A Huffman-coded date value, decoded directly.
    let encoded_data: Vec<u8> = vec![
        0xd0, 0x7a, 0xbe, 0x94, 0x10, 0x54, 0xd4, 0x44, 0xa8, 0x20, 0x05, 0x95, 0x04, 0x0b, 0x81,
        0x66, 0xe0, 0x82, 0xa6, 0x2d, 0x1b, 0xff,
    ];
    let decoded_data = huffman::decode(&encoded_data).unwrap();
    println!("decoded_data: {:?}", decoded_data);
    assert_eq!(decoded_data, b"Mon, 21 Oct 2013 20:13:21 GMT".to_vec());

    // The same value as a Huffman-coded string literal.
    let mut encoded_data: Vec<u8> = vec![
        0x96, 0xd0, 0x7a, 0xbe, 0x94, 0x10, 0x54, 0xd4, 0x44, 0xa8, 0x20, 0x05, 0x95, 0x04, 0x0b,
        0x81, 0x66, 0xe0, 0x82, 0xa6, 0x2d, 0x1b, 0xff,
    ];
    let s = HpackString::decode(&mut encoded_data).unwrap();
    println!("s: {:?}", s.as_bytes());
    assert_eq!(s.as_bytes(), &b"Mon, 21 Oct 2013 20:13:21 GMT".to_vec());
}
