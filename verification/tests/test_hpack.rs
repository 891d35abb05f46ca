use http2::header::field::{HeaderField, HeaderName, HeaderValue};
use http2::header::list::HeaderList;
use http2::header::primitive::{HpackInteger, HpackString};
use http2::header::representation::HeaderRepresentation;
use http2::header::table::HeaderTable;

fn hf(name: &str, value: &str) -> HeaderField {
    HeaderField::new(
        HeaderName::new(name.as_bytes().to_vec()),
        HeaderValue::new(value.as_bytes().to_vec()),
    )
}

#[test]
pub fn test_hpack_header_list_huffman() {
    let mut header_table = HeaderTable::new(4096);

    // Request example with Huffman coding, first request.
    let mut header_list_encoded: Vec<u8> = vec![
        0x82, 0x86, 0x84, 0x41, 0x8c, 0xf1, 0xe3, 0xc2, 0xe5, 0xf2, 0x3a, 0x6b, 0xa0, 0xab, 0x90,
        0xf4, 0xff,
    ];
    let header_list = HeaderList::decode(&mut header_list_encoded, &mut header_table).unwrap();
    let expected_header_list = HeaderList::new(vec![
        hf(":method", "GET"),
        hf(":scheme", "http"),
        hf(":path", "/"),
        hf(":authority", "www.example.com"),
    ]);
    assert_eq!(header_list, expected_header_list);

    // Second request on the same connection.
    let mut header_list_encoded: Vec<u8> = vec![
        0x82, 0x86, 0x84, 0xbe, 0x58, 0x86, 0xa8, 0xeb, 0x10, 0x64, 0x9c, 0xbf,
    ];
    let header_list = HeaderList::decode(&mut header_list_encoded, &mut header_table).unwrap();
    let expected_header_list = HeaderList::new(vec![
        hf(":method", "GET"),
        hf(":scheme", "http"),
        hf(":path", "/"),
        hf(":authority", "www.example.com"),
        hf("cache-control", "no-cache"),
    ]);
    assert_eq!(header_list, expected_header_list);

    // Third request on the same connection.
    let mut header_list_encoded: Vec<u8> = vec![
        0x82, 0x87, 0x85, 0xbf, 0x40, 0x88, 0x25, 0xa8, 0x49, 0xe9, 0x5b, 0xa9, 0x7d, 0x7f, 0x89,
        0x25, 0xa8, 0x49, 0xe9, 0x5b, 0xb8, 0xe8, 0xb4, 0xbf,
    ];
    let header_list = HeaderList::decode(&mut header_list_encoded, &mut header_table).unwrap();
    let expected_header_list = HeaderList::new(vec![
        hf(":method", "GET"),
        hf(":scheme", "https"),
        hf(":path", "/index.html"),
        hf(":authority", "www.example.com"),
        hf("custom-key", "custom-value"),
    ]);
    assert_eq!(header_list, expected_header_list);
}

#[test]
pub fn test_hpack_header_list_eviction() {
    let mut header_table = HeaderTable::new(256);

    let mut header_list_encoded: Vec<u8> = vec![
        0x48, 0x03, 0x33, 0x30, 0x32, 0x58, 0x07, 0x70, 0x72, 0x69, 0x76, 0x61, 0x74, 0x65, 0x61,
        0x1d, 0x4d, 0x6f, 0x6e, 0x2c, 0x20, 0x32, 0x31, 0x20, 0x4f, 0x63, 0x74, 0x20, 0x32, 0x30,
        0x31, 0x33, 0x20, 0x32, 0x30, 0x3a, 0x31, 0x33, 0x3a, 0x32, 0x31, 0x20, 0x47, 0x4d, 0x54,
        0x6e, 0x17, 0x68, 0x74, 0x74, 0x70, 0x73, 0x3a, 0x2f, 0x2f, 0x77, 0x77, 0x77, 0x2e, 0x65,
        0x78, 0x61, 0x6d, 0x70, 0x6c, 0x65, 0x2e, 0x63, 0x6f, 0x6d,
    ];
    let header_list = HeaderList::decode(&mut header_list_encoded, &mut header_table).unwrap();
    let expected_header_list = HeaderList::new(vec![
        hf(":status", "302"),
        hf("cache-control", "private"),
        hf("date", "Mon, 21 Oct 2013 20:13:21 GMT"),
        hf("location", "https://www.example.com"),
    ]);
    assert_eq!(header_list, expected_header_list);

    let mut header_list_encoded: Vec<u8> = vec![0x48, 0x03, 0x33, 0x30, 0x37, 0xc1, 0xc0, 0xbf];
    let header_list = HeaderList::decode(&mut header_list_encoded, &mut header_table).unwrap();
    let expected_header_list = HeaderList::new(vec![
        hf(":status", "307"),
        hf("cache-control", "private"),
        hf("date", "Mon, 21 Oct 2013 20:13:21 GMT"),
        hf("location", "https://www.example.com"),
    ]);
    assert_eq!(header_list, expected_header_list);

    let mut header_list_encoded: Vec<u8> = vec![
        0x88, 0xc1, 0x61, 0x1d, 0x4d, 0x6f, 0x6e, 0x2c, 0x20, 0x32, 0x31, 0x20, 0x4f, 0x63, 0x74,
        0x20, 0x32, 0x30, 0x31, 0x33, 0x20, 0x32, 0x30, 0x3a, 0x31, 0x33, 0x3a, 0x32, 0x32, 0x20,
        0x47, 0x4d, 0x54, 0xc0, 0x5a, 0x04, 0x67, 0x7a, 0x69, 0x70, 0x77, 0x38, 0x66, 0x6f, 0x6f,
        0x3d, 0x41, 0x53, 0x44, 0x4a, 0x4b, 0x48, 0x51, 0x4b, 0x42, 0x5a, 0x58, 0x4f, 0x51, 0x57,
        0x45, 0x4f, 0x50, 0x49, 0x55, 0x41, 0x58, 0x51, 0x57, 0x45, 0x4f, 0x49, 0x55, 0x3b, 0x20,
        0x6d, 0x61, 0x78, 0x2d, 0x61, 0x67, 0x65, 0x3d, 0x33, 0x36, 0x30, 0x30, 0x3b, 0x20, 0x76,
        0x65, 0x72, 0x73, 0x69, 0x6f, 0x6e, 0x3d, 0x31,
    ];
    let header_list = HeaderList::decode(&mut header_list_encoded, &mut header_table).unwrap();
    let expected_header_list = HeaderList::new(vec![
        hf(":status", "200"),
        hf("cache-control", "private"),
        hf("date", "Mon, 21 Oct 2013 20:13:22 GMT"),
        hf("location", "https://www.example.com"),
        hf("content-encoding", "gzip"),
        hf(
            "set-cookie",
            "foo=ASDJKHQKBZXOQWEOPIUAXQWEOIU; max-age=3600; version=1",
        ),
    ]);
    assert_eq!(header_list, expected_header_list);
}

#[test]
pub fn test_hpack_header_list_huffman_eviction() {
    let mut header_table = HeaderTable::new(256);

    let mut header_list_encoded = vec![
        0x48, 0x82, 0x64, 0x02, 0x58, 0x85, 0xae, 0xc3, 0x77, 0x1a, 0x4b, 0x61, 0x96, 0xd0, 0x7a,
        0xbe, 0x94, 0x10, 0x54, 0xd4, 0x44, 0xa8, 0x20, 0x05, 0x95, 0x04, 0x0b, 0x81, 0x66, 0xe0,
        0x82, 0xa6, 0x2d, 0x1b, 0xff, 0x6e, 0x91, 0x9d, 0x29, 0xad, 0x17, 0x18, 0x63, 0xc7, 0x8f,
        0x0b, 0x97, 0xc8, 0xe9, 0xae, 0x82, 0xae, 0x43, 0xd3,
    ];
    let header_list = HeaderList::decode(&mut header_list_encoded, &mut header_table).unwrap();
    let expected_header_list = HeaderList::new(vec![
        hf(":status", "302"),
        hf("cache-control", "private"),
        hf("date", "Mon, 21 Oct 2013 20:13:21 GMT"),
        hf("location", "https://www.example.com"),
    ]);
    assert_eq!(header_list, expected_header_list);

    let mut header_list_encoded = vec![0x48, 0x83, 0x64, 0x0e, 0xff, 0xc1, 0xc0, 0xbf];
    let header_list = HeaderList::decode(&mut header_list_encoded, &mut header_table).unwrap();
    let expected_header_list = HeaderList::new(vec![
        hf(":status", "307"),
        hf("cache-control", "private"),
        hf("date", "Mon, 21 Oct 2013 20:13:21 GMT"),
        hf("location", "https://www.example.com"),
    ]);
    assert_eq!(header_list, expected_header_list);

    let mut header_list_encoded: Vec<u8> = vec![
        0x88, 0xc1, 0x61, 0x96, 0xd0, 0x7a, 0xbe, 0x94, 0x10, 0x54, 0xd4, 0x44, 0xa8, 0x20, 0x05,
        0x95, 0x04, 0x0b, 0x81, 0x66, 0xe0, 0x84, 0xa6, 0x2d, 0x1b, 0xff, 0xc0, 0x5a, 0x83, 0x9b,
        0xd9, 0xab, 0x77, 0xad, 0x94, 0xe7, 0x82, 0x1d, 0xd7, 0xf2, 0xe6, 0xc7, 0xb3, 0x35, 0xdf,
        0xdf, 0xcd, 0x5b, 0x39, 0x60, 0xd5, 0xaf, 0x27, 0x08, 0x7f, 0x36, 0x72, 0xc1, 0xab, 0x27,
        0x0f, 0xb5, 0x29, 0x1f, 0x95, 0x87, 0x31, 0x60, 0x65, 0xc0, 0x03, 0xed, 0x4e, 0xe5, 0xb1,
        0x06, 0x3d, 0x50, 0x07,
    ];
    let header_list = HeaderList::decode(&mut header_list_encoded, &mut header_table).unwrap();
    let expected_header_list = HeaderList::new(vec![
        hf(":status", "200"),
        hf("cache-control", "private"),
        hf("date", "Mon, 21 Oct 2013 20:13:22 GMT"),
        hf("location", "https://www.example.com"),
        hf("content-encoding", "gzip"),
        hf(
            "set-cookie",
            "foo=ASDJKHQKBZXOQWEOPIUAXQWEOIU; max-age=3600; version=1",
        ),
    ]);
    assert_eq!(header_list, expected_header_list);
}

#[test]
pub fn test_hpack_test_hpack_integer() {
    // Encoding and decoding 10 using a 5-bit prefix.
    let mask: u8 = 0b10100000;
    let integer = HpackInteger::from(10 as u128);

    let mut encoded_integer = integer.encode(5).unwrap();
    assert_eq!(encoded_integer.len(), 1);

    encoded_integer[0] = encoded_integer[0] + mask;
    assert_eq!(0b10101010, encoded_integer[0]);

    encoded_integer.push(0b00010110);

    let decoded_integer = HpackInteger::decode(5, &mut encoded_integer).unwrap();
    assert_eq!(HpackInteger::from(10 as u128), decoded_integer);
    assert_eq!(encoded_integer.len(), 1);
    assert_eq!(encoded_integer[0], 0b00010110);

    // Encoding and decoding 1337 using a 5-bit prefix.
    let mask: u8 = 0b10100000;
    let integer = HpackInteger::from(1337 as u128);

    let mut encoded_integer = integer.encode(5).unwrap();
    assert_eq!(encoded_integer.len(), 3);

    encoded_integer[0] = encoded_integer[0] + mask;
    assert_eq!(vec![0b10111111, 0b10011010, 0b00001010], encoded_integer);

    encoded_integer.push(0b11111010);

    let decoded_integer = HpackInteger::decode(5, &mut encoded_integer).unwrap();
    assert_eq!(HpackInteger::from(1337 as u128), decoded_integer);
    assert_eq!(encoded_integer.len(), 1);
    assert_eq!(encoded_integer[0], 0b11111010);

    // Encoding and decoding 42 starting at an octet boundary.
    let integer = HpackInteger::from(42 as u128);

    let mut encoded_integer = integer.encode(8).unwrap();
    assert_eq!(vec![0b00101010], encoded_integer);

    encoded_integer.push(0b11111010);

    let decoded_integer = HpackInteger::decode(8, &mut encoded_integer).unwrap();
    assert_eq!(HpackInteger::from(42 as u128), decoded_integer);
    assert_eq!(encoded_integer.len(), 1);
    assert_eq!(encoded_integer[0], 0b11111010);
}

#[test]
pub fn test_hpack_test_hpack_string() {}

#[test]
pub fn test_hpack_test_hpack_header_field() {
    // Literal header field with indexing: custom-key: custom-header.
    let mut header_table = HeaderTable::new(4096);

    let header_field = hf("custom-key", "custom-header");
    let header_representation = header_field.into_representation(&mut header_table);
    let mut bytes = header_representation.encode(false, false);
    assert!(
        bytes
            == vec![
                0x40, 0x0a, 0x63, 0x75, 0x73, 0x74, 0x6f, 0x6d, 0x2d, 0x6b, 0x65, 0x79, 0x0d, 0x63,
                0x75, 0x73, 0x74, 0x6f, 0x6d, 0x2d, 0x68, 0x65, 0x61, 0x64, 0x65, 0x72
            ]
    );

    let mut header_table = HeaderTable::new(4096);
    let header_representation = HeaderRepresentation::decode(&mut bytes).unwrap();
    let header_field =
        HeaderField::from_representation(header_representation, &mut header_table).unwrap();
    assert_eq!(
        header_field.clone().unwrap().name(),
        HeaderName::new(b"custom-key".to_vec())
    );
    assert_eq!(
        header_field.clone().unwrap().value(),
        HeaderValue::new(b"custom-header".to_vec())
    );
    assert_eq!(header_table.get_dynamic_table_size(), 55);

    // Literal header field without indexing: :path: /sample/path.
    let mut header_table = HeaderTable::new(4096);
    let header_field = hf(":path", "/sample/path");
    let header_representation = header_field.into_representation_without_indexing(&header_table);
    let mut bytes = header_representation.encode(false, false);
    assert!(
        bytes
            == vec![
                0x04, 0x0c, 0x2f, 0x73, 0x61, 0x6d, 0x70, 0x6c, 0x65, 0x2f, 0x70, 0x61, 0x74, 0x68
            ]
    );

    let mut header_table = HeaderTable::new(4096);
    let header_representation = HeaderRepresentation::decode(&mut bytes).unwrap();
    let header_field =
        HeaderField::from_representation(header_representation, &mut header_table).unwrap();
    assert_eq!(
        header_field.clone().unwrap().name(),
        HeaderName::new(b":path".to_vec())
    );
    assert_eq!(
        header_field.clone().unwrap().value(),
        HeaderValue::new(b"/sample/path".to_vec())
    );
    assert_eq!(header_table.get_dynamic_table_size(), 0);

    // Literal header field never indexed: password: secret.
    let mut header_table = HeaderTable::new(4096);
    let header_field = hf("password", "secret");
    let header_representation = header_field.into_representation_never_index(&header_table);
    let mut bytes = header_representation.encode(false, false);
    assert!(
        bytes
            == vec![
                0x10, 0x08, 0x70, 0x61, 0x73, 0x73, 0x77, 0x6f, 0x72, 0x64, 0x06, 0x73, 0x65, 0x63,
                0x72, 0x65, 0x74
            ]
    );

    let mut header_table = HeaderTable::new(4096);
    let header_representation = HeaderRepresentation::decode(&mut bytes).unwrap();
    let header_field =
        HeaderField::from_representation(header_representation, &mut header_table).unwrap();
    assert_eq!(
        header_field.clone().unwrap().name(),
        HeaderName::new(b"password".to_vec())
    );
    assert_eq!(
        header_field.clone().unwrap().value(),
        HeaderValue::new(b"secret".to_vec())
    );
    assert_eq!(header_table.get_dynamic_table_size(), 0);

    // Indexed header field: :method: GET.
    let mut header_table = HeaderTable::new(4096);
    let header_field = hf(":method", "GET");
    let header_representation = header_field.into_representation(&mut header_table);
    let mut bytes = header_representation.encode(false, false);
    assert!(bytes == vec![0x82]);

    let mut header_table = HeaderTable::new(4096);
    let header_representation = HeaderRepresentation::decode(&mut bytes).unwrap();
    let header_field =
        HeaderField::from_representation(header_representation, &mut header_table).unwrap();
    assert_eq!(
        header_field.clone().unwrap().name(),
        HeaderName::new(b":method".to_vec())
    );
    assert_eq!(
        header_field.clone().unwrap().value(),
        HeaderValue::new(b"GET".to_vec())
    );
    assert_eq!(header_table.get_dynamic_table_size(), 0);
}

#[test]
pub fn test_hpack_header_list() {
    let mut header_table = HeaderTable::new(4096);

    // First request without Huffman coding.
    let mut header_list_encoded: Vec<u8> = vec![
        0x82, 0x86, 0x84, 0x41, 0x0f, 0x77, 0x77, 0x77, 0x2e, 0x65, 0x78, 0x61, 0x6d, 0x70, 0x6c,
        0x65, 0x2e, 0x63, 0x6f, 0x6d,
    ];
    let header_list = HeaderList::decode(&mut header_list_encoded, &mut header_table).unwrap();
    let expected_header_list = HeaderList::new(vec![
        hf(":method", "GET"),
        hf(":scheme", "http"),
        hf(":path", "/"),
        hf(":authority", "www.example.com"),
    ]);
    assert_eq!(header_list, expected_header_list);

    // Second request on the same connection.
    let mut header_list_encoded: Vec<u8> = vec![
        0x82, 0x86, 0x84, 0xbe, 0x58, 0x08, 0x6e, 0x6f, 0x2d, 0x63, 0x61, 0x63, 0x68, 0x65,
    ];
    let header_list = HeaderList::decode(&mut header_list_encoded, &mut header_table).unwrap();
    let expected_header_list = HeaderList::new(vec![
        hf(":method", "GET"),
        hf(":scheme", "http"),
        hf(":path", "/"),
        hf(":authority", "www.example.com"),
        hf("cache-control", "no-cache"),
    ]);
    assert_eq!(header_list, expected_header_list);

    // Third request on the same connection.
    let mut header_list_encoded: Vec<u8> = vec![
        0x82, 0x87, 0x85, 0xbf, 0x40, 0x0a, 0x63, 0x75, 0x73, 0x74, 0x6f, 0x6d, 0x2d, 0x6b, 0x65,
        0x79, 0x0c, 0x63, 0x75, 0x73, 0x74, 0x6f, 0x6d, 0x2d, 0x76, 0x61, 0x6c, 0x75, 0x65,
    ];
    let header_list = HeaderList::decode(&mut header_list_encoded, &mut header_table).unwrap();
    let expected_header_list = HeaderList::new(vec![
        hf(":method", "GET"),
        hf(":scheme", "https"),
        hf(":path", "/index.html"),
        hf(":authority", "www.example.com"),
        hf("custom-key", "custom-value"),
    ]);
    assert_eq!(header_list, expected_header_list);
}
