use http2::header::field::{HeaderField, HeaderName, HeaderValue};
use http2::header::list::HeaderList;
use http2::header::table::HeaderTable;

fn hf(name: &str, value: &str) -> HeaderField {
    HeaderField::new(
        HeaderName::new(name.as_bytes().to_vec()),
        HeaderValue::new(value.as_bytes().to_vec()),
    )
}

#[test]
pub fn test_header_list() {
    let mut header_table_sender = HeaderTable::new(4096);
    let mut header_table_receiver = HeaderTable::new(4096);

    // First request without Huffman coding.
    let header_list = HeaderList::new(vec![
        hf(":method", "GET"),
        hf(":scheme", "http"),
        hf(":path", "/"),
        hf(":authority", "www.example.com"),
    ]);
    let mut encoded_header_list = header_list.encode(&mut header_table_sender).unwrap();
    assert_eq!(
        encoded_header_list,
        vec![
            0x82, 0x86, 0x84, 0x41, 0x0f, 0x77, 0x77, 0x77, 0x2e, 0x65, 0x78, 0x61, 0x6d, 0x70,
            0x6c, 0x65, 0x2e, 0x63, 0x6f, 0x6d
        ]
    );
    assert_eq!(header_table_sender.get_dynamic_table_size(), 57);
    let decoded_header_list =
        HeaderList::decode(&mut encoded_header_list, &mut header_table_receiver).unwrap();
    assert_eq!(decoded_header_list, header_list);
    assert_eq!(header_table_receiver.get_dynamic_table_size(), 57);

    // Second request on the same connection.
    let header_list = HeaderList::new(vec![
        hf(":method", "GET"),
        hf(":scheme", "http"),
        hf(":path", "/"),
        hf(":authority", "www.example.com"),
        hf("cache-control", "no-cache"),
    ]);
    let mut encoded_header_list = header_list.encode(&mut header_table_sender).unwrap();
    assert_eq!(
        encoded_header_list,
        vec![0x82, 0x86, 0x84, 0xbe, 0x58, 0x08, 0x6e, 0x6f, 0x2d, 0x63, 0x61, 0x63, 0x68, 0x65]
    );
    assert_eq!(header_table_sender.get_dynamic_table_size(), 110);
    let decoded_header_list =
        HeaderList::decode(&mut encoded_header_list, &mut header_table_receiver).unwrap();
    assert_eq!(decoded_header_list, header_list);
    assert_eq!(header_table_receiver.get_dynamic_table_size(), 110);

    // Third request on the same connection.
    let header_list = HeaderList::new(vec![
        hf(":method", "GET"),
        hf(":scheme", "https"),
        hf(":path", "/index.html"),
        hf(":authority", "www.example.com"),
        hf("custom-key", "custom-value"),
    ]);
    let mut encoded_header_list = header_list.encode(&mut header_table_sender).unwrap();
    assert_eq!(
        encoded_header_list,
        vec![
            0x82, 0x87, 0x85, 0xbf, 0x40, 0x0a, 0x63, 0x75, 0x73, 0x74, 0x6f, 0x6d, 0x2d, 0x6b,
            0x65, 0x79, 0x0c, 0x63, 0x75, 0x73, 0x74, 0x6f, 0x6d, 0x2d, 0x76, 0x61, 0x6c, 0x75,
            0x65
        ]
    );
    assert_eq!(header_table_sender.get_dynamic_table_size(), 164);
    let decoded_header_list =
        HeaderList::decode(&mut encoded_header_list, &mut header_table_receiver).unwrap();
    assert_eq!(decoded_header_list, header_list);
    assert_eq!(header_table_receiver.get_dynamic_table_size(), 164);
}

#[test]
pub fn test_header_list_eviction() {
    let mut header_table_sender = HeaderTable::new(256);
    let mut header_table_receiver = HeaderTable::new(256);

    // First response.
    let header_list = HeaderList::new(vec![
        hf(":status", "302"),
        hf("cache-control", "private"),
        hf("date", "Mon, 21 Oct 2013 20:13:21 GMT"),
        hf("location", "https://www.example.com"),
    ]);
    let mut encoded_header_list = header_list.encode(&mut header_table_sender).unwrap();
    assert_eq!(
        encoded_header_list,
        vec![
            0x48, 0x03, 0x33, 0x30, 0x32, 0x58, 0x07, 0x70, 0x72, 0x69, 0x76, 0x61, 0x74, 0x65,
            0x61, 0x1d, 0x4d, 0x6f, 0x6e, 0x2c, 0x20, 0x32, 0x31, 0x20, 0x4f, 0x63, 0x74, 0x20,
            0x32, 0x30, 0x31, 0x33, 0x20, 0x32, 0x30, 0x3a, 0x31, 0x33, 0x3a, 0x32, 0x31, 0x20,
            0x47, 0x4d, 0x54, 0x6e, 0x17, 0x68, 0x74, 0x74, 0x70, 0x73, 0x3a, 0x2f, 0x2f, 0x77,
            0x77, 0x77, 0x2e, 0x65, 0x78, 0x61, 0x6d, 0x70, 0x6c, 0x65, 0x2e, 0x63, 0x6f, 0x6d
        ]
    );
    assert_eq!(header_table_sender.get_dynamic_table_size(), 222);
    let decoded_header_list =
        HeaderList::decode(&mut encoded_header_list, &mut header_table_receiver).unwrap();
    assert_eq!(decoded_header_list, header_list);
    assert_eq!(header_table_receiver.get_dynamic_table_size(), 222);

    // Second response: the oldest entry is evicted.
    let header_list = HeaderList::new(vec![
        hf(":status", "307"),
        hf("cache-control", "private"),
        hf("date", "Mon, 21 Oct 2013 20:13:21 GMT"),
        hf("location", "https://www.example.com"),
    ]);
    let mut encoded_header_list = header_list.encode(&mut header_table_sender).unwrap();
    assert_eq!(
        encoded_header_list,
        vec![0x48, 0x03, 0x33, 0x30, 0x37, 0xc1, 0xc0, 0xbf]
    );
    assert_eq!(header_table_sender.get_dynamic_table_size(), 222);
    let decoded_header_list =
        HeaderList::decode(&mut encoded_header_list, &mut header_table_receiver).unwrap();
    assert_eq!(decoded_header_list, header_list);
    assert_eq!(header_table_receiver.get_dynamic_table_size(), 222);

    // Third response: two more entries are evicted.
    let header_list = HeaderList::new(vec![
        hf(":status", "200"),
        hf("cache-control", "private"),
        hf("date", "Mon, 21 Oct 2013 20:13:22 GMT"),
        hf("location", "https://www.example.com"),
        hf("content-encoding", "gzip"),
        hf(
            "set-cookie",
            "foo=ASDJKHQKBZXOQWEOPIUAXQWEOIU; max-age=3600; version=1",
        ),
    ]);
    let mut encoded_header_list = header_list.encode(&mut header_table_sender).unwrap();
    assert_eq!(
        encoded_header_list,
        vec![
            0x88, 0xc1, 0x61, 0x1d, 0x4d, 0x6f, 0x6e, 0x2c, 0x20, 0x32, 0x31, 0x20, 0x4f, 0x63,
            0x74, 0x20, 0x32, 0x30, 0x31, 0x33, 0x20, 0x32, 0x30, 0x3a, 0x31, 0x33, 0x3a, 0x32,
            0x32, 0x20, 0x47, 0x4d, 0x54, 0xc0, 0x5a, 0x04, 0x67, 0x7a, 0x69, 0x70, 0x77, 0x38,
            0x66, 0x6f, 0x6f, 0x3d, 0x41, 0x53, 0x44, 0x4a, 0x4b, 0x48, 0x51, 0x4b, 0x42, 0x5a,
            0x58, 0x4f, 0x51, 0x57, 0x45, 0x4f, 0x50, 0x49, 0x55, 0x41, 0x58, 0x51, 0x57, 0x45,
            0x4f, 0x49, 0x55, 0x3b, 0x20, 0x6d, 0x61, 0x78, 0x2d, 0x61, 0x67, 0x65, 0x3d, 0x33,
            0x36, 0x30, 0x30, 0x3b, 0x20, 0x76, 0x65, 0x72, 0x73, 0x69, 0x6f, 0x6e, 0x3d, 0x31
        ]
    );
    assert_eq!(header_table_sender.get_dynamic_table_size(), 215);
    let decoded_header_list =
        HeaderList::decode(&mut encoded_header_list, &mut header_table_receiver).unwrap();
    assert_eq!(decoded_header_list, header_list);
    assert_eq!(header_table_receiver.get_dynamic_table_size(), 215);
}
