use http2::error::Http2Error;
use http2::frame::data::DataFrame;
use http2::frame::Frame;
use http2::header::field::{HeaderField, HeaderName, HeaderValue};
use http2::header::huffman;
use http2::header::list::HeaderList;
use http2::header::primitive::{HpackInteger, HpackString};
use http2::header::table::HeaderTable;
use http2::start::connection_preface;

fn hf(name: &str, value: &str) -> HeaderField {
    HeaderField::new(
        HeaderName::new(name.as_bytes().to_vec()),
        HeaderValue::new(value.as_bytes().to_vec()),
    )
}

#[test]
fn test_first_request_without_huffman() {
    // First request of the worked example, raw strings, table 4096.
    let mut header_table = HeaderTable::new(4096);
    let mut bytes: Vec<u8> = vec![
        0x82, 0x86, 0x84, 0x41, 0x0f, 0x77, 0x77, 0x77, 0x2e, 0x65, 0x78, 0x61, 0x6d, 0x70, 0x6c,
        0x65, 0x2e, 0x63, 0x6f, 0x6d,
    ];
    let list = HeaderList::decode(&mut bytes, &mut header_table).unwrap();
    let expected = HeaderList::new(vec![
        hf(":method", "GET"),
        hf(":scheme", "http"),
        hf(":path", "/"),
        hf(":authority", "www.example.com"),
    ]);
    assert_eq!(list, expected);
    assert_eq!(header_table.get_dynamic_table_size(), 57);
    // The newest entry sits at unified index 62.
    let newest = header_table.get(62).unwrap();
    assert_eq!(newest.name(), HeaderName::new(b":authority".to_vec()));
    assert_eq!(newest.value(), HeaderValue::new(b"www.example.com".to_vec()));
}

#[test]
fn test_second_request_same_connection() {
    let mut header_table = HeaderTable::new(4096);
    let mut bytes: Vec<u8> = vec![
        0x82, 0x86, 0x84, 0x41, 0x0f, 0x77, 0x77, 0x77, 0x2e, 0x65, 0x78, 0x61, 0x6d, 0x70, 0x6c,
        0x65, 0x2e, 0x63, 0x6f, 0x6d,
    ];
    HeaderList::decode(&mut bytes, &mut header_table).unwrap();
    let mut bytes: Vec<u8> = vec![
        0x82, 0x86, 0x84, 0xbe, 0x58, 0x08, 0x6e, 0x6f, 0x2d, 0x63, 0x61, 0x63, 0x68, 0x65,
    ];
    let list = HeaderList::decode(&mut bytes, &mut header_table).unwrap();
    let expected = HeaderList::new(vec![
        hf(":method", "GET"),
        hf(":scheme", "http"),
        hf(":path", "/"),
        hf(":authority", "www.example.com"),
        hf("cache-control", "no-cache"),
    ]);
    assert_eq!(list, expected);
    assert_eq!(header_table.get_dynamic_table_size(), 110);
    let newest = header_table.get(62).unwrap();
    assert_eq!(newest.name(), HeaderName::new(b"cache-control".to_vec()));
}

#[test]
fn test_huffman_string_round_trip() {
    // A Huffman-coded string literal: H=1, length 12, "www.example.com".
    let mut bytes: Vec<u8> = vec![
        0x8c, 0xf1, 0xe3, 0xc2, 0xe5, 0xf2, 0x3a, 0x6b, 0xa0, 0xab, 0x90, 0xf4, 0xff,
    ];
    let s = HpackString::decode(&mut bytes).unwrap();
    assert_eq!(s.as_bytes(), &b"www.example.com".to_vec());
    assert_eq!(bytes.len(), 0);

    // Encoding it again gives the same octets.
    let reencoded = s.encode(true).unwrap();
    assert_eq!(
        reencoded,
        vec![0x8c, 0xf1, 0xe3, 0xc2, 0xe5, 0xf2, 0x3a, 0x6b, 0xa0, 0xab, 0x90, 0xf4, 0xff]
    );

    // Round trips through the Huffman codec for arbitrary octets.
    let data: Vec<u8> = vec![0, 1, 2, 3, 255, 254, 128, 127, 77];
    let encoded = huffman::encode(&data);
    assert_eq!(huffman::decode(&encoded).unwrap(), data);

    let empty: Vec<u8> = Vec::new();
    let encoded = huffman::encode(&empty);
    assert_eq!(encoded.len(), 0);
    assert_eq!(huffman::decode(&encoded).unwrap(), empty);
}

#[test]
fn test_raw_string_round_trip() {
    let s = HpackString::new(b"hello world".to_vec());
    let mut encoded = s.encode(false).unwrap();
    assert_eq!(encoded[0], 11);
    let decoded = HpackString::decode(&mut encoded).unwrap();
    assert_eq!(decoded.as_bytes(), &b"hello world".to_vec());

    // An empty string is legal in both directions.
    let s = HpackString::new(Vec::new());
    let mut encoded = s.encode(false).unwrap();
    assert_eq!(encoded, vec![0x00]);
    let decoded = HpackString::decode(&mut encoded).unwrap();
    assert_eq!(decoded.as_bytes(), &Vec::new());
}

#[test]
fn test_integer_boundary() {
    // For every prefix size, 2^n - 2 fits in one octet and 2^n - 1 needs
    // a continuation.
    for n in 1..9u8 {
        let max_prefix: u128 = (1u128 << n) - 1;
        let one_octet = HpackInteger::new(max_prefix - 1).encode(n).unwrap();
        assert_eq!(one_octet.len(), 1);
        let two_octets = HpackInteger::new(max_prefix).encode(n).unwrap();
        assert!(two_octets.len() >= 2);
    }
    // The worked example: 1337 with a 5-bit prefix.
    assert_eq!(
        HpackInteger::new(1337).encode(5).unwrap(),
        vec![0x1f, 0x9a, 0x0a]
    );
}

#[test]
fn test_integer_errors() {
    // A prefix size outside 1..=8 is rejected.
    assert_eq!(
        HpackInteger::new(1).encode(0).unwrap_err(),
        Http2Error::HpackError
    );
    assert_eq!(
        HpackInteger::new(1).encode(9).unwrap_err(),
        Http2Error::HpackError
    );
    // An empty buffer is truncated.
    let mut empty: Vec<u8> = Vec::new();
    assert_eq!(
        HpackInteger::decode(5, &mut empty).unwrap_err(),
        Http2Error::Truncated
    );
    // A saturated prefix with no terminating octet is truncated.
    let mut bytes: Vec<u8> = vec![0x1f, 0x80, 0x80];
    assert_eq!(
        HpackInteger::decode(5, &mut bytes).unwrap_err(),
        Http2Error::Truncated
    );
    // An accumulator overflow is reported as an HPACK error.
    let mut bytes: Vec<u8> = vec![0xff; 1];
    for _ in 0..19 {
        bytes.push(0xff);
    }
    bytes.push(0x7f);
    assert_eq!(
        HpackInteger::decode(8, &mut bytes).unwrap_err(),
        Http2Error::HpackError
    );
}

#[test]
fn test_huffman_errors() {
    // Padding bits that are not all ones fail: one symbol then zeros.
    let bytes: Vec<u8> = vec![0x18];
    assert_eq!(
        huffman::decode(&bytes).unwrap_err(),
        Http2Error::HuffmanDecodingError
    );
    // A full EOS code inside the stream fails.
    let bytes: Vec<u8> = vec![0xff, 0xff, 0xff, 0xff, 0x07];
    assert_eq!(
        huffman::decode(&bytes).unwrap_err(),
        Http2Error::HuffmanDecodingError
    );
}

#[test]
fn test_indexation_errors() {
    let header_table = HeaderTable::new(4096);
    // Index zero is outside the unified index space.
    assert_eq!(header_table.get(0).unwrap_err(), Http2Error::IndexationError);
    // An index past the static table of an empty connection is outside
    // too.
    assert_eq!(
        header_table.get(62).unwrap_err(),
        Http2Error::IndexationError
    );
    // The whole static table is addressable.
    let first = header_table.get(1).unwrap();
    assert_eq!(first.name(), HeaderName::new(b":authority".to_vec()));
    let last = header_table.get(61).unwrap();
    assert_eq!(last.name(), HeaderName::new(b"www-authenticate".to_vec()));
}

#[test]
fn test_table_size_invariant() {
    // After inserts and size updates the size is the sum of the entry
    // sizes and stays within the capacity.
    let mut header_table = HeaderTable::new(100);
    header_table.add_entry(hf("aa", "bbb"));  // size 37
    assert_eq!(header_table.get_dynamic_table_size(), 37);
    header_table.add_entry(hf("cc", "ddd"));  // size 37, total 74
    assert_eq!(header_table.get_dynamic_table_size(), 74);
    header_table.add_entry(hf("ee", "fff"));  // would be 111: evicts the oldest
    assert_eq!(header_table.get_dynamic_table_size(), 74);
    // An entry too large for the table empties it and is not inserted.
    header_table.add_entry(hf("name-that-is-long", "value-that-is-far-too-long-to-keep-in-a-table-of-one-hundred-octets-so-everything-goes"));
    assert_eq!(header_table.get_dynamic_table_size(), 0);
    // A size update evicts from the oldest end.
    header_table.add_entry(hf("aa", "bbb"));
    header_table.add_entry(hf("cc", "ddd"));
    header_table.set_max_size(40);
    assert_eq!(header_table.get_dynamic_table_size(), 37);
    let newest = header_table.get(62).unwrap();
    assert_eq!(newest.name(), HeaderName::new(b"cc".to_vec()));
}

#[test]
fn test_newest_first() {
    // Inserting entries that all fit keeps the newest at index 62.
    let mut header_table = HeaderTable::new(4096);
    header_table.add_entry(hf("one", "1"));
    header_table.add_entry(hf("two", "2"));
    header_table.add_entry(hf("three", "3"));
    assert_eq!(
        header_table.get(62).unwrap().name(),
        HeaderName::new(b"three".to_vec())
    );
    assert_eq!(
        header_table.get(63).unwrap().name(),
        HeaderName::new(b"two".to_vec())
    );
    assert_eq!(
        header_table.get(64).unwrap().name(),
        HeaderName::new(b"one".to_vec())
    );
}

#[test]
fn test_encoder_decoder_lockstep() {
    // Sender and receiver stay in lockstep over several lists with a
    // small table forcing evictions.
    let mut sender = HeaderTable::new(128);
    let mut receiver = HeaderTable::new(128);
    let lists = vec![
        HeaderList::new(vec![hf("alpha", "1"), hf("beta", "2")]),
        HeaderList::new(vec![hf("alpha", "1"), hf("gamma", "3")]),
        HeaderList::new(vec![hf("delta", "4"), hf("alpha", "5")]),
    ];
    for list in lists {
        let mut encoded = list.encode(&mut sender).unwrap();
        let decoded = HeaderList::decode(&mut encoded, &mut receiver).unwrap();
        assert_eq!(decoded, list);
        assert_eq!(
            sender.get_dynamic_table_size(),
            receiver.get_dynamic_table_size()
        );
    }
}

#[test]
fn test_data_frame_padding_scenario() {
    // A padded DATA frame: two trailing padding octets are stripped and
    // the buffer advances by exactly the whole frame.
    let mut bytes: Vec<u8> = vec![
        0x00, 0x00, 0x0e, 0x00, 0x09, 0x00, 0x00, 0x00, 0x01, 0x02, 0x48, 0x65, 0x6c, 0x6c, 0x6f,
        0x2c, 0x20, 0x57, 0x6f, 0x72, 0x6c, 0x64, 0x21,
    ];
    assert_eq!(bytes.len(), 23);
    let mut header_table = HeaderTable::new(4096);
    let frame = Frame::deserialize(&mut bytes, &mut header_table).unwrap();
    assert_eq!(bytes.len(), 0);
    match frame {
        Frame::Data(d) => {
            assert_eq!(d.stream_id, 1);
            assert!(d.end_stream);
            assert_eq!(d.data, b"Hello, Worl".to_vec());
        },
        _ => panic!("expected a DATA frame"),
    }
}

#[test]
fn test_settings_ack_consistency() {
    // A SETTINGS acknowledgement with a non-zero length fails.
    let mut bytes: Vec<u8> = vec![
        0x00, 0x00, 0x06, 0x04, 0x01, 0x00, 0x00, 0x00, 0x00, 0x00, 0x01, 0x00, 0x00, 0x00, 0x01,
    ];
    let mut header_table = HeaderTable::new(4096);
    assert_eq!(
        Frame::deserialize(&mut bytes, &mut header_table).unwrap_err(),
        Http2Error::FrameError
    );

    // With length zero it decodes to an empty acknowledgement.
    let mut bytes: Vec<u8> = vec![0x00, 0x00, 0x00, 0x04, 0x01, 0x00, 0x00, 0x00, 0x00];
    let frame = Frame::deserialize(&mut bytes, &mut header_table).unwrap();
    match frame {
        Frame::Settings(s) => {
            assert!(s.ack);
            assert_eq!(s.settings_parameters.len(), 0);
        },
        _ => panic!("expected a SETTINGS frame"),
    }

    // A length that is not a multiple of six fails.
    let mut bytes: Vec<u8> = vec![
        0x00, 0x00, 0x05, 0x04, 0x00, 0x00, 0x00, 0x00, 0x00, 0x00, 0x01, 0x00, 0x00, 0x00,
    ];
    assert_eq!(
        Frame::deserialize(&mut bytes, &mut header_table).unwrap_err(),
        Http2Error::FrameError
    );

    // An unknown identifier is skipped, not rejected.
    let mut bytes: Vec<u8> = vec![
        0x00, 0x00, 0x0c, 0x04, 0x00, 0x00, 0x00, 0x00, 0x00, 0x00, 0x63, 0x00, 0x00, 0x00, 0x01,
        0x00, 0x05, 0x00, 0x00, 0x40, 0x00,
    ];
    let frame = Frame::deserialize(&mut bytes, &mut header_table).unwrap();
    match frame {
        Frame::Settings(s) => {
            assert_eq!(s.settings_parameters.len(), 1);
        },
        _ => panic!("expected a SETTINGS frame"),
    }
}

#[test]
fn test_unknown_frame_type() {
    let mut bytes: Vec<u8> = vec![0x00, 0x00, 0x00, 0x0a, 0x00, 0x00, 0x00, 0x00, 0x01];
    let mut header_table = HeaderTable::new(4096);
    assert_eq!(
        Frame::deserialize(&mut bytes, &mut header_table).unwrap_err(),
        Http2Error::UnknownFrameType
    );
}

#[test]
fn test_truncated_frame() {
    // Fewer than nine octets cannot hold a frame header.
    let mut bytes: Vec<u8> = vec![0x00, 0x00, 0x04, 0x08];
    let mut header_table = HeaderTable::new(4096);
    assert_eq!(
        Frame::deserialize(&mut bytes, &mut header_table).unwrap_err(),
        Http2Error::Truncated
    );
    // A declared payload longer than the buffer is truncated too.
    let mut bytes: Vec<u8> = vec![0x00, 0x00, 0x04, 0x08, 0x00, 0x00, 0x00, 0x00, 0x04, 0x00];
    assert_eq!(
        Frame::deserialize(&mut bytes, &mut header_table).unwrap_err(),
        Http2Error::Truncated
    );
}

#[test]
fn test_connection_preface() {
    assert_eq!(connection_preface(), b"PRI * HTTP/2.0\r\n\r\nSM\r\n\r\n".to_vec());
}

#[test]
fn test_data_frame_serialize_with_padding() {
    let frame = DataFrame::new(1, false, b"hi".to_vec());
    let bytes = frame.serialize(Some(vec![0x00, 0x00, 0x00]));
    assert_eq!(
        bytes,
        vec![
            0x00, 0x00, 0x06, 0x00, 0x08, 0x00, 0x00, 0x00, 0x01, 0x03, 0x68, 0x69, 0x00, 0x00,
            0x00
        ]
    );
}

#[test]
fn test_failed_dispatch_leaves_stream() {
    // A malformed payload reports the payload parser's error and leaves
    // the stream untouched.
    let original: Vec<u8> = vec![
        0x00, 0x00, 0x03, // Length = 3: not a multiple of six
        0x04, // Frame Type = SETTINGS
        0x00, 0x00, 0x00, 0x00, 0x00, 0x01, 0x02, 0x03,
    ];
    let mut bytes = original.clone();
    let mut header_table = HeaderTable::new(4096);
    assert_eq!(
        Frame::deserialize(&mut bytes, &mut header_table).unwrap_err(),
        Http2Error::FrameError
    );
    assert_eq!(bytes, original);

    // A HEADERS frame whose block holds an invalid index propagates the
    // HPACK indexation error.
    let original: Vec<u8> = vec![
        0x00, 0x00, 0x01, // Length = 1
        0x01, // Frame Type = HEADERS
        0x00, 0x00, 0x00, 0x00, 0x03, 0xff, // indexed form, index far past the table
    ];
    let mut bytes = original.clone();
    assert_eq!(
        Frame::deserialize(&mut bytes, &mut header_table).unwrap_err(),
        Http2Error::Truncated
    );
    assert_eq!(bytes, original);

    // Index 70 with an empty dynamic table is outside the unified space.
    let original: Vec<u8> = vec![
        0x00, 0x00, 0x01, 0x01, 0x00, 0x00, 0x00, 0x00, 0x03, 0xc6,
    ];
    let mut bytes = original.clone();
    assert_eq!(
        Frame::deserialize(&mut bytes, &mut header_table).unwrap_err(),
        Http2Error::IndexationError
    );
    assert_eq!(bytes, original);
}
