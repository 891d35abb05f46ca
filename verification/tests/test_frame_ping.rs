use http2::error::Http2Error;
use http2::frame::Frame;
use http2::header::table::HeaderTable;

#[test]
pub fn test_ping_frame() {
    // A PING frame whose declared length is 5: a PING payload must be
    // exactly eight octets, so parsing fails with a frame error.
    let mut bytes: Vec<u8> = vec![
        0x00, 0x00, 0x05, // Length = 5
        0x06, // Frame Type = PING
        0x01, // Flags = Ack
        0x00, 0x00, 0x00, 0x08, // Stream Identifier = 8
        0x00, 0x00, 0x00, 0x00, 0x00, 0x00, 0x00, 0x01, // Opaque Data = 1
    ];
    let mut header_table = HeaderTable::new(4096);
    let result = Frame::deserialize(&mut bytes, &mut header_table);
    assert_eq!(result.unwrap_err(), Http2Error::FrameError);

    // The same opaque data behind a correct length parses.
    let mut bytes: Vec<u8> = vec![
        0x00, 0x00, 0x08, 0x06, 0x01, 0x00, 0x00, 0x00, 0x08, 0x00, 0x00, 0x00, 0x00, 0x00, 0x00,
        0x00, 0x01,
    ];
    let frame = Frame::deserialize(&mut bytes, &mut header_table).unwrap();
    println!("{:?}", frame);
}
