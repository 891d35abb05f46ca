use http2::error::Http2Error;
use http2::frame::Frame;
use http2::header::table::HeaderTable;

#[test]
pub fn test_frame_go_away_test_goaway_frame() {
    // A GOAWAY frame whose declared length is 5: a GOAWAY payload must be
    // at least eight octets, so parsing fails with a frame error.
    let mut bytes: Vec<u8> = vec![
        0x00, 0x00, 0x05, // Length = 5
        0x07, // Frame Type = GOAWAY
        0x00, // Flags = None
        0x00, 0x00, 0x00, 0x06, // Stream Identifier = 6
        0x00, 0x00, 0x00, 0x05, // Last Stream Identifier = 5
        0x00, 0x00, 0x00, 0x01, // Error Code = 1
        0x48, 0x65, 0x6c, 0x6c, 0x6f, 0x2c, 0x20, 0x57, 0x6f, 0x72, 0x6c, 0x64, 0x21,
    ];
    let mut header_table = HeaderTable::new(4096);
    let result = Frame::deserialize(&mut bytes, &mut header_table);
    assert_eq!(result.unwrap_err(), Http2Error::FrameError);
}
