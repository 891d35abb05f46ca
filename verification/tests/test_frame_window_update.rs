use http2::frame::Frame;
use http2::header::table::HeaderTable;

#[test]
pub fn test_window_update_frame() {
    // Parsing a WINDOW_UPDATE frame.
    let mut bytes: Vec<u8> = vec![
        0x00, 0x00, 0x04, // Length = 4
        0x08, // Frame Type = WINDOW_UPDATE
        0x00, // Flags = None
        0x00, 0x00, 0x00, 0x04, // Stream Identifier = 4
        0x00, 0x00, 0x00, 0xff, // Window Size Increment = 255
    ];
    let mut header_table = HeaderTable::new(4096);
    let frame = Frame::deserialize(&mut bytes, &mut header_table).unwrap();
    println!("{:?}", frame);
}
