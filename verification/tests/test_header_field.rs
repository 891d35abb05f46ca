use http2::header::field::{HeaderField, HeaderName, HeaderValue};
use http2::header::representation::HeaderRepresentation;
use http2::header::table::HeaderTable;

#[test]
pub fn test_header_field_test_hpack_header_field() {
    // Literal header field with indexing: custom-key: custom-header.
    let mut header_table = HeaderTable::new(4096);

    let header_name = HeaderName::new(b"custom-key".to_vec());
    let header_value = HeaderValue::new(b"custom-header".to_vec());
    let header_field = HeaderField::new(header_name, header_value);

    let header_representation = header_field.into_representation(&mut header_table);
    let mut bytes = header_representation.encode(false, false);
    assert!(
        bytes
            == vec![
                0x40, 0x0a, 0x63, 0x75, 0x73, 0x74, 0x6f, 0x6d, 0x2d, 0x6b, 0x65, 0x79, 0x0d, 0x63,
                0x75, 0x73, 0x74, 0x6f, 0x6d, 0x2d, 0x68, 0x65, 0x61, 0x64, 0x65, 0x72
            ]
    );

    let mut header_table = HeaderTable::new(4096);
    let header_representation = HeaderRepresentation::decode(&mut bytes).unwrap();
    let header_field =
        HeaderField::from_representation(header_representation, &mut header_table).unwrap();
    assert_eq!(
        header_field.clone().unwrap().name(),
        HeaderName::new(b"custom-key".to_vec())
    );
    assert_eq!(
        header_field.clone().unwrap().value(),
        HeaderValue::new(b"custom-header".to_vec())
    );
    assert_eq!(header_table.get_dynamic_table_size(), 55);

    // Literal header field without indexing: :path: /sample/path.
    let mut header_table = HeaderTable::new(4096);
    let header_name = HeaderName::new(b":path".to_vec());
    let header_value = HeaderValue::new(b"/sample/path".to_vec());
    let header_field = HeaderField::new(header_name, header_value);

    let header_representation = header_field.into_representation_without_indexing(&header_table);
    let mut bytes = header_representation.encode(false, false);
    assert!(
        bytes
            == vec![
                0x04, 0x0c, 0x2f, 0x73, 0x61, 0x6d, 0x70, 0x6c, 0x65, 0x2f, 0x70, 0x61, 0x74, 0x68
            ]
    );

    let mut header_table = HeaderTable::new(4096);
    let header_representation = HeaderRepresentation::decode(&mut bytes).unwrap();
    let header_field =
        HeaderField::from_representation(header_representation, &mut header_table).unwrap();
    assert_eq!(
        header_field.clone().unwrap().name(),
        HeaderName::new(b":path".to_vec())
    );
    assert_eq!(
        header_field.clone().unwrap().value(),
        HeaderValue::new(b"/sample/path".to_vec())
    );
    assert_eq!(header_table.get_dynamic_table_size(), 0);

    // Literal header field never indexed: password: secret.
    let mut header_table = HeaderTable::new(4096);
    let header_name = HeaderName::new(b"password".to_vec());
    let header_value = HeaderValue::new(b"secret".to_vec());
    let header_field = HeaderField::new(header_name, header_value);

    let header_representation = header_field.into_representation_never_index(&header_table);
    let mut bytes = header_representation.encode(false, false);
    assert!(
        bytes
            == vec![
                0x10, 0x08, 0x70, 0x61, 0x73, 0x73, 0x77, 0x6f, 0x72, 0x64, 0x06, 0x73, 0x65, 0x63,
                0x72, 0x65, 0x74
            ]
    );

    let mut header_table = HeaderTable::new(4096);
    let header_representation = HeaderRepresentation::decode(&mut bytes).unwrap();
    let header_field =
        HeaderField::from_representation(header_representation, &mut header_table).unwrap();
    assert_eq!(
        header_field.clone().unwrap().name(),
        HeaderName::new(b"password".to_vec())
    );
    assert_eq!(
        header_field.clone().unwrap().value(),
        HeaderValue::new(b"secret".to_vec())
    );
    assert_eq!(header_table.get_dynamic_table_size(), 0);

    // Indexed header field: :method: GET.
    let mut header_table = HeaderTable::new(4096);
    let header_name = HeaderName::new(b":method".to_vec());
    let header_value = HeaderValue::new(b"GET".to_vec());
    let header_field = HeaderField::new(header_name, header_value);

    let header_representation = header_field.into_representation(&mut header_table);
    let mut bytes = header_representation.encode(false, false);
    assert!(bytes == vec![0x82]);

    let mut header_table = HeaderTable::new(4096);
    let header_representation = HeaderRepresentation::decode(&mut bytes).unwrap();
    let header_field =
        HeaderField::from_representation(header_representation, &mut header_table).unwrap();
    assert_eq!(
        header_field.clone().unwrap().name(),
        HeaderName::new(b":method".to_vec())
    );
    assert_eq!(
        header_field.clone().unwrap().value(),
        HeaderValue::new(b"GET".to_vec())
    );
    assert_eq!(header_table.get_dynamic_table_size(), 0);
}
