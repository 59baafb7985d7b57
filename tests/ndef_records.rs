use spoolease::ndef::{fits_tag_message, message_size_of, record_from_message, NDEFStructure, Record};

#[test]
fn text_record_bytes() {
    let mut r = Record::new_text_record_en("hi");
    r.update();
    assert_eq!(r.to_bytes(), vec![0xD1, 0x01, 0x05, 0x54, 0x02, 0x65, 0x6e, 0x68, 0x69]);
    assert_eq!(r.en_text_payload().as_deref(), Some("hi"));
}

#[test]
fn tag_image_is_page_aligned() {
    let s = NDEFStructure::new(Record::new_text_record_en("hi"));
    let bytes = s.to_bytes();
    assert_eq!(bytes.len() % 4, 0);
    assert_eq!(&bytes[0..6], &[0xE1, 0x10, 2, 0x00, 0x03, 9]);
    assert_eq!(bytes[15], 0xFE);
    let s = NDEFStructure::new(Record::new_text_record_en("abc"));
    let bytes = s.to_bytes();
    assert_eq!(bytes.len(), 20);
    assert_eq!(&bytes[17..20], &[0, 0, 0]);
}

#[test]
fn url_record_abbreviates_prefix() {
    let url = "https://info.filament3d.org/V1?ID=abc";
    let r = Record::new_url_record(url);
    assert_eq!(r.payload_data[0], 4);
    assert_eq!(&r.payload_data[1..], "info.filament3d.org/V1?ID=abc".as_bytes());
    assert_eq!(r.url_payload().as_deref(), Some(url));
    let w = Record::new_url_record("http://www.example.com");
    assert_eq!(w.payload_data[0], 1);
    assert_eq!(w.url_payload().as_deref(), Some("http://www.example.com"));
    let other = Record::new_url_record("tel:123");
    assert_eq!(other.payload_data, vec![0, b't', b'e', b'l', b':', b'1', b'2', b'3']);
    assert_eq!(other.url_payload().as_deref(), Some("tel:123"));
}

#[test]
fn record_read_back_from_tag_bytes() {
    let url = "https://info.filament3d.org/V1?ID=x&M=PLA";
    let s = NDEFStructure::new(Record::new_url_record(url));
    let bytes = s.to_bytes();
    assert_eq!(message_size_of(&bytes[0..8].to_vec()), Some(bytes[5]));
    let size = bytes[5] as usize;
    let message = bytes[4..4 + size + 2].to_vec();
    let r = record_from_message(&message).expect("record");
    assert_eq!(r.url_payload().as_deref(), Some(url));
    assert!(r.message_begin && r.message_end && r.short_record);
}

#[test]
fn truncated_record_is_rejected() {
    assert!(Record::from_bytes(&vec![0xD1, 0x01, 0x05, 0x54, 0x02]).is_none());
    assert!(Record::from_bytes(&vec![0xD1]).is_none());
    assert!(record_from_message(&vec![3]).is_none());
}

#[test]
fn invalid_utf8_url_is_none() {
    let r = Record::from_bytes(&vec![0xD1, 0x01, 0x03, 0x55, 0x04, 0xff, 0xfe]).expect("record");
    assert!(r.url_payload().is_none());
}

#[test]
fn long_record_uses_four_length_bytes() {
    let text = "x".repeat(300);
    let mut r = Record::new_text_record_en(&text);
    r.update();
    let bytes = r.to_bytes();
    assert_eq!(bytes[0], 0xC1);
    assert_eq!(&bytes[2..6], &[0, 0, 1, 47]);
    let back = Record::from_bytes(&bytes).expect("record");
    assert_eq!(back.payload_data.len(), 303);
    assert_eq!(back.en_text_payload().as_deref(), Some(text.as_str()));
}

#[test]
fn tag_message_size_limit() {
    assert!(fits_tag_message(&Record::new_url_record("https://info.filament3d.org/V1?ID=x")));
    let long = format!("https://{}", "a".repeat(300));
    assert!(!fits_tag_message(&Record::new_url_record(&long)));
}
