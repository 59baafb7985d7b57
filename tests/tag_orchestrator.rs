use spoolease::tag::{start_status, tag_text_for_uid, read_result_status, write_result_status, Failure, SpoolTag, Status, TagAction};

#[test]
fn debounce_same_tag() {
    let mut t = SpoolTag::new();
    let uid = vec![1u8, 2, 3, 4];
    let a = t.on_tag_detected(&uid, 1000);
    assert!(matches!(a, TagAction::Read));
    assert!(matches!(start_status(&a), Some(Status::FoundTagNowReading)));
    t.on_operation_done(1000);
    assert!(matches!(t.on_tag_detected(&uid, 1200), TagAction::Ignore));
    assert!(start_status(&TagAction::Ignore).is_none());
    assert!(matches!(t.on_tag_detected(&uid, 1700), TagAction::Read));
    t.on_operation_done(1700);
    assert!(matches!(t.on_tag_detected(&vec![9u8], 1701), TagAction::Read));
}

#[test]
fn pending_write_consumed_once() {
    let mut t = SpoolTag::new();
    t.write_tag("text", 3);
    match t.on_tag_detected(&vec![7u8], 10) {
        TagAction::Write(w) => {
            assert_eq!(w.text, "text");
            assert_eq!(w.tray_id, 3);
        }
        _ => panic!("write expected"),
    }
    t.on_operation_done(10);
    t.on_poll_timeout();
    assert!(matches!(t.on_tag_detected(&vec![7u8], 20), TagAction::Read));
}

#[test]
fn cancel_drops_pending() {
    let mut t = SpoolTag::new();
    t.write_tag("text", 3);
    t.cancel_operation();
    assert!(matches!(t.on_tag_detected(&vec![7u8], 10), TagAction::Read));
}

#[test]
fn poll_error_reports_failure() {
    let mut t = SpoolTag::new();
    t.write_tag("x", 1);
    assert!(matches!(t.on_poll_error(), Status::Failure(Failure::TagWriteFailure)));
    assert!(matches!(t.on_poll_error(), Status::Failure(Failure::TagReadFailure)));
}

#[test]
fn completion_statuses() {
    assert!(matches!(write_result_status(true, 5), Status::WriteSuccess(5)));
    assert!(matches!(write_result_status(false, 5), Status::Failure(Failure::TagWriteFailure)));
    match read_result_status(Some("abc".to_string())) {
        Status::ReadSuccess(s) => assert_eq!(s, "abc"),
        _ => panic!("read success expected"),
    }
    assert!(matches!(read_result_status(None), Status::Failure(Failure::TagReadFailure)));
}

#[test]
fn tag_id_is_url_safe_base64_without_padding() {
    let r = tag_text_for_uid("ID=$tag-id$&X=$tag-id$", &vec![0xfbu8, 0xff, 0x01, 0x02]);
    assert_eq!(r, "ID=-_8BAg&X=-_8BAg");
}
