use lxc::{from_foreign, from_foreign_nta, to_foreign, to_foreign_argv, CBuf, Error, Nta};

#[test]
fn text_round_trip_ascii() {
    let buf = to_foreign("lxc.rootfs.path").unwrap();
    let back = from_foreign(&buf).unwrap();
    assert_eq!(back, "lxc.rootfs.path");
}

#[test]
fn text_round_trip_empty() {
    let buf = to_foreign("").unwrap();
    assert_eq!(buf.len(), 0);
    let back = from_foreign(&buf).unwrap();
    assert_eq!(back, "");
}

#[test]
fn text_round_trip_multibyte() {
    // A multi-byte encoding must survive the crossing unchanged; a bridge
    // that handed bytes through as one-byte characters would corrupt it.
    let text = "b\u{00e9}zier \u{2603} \u{1f980}";
    let buf = to_foreign(text).unwrap();
    let back = from_foreign(&buf).unwrap();
    assert_eq!(back, text);
}

#[test]
fn to_foreign_rejects_embedded_null() {
    let r = to_foreign("lxc.net.0\0.type");
    assert_eq!(r.unwrap_err(), Error::Encoding);
}

#[test]
fn to_foreign_rejects_leading_and_trailing_null() {
    assert_eq!(to_foreign("\0abc").unwrap_err(), Error::Encoding);
    assert_eq!(to_foreign("abc\0").unwrap_err(), Error::Encoding);
}

#[test]
fn from_foreign_rejects_invalid_utf8() {
    // 0xFF is never valid UTF-8; the inbound bridge must notice rather than
    // hand the bytes back as text.
    let buf = CBuf::from_content(vec![0xFF, 0x41]).unwrap();
    assert_eq!(from_foreign(&buf).unwrap_err(), Error::Encoding);
}

#[test]
fn from_content_rejects_null_byte() {
    assert!(CBuf::from_content(vec![0x61, 0x00, 0x62]).is_none());
    assert!(CBuf::from_content(vec![0x61, 0x62]).is_some());
}

#[test]
fn argv_round_trip() {
    let items = vec![
        "-d".to_string(),
        "alpine".to_string(),
        "-r".to_string(),
        "3.14".to_string(),
        "-a".to_string(),
        "amd64".to_string(),
    ];
    let arr = to_foreign_argv(&items).unwrap().unwrap();
    let back = from_foreign_nta(&arr).unwrap();
    assert_eq!(back, items);
}

#[test]
fn argv_empty_is_null_array() {
    let items: Vec<String> = Vec::new();
    let arr = to_foreign_argv(&items).unwrap();
    assert!(arr.is_none());
}

#[test]
fn argv_rejects_embedded_null() {
    let items = vec!["ok".to_string(), "bad\0arg".to_string()];
    assert_eq!(to_foreign_argv(&items).unwrap_err(), Error::Encoding);
}

#[test]
fn nta_leading_sentinel_is_empty_and_slot_one_is_never_read() {
    // The slot after the sentinel holds bytes that are not valid UTF-8:
    // reading it would fail, so an empty result shows it was never read.
    let garbage = CBuf::from_content(vec![0xFF, 0xFE]).unwrap();
    let arr = Nta { slots: vec![None, Some(garbage)] };
    let back = from_foreign_nta(&arr).unwrap();
    assert!(back.is_empty());
}

#[test]
fn nta_stops_at_first_sentinel() {
    let a = CBuf::from_content(b"one".to_vec()).unwrap();
    let b = CBuf::from_content(vec![0xFF]).unwrap();
    let arr = Nta { slots: vec![Some(a), None, Some(b)] };
    let back = from_foreign_nta(&arr).unwrap();
    assert_eq!(back, vec!["one".to_string()]);
}

#[test]
fn nta_reports_invalid_entry_before_sentinel() {
    let a = CBuf::from_content(vec![0xFF]).unwrap();
    let arr = Nta { slots: vec![Some(a), None] };
    assert_eq!(from_foreign_nta(&arr).unwrap_err(), Error::Encoding);
}

#[test]
fn cbuf_raw_bytes_carry_one_terminator() {
    let buf = to_foreign("ab").unwrap();
    assert_eq!(buf.raw_bytes(), vec![0x61, 0x62, 0x00]);
    assert_eq!(buf.len(), 2);
}
