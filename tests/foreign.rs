use abi_toolkit::foreign::{ForeignText, ToOptionalStringFromPtr, ToStringFromPtr};

#[test]
fn reads_present_text() {
    let t = ForeignText { bytes: Some("héllo".as_bytes().to_vec()) };
    assert!(t.is_readable());
    assert_eq!(t.to_string_from_ptr(), "héllo");
}

#[test]
fn null_text_is_none() {
    let t = ForeignText { bytes: None };
    assert!(!t.is_readable());
    assert_eq!(t.to_optional_string_from_ptr(), None);
    let s = ForeignText { bytes: Some(b"abi".to_vec()) };
    assert_eq!(s.to_optional_string_from_ptr(), Some("abi".to_string()));
}

#[test]
fn invalid_utf8_is_not_readable() {
    let t = ForeignText { bytes: Some(vec![0xff, 0xfe]) };
    assert!(!t.is_readable());
}
