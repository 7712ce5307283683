use abi_toolkit::keys::{check_public_key, KeyError};
use abi_toolkit::message::{call_header, unsigned_external_call, Expiration, ExpireAt};

#[test]
fn expire_is_reference_plus_timeout() {
    let t: u64 = 1_700_000_000;
    let header = call_header(t * 1000 + 999, 60, None);
    assert_eq!(header.expire as u64, t + 60);
    assert_eq!(header.time, t * 1000 + 999);
    assert_eq!(header.pubkey, None);
}

#[test]
fn same_reference_time_gives_same_header() {
    let a = call_header(1_650_000_000_123, 30, None);
    let b = call_header(1_650_000_000_123, 30, None);
    assert_eq!(a, b);
}

#[test]
fn expiry_saturates() {
    let e = ExpireAt::new_from_millis(Expiration::Timeout(u32::MAX), 5_000);
    assert_eq!(e.timestamp, u32::MAX);
    assert_eq!(ExpireAt::new_from_millis(Expiration::Never, 5_000).timestamp, u32::MAX);
    assert_eq!(ExpireAt::new_from_millis(Expiration::Timestamp(77), 5_000).timestamp, 77);
    assert_eq!(ExpireAt::new_from_millis(Expiration::Timeout(10), 5_000).timestamp, 15);
}

#[test]
fn unsigned_call_keeps_state_init() {
    let call = unsigned_external_call("0:aa".to_string(), Some("te6init".to_string()), 2_000, 60);
    assert_eq!(call.state_init, Some("te6init".to_string()));
    assert_eq!(call.header.expire, 62);
    assert_eq!(call.header.pubkey, None);
    assert_eq!(call.dst, "0:aa");
}

#[test]
fn accepts_a_valid_public_key() {
    let key = "5866666666666666666666666666666666666666666666666666666666666666";
    let bytes = check_public_key(key).unwrap();
    assert_eq!(bytes.len(), 32);
    assert_eq!(bytes[0], 0x58);
    assert_eq!(bytes[1], 0x66);
}

#[test]
fn refuses_bad_public_keys() {
    assert_eq!(check_public_key("zz"), Err(KeyError::InvalidHex));
    assert_eq!(check_public_key("abc"), Err(KeyError::InvalidHex));
    assert_eq!(check_public_key("0011"), Err(KeyError::InvalidKey));
}
