use deviceid::store::{absorb_already_set, decode_record, get, get_or_generate, settle_reread,
    MemStorage};
use deviceid::{DevDeviceId, Error};

#[test]
fn test_get_or_generate_idempotent() {
    let mut s = MemStorage::new();
    let id = get_or_generate(&mut s, &DevDeviceId::generate()).unwrap();
    let id2 = get_or_generate(&mut s, &DevDeviceId::generate()).unwrap();
    assert_eq!(id, id2);
    let id3 = get(&s).unwrap().unwrap();
    assert_eq!(id, id3);
}

#[test]
fn test_get_returns_none_when_no_device_id_exists() {
    let s = MemStorage::new();
    let result = get(&s);
    assert!(result.is_ok(), "get() should not return an error");
    match result.unwrap() {
        Some(id) => println!("Device ID exists in registry: {}", id.render()),
        None => println!("No device ID found in registry"),
    }
}

#[test]
fn test_get_or_generate_creates_id_when_missing() {
    let mut s = MemStorage::new();
    let id1 = get_or_generate(&mut s, &DevDeviceId::generate());
    assert!(id1.is_ok(), "get_or_generate() should not return an error");
    let id2 = get_or_generate(&mut s, &DevDeviceId::generate());
    assert!(id2.is_ok(), "get_or_generate() should not return an error");
    assert_eq!(id1.unwrap(), id2.unwrap(), "get_or_generate() should be idempotent");
}

#[test]
fn test_get_retrieves_stored_id() {
    let mut s = MemStorage::new();
    let stored_id = get_or_generate(&mut s, &DevDeviceId::generate()).unwrap();
    let retrieved = get(&s).unwrap();
    assert!(retrieved.is_some(), "get() should return Some after get_or_generate()");
    assert_eq!(retrieved.unwrap(), stored_id, "Retrieved ID should match stored ID");
}

#[test]
fn corrupt_record_is_a_format_error() {
    let s = MemStorage::with_raw_record(b"not-a-uuid".to_vec());
    assert!(matches!(get(&s), Err(Error::BadUuidFormat(_))));
    let mut s2 = MemStorage::with_raw_record(b"not-a-uuid".to_vec());
    let r = get_or_generate(&mut s2, &DevDeviceId::generate());
    assert!(matches!(r, Err(Error::BadUuidFormat(_))));
}

#[test]
fn store_never_overwrites() {
    let mut s = MemStorage::new();
    let first = DevDeviceId::from_bits(0x11111111222233334444555555555555u128);
    let second = DevDeviceId::from_bits(0x99999999888877776666555555555555u128);
    assert!(s.store(&first).is_ok());
    assert!(matches!(s.store(&second), Err(Error::AlreadySet)));
    assert_eq!(get(&s).unwrap().unwrap(), first);
}

#[test]
fn trailing_newline_is_tolerated() {
    let id = DevDeviceId::from_bits(0xa1a2a3a4b1b2c1c2d1d2d3d4d5d6d7d8u128);
    let mut raw = id.render_bytes();
    raw.push(b'\n');
    let s = MemStorage::with_raw_record(raw);
    assert_eq!(get(&s).unwrap().unwrap(), id);
}

#[test]
fn decode_record_cases() {
    assert!(matches!(decode_record(None), Ok(None)));
    let text: &[u8] = b"a1a2a3a4-b1b2-c1c2-d1d2-d3d4d5d6d7d8";
    match decode_record(Some(text)) {
        Ok(Some(id)) => assert_eq!(id.bits, 0xa1a2a3a4b1b2c1c2d1d2d3d4d5d6d7d8u128),
        _ => panic!("expected a decoded identifier"),
    }
    assert!(matches!(decode_record(Some(b"garbage")), Err(Error::BadUuidFormat(_))));
}

#[test]
fn end_to_end_fresh_environment() {
    let mut s = MemStorage::new();
    assert!(matches!(get(&s), Ok(None)));
    let x = get_or_generate(&mut s, &DevDeviceId::generate()).unwrap();
    assert_eq!(get(&s).unwrap().unwrap(), x);
    let again = get_or_generate(&mut s, &DevDeviceId::generate()).unwrap();
    assert_eq!(again, x);
}

#[test]
fn existing_record_wins_over_fresh_candidate() {
    let winner = DevDeviceId::from_bits(5);
    let mut s = MemStorage::new();
    s.store(&winner).unwrap();
    let r = get_or_generate(&mut s, &DevDeviceId::from_bits(7)).unwrap();
    assert_eq!(r, winner);
}

#[test]
fn race_recovery_helpers() {
    assert!(matches!(absorb_already_set(Err(Error::AlreadySet)), Ok(())));
    assert!(matches!(absorb_already_set(Ok(())), Ok(())));
    let disk = Error::StorageError("disk unavailable".to_string());
    assert!(matches!(absorb_already_set(Err(disk)), Err(Error::StorageError(_))));

    let fresh = DevDeviceId::from_bits(7);
    let winner = DevDeviceId::from_bits(5);
    assert_eq!(settle_reread(Ok(None), &fresh).unwrap(), fresh);
    assert_eq!(settle_reread(Ok(Some(winner)), &fresh).unwrap(), winner);
    assert!(matches!(settle_reread(Err(Error::AlreadySet), &fresh), Err(Error::AlreadySet)));
}
