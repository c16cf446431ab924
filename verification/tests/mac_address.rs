use ruuvitag_listener::mac_address::{MacAddress, ParseMacError};
use ruuvitag_listener::scanner::format_address;
use std::collections::HashMap;

#[test]
fn test_display() {
    let addr = MacAddress([0xAA, 0xBB, 0xCC, 0xDD, 0xEE, 0xFF]);
    assert_eq!(addr.to_string(), "AA:BB:CC:DD:EE:FF");
}

#[test]
fn test_display_with_zeros() {
    let addr = MacAddress([0x00, 0x01, 0x02, 0x03, 0x04, 0x05]);
    assert_eq!(addr.to_string(), "00:01:02:03:04:05");
}

#[test]
fn test_from_str() {
    let addr: MacAddress = "AA:BB:CC:DD:EE:FF".parse().unwrap();
    assert_eq!(addr.0, [0xAA, 0xBB, 0xCC, 0xDD, 0xEE, 0xFF]);
}

#[test]
fn test_from_str_lowercase() {
    let addr: MacAddress = "aa:bb:cc:dd:ee:ff".parse().unwrap();
    assert_eq!(addr.0, [0xAA, 0xBB, 0xCC, 0xDD, 0xEE, 0xFF]);
}

#[test]
fn test_from_str_invalid() {
    assert!(matches!(
        "invalid".parse::<MacAddress>(),
        Err(ParseMacError::InvalidLength(1))
    ));
    assert!(matches!(
        "AA:BB:CC".parse::<MacAddress>(),
        Err(ParseMacError::InvalidLength(3))
    ));
    assert!(matches!(
        "AA:BB:CC:DD:EE:GG".parse::<MacAddress>(),
        Err(ParseMacError::InvalidHex(_))
    ));
}

#[test]
fn test_hash_equality() {
    let addr1 = MacAddress([0xAA, 0xBB, 0xCC, 0xDD, 0xEE, 0xFF]);
    let addr2 = MacAddress([0xAA, 0xBB, 0xCC, 0xDD, 0xEE, 0xFF]);

    let mut map = HashMap::new();
    map.insert(addr1, "test");

    assert_eq!(map.get(&addr2), Some(&"test"));
}

#[test]
fn test_format_address() {
    let addr = MacAddress([0xAA, 0xBB, 0xCC, 0xDD, 0xEE, 0xFF]);
    assert_eq!(format_address(addr), "AA:BB:CC:DD:EE:FF");
}

#[test]
fn test_format_address_with_zeros() {
    let addr = MacAddress([0x00, 0x01, 0x02, 0x03, 0x04, 0x05]);
    assert_eq!(format_address(addr), "00:01:02:03:04:05");
}

#[test]
fn test_address_to_mac_address() {
    let addr: [u8; 6] = [0xAA, 0xBB, 0xCC, 0xDD, 0xEE, 0xFF];
    let mac: MacAddress = addr.into();
    assert_eq!(mac, MacAddress([0xAA, 0xBB, 0xCC, 0xDD, 0xEE, 0xFF]));
}

#[test]
fn test_mac_address_display() {
    let mac = MacAddress([0xAA, 0xBB, 0xCC, 0xDD, 0xEE, 0xFF]);
    assert_eq!(mac.to_string(), "AA:BB:CC:DD:EE:FF");
}

#[test]
fn parse_reports_the_first_bad_part() {
    assert_eq!(
        MacAddress::parse("AA:B:CC:DD:EE:GG"),
        Err(ParseMacError::InvalidPartLength(1))
    );
    assert_eq!(
        MacAddress::parse("AA:BB:CC:DD:EE:GG"),
        Err(ParseMacError::InvalidHex("GG".to_string()))
    );
    assert_eq!(
        MacAddress::parse("AA:BB:CC:DD:EE:FF:00"),
        Err(ParseMacError::InvalidLength(7))
    );
    assert_eq!(MacAddress::parse(""), Err(ParseMacError::InvalidLength(1)));
    assert_eq!(
        MacAddress::parse(":::::"),
        Err(ParseMacError::InvalidPartLength(0))
    );
    assert_eq!(
        MacAddress::parse("+A:BB:CC:DD:EE:FF"),
        Err(ParseMacError::InvalidHex("+A".to_string()))
    );
}

#[test]
fn text_round_trips_through_parse() {
    for text in ["00:00:00:00:00:00", "DE:AD:BE:EF:00:01", "FF:FF:FF:FF:FF:FF"] {
        let mac = MacAddress::parse(text).unwrap();
        assert_eq!(mac.to_string(), text);
    }
    let mixed = MacAddress::parse("de:Ad:bE:ef:0a:0B").unwrap();
    assert_eq!(mixed.to_string(), "DE:AD:BE:EF:0A:0B");
}

#[test]
fn bytes_round_trip_through_text() {
    for bytes in [[0u8; 6], [1, 2, 3, 4, 5, 6], [0x9f, 0xa0, 0x0f, 0xf0, 0xff, 0x10]] {
        let mac = MacAddress(bytes);
        assert_eq!(MacAddress::parse(&mac.to_string()), Ok(mac));
    }
}

#[test]
fn address_number_is_big_endian() {
    assert_eq!(MacAddress([0, 0, 0, 0, 0, 1]).to_u64(), 1);
    assert_eq!(MacAddress([1, 0, 0, 0, 0, 0]).to_u64(), 1 << 40);
    assert_eq!(
        MacAddress([0xAA, 0xBB, 0xCC, 0xDD, 0xEE, 0xFF]).to_u64(),
        0xAABB_CCDD_EEFF
    );
}

#[test]
fn parse_error_texts() {
    assert_eq!(
        ParseMacError::InvalidLength(3).to_string(),
        "invalid MAC address: expected 6 parts, got 3"
    );
    assert_eq!(
        ParseMacError::InvalidPartLength(0).to_string(),
        "invalid MAC address: part 0 has wrong length"
    );
    assert_eq!(
        ParseMacError::InvalidHex("GG".to_string()).to_string(),
        "invalid MAC address: 'GG' is not valid hex"
    );
}

#[test]
fn part_length_is_counted_in_bytes() {
    // one character of two bytes: the length is right, the digits are not
    assert_eq!(
        MacAddress::parse("\u{e9}:BB:CC:DD:EE:FF"),
        Err(ParseMacError::InvalidHex("\u{e9}".to_string()))
    );
    assert_eq!(
        MacAddress::parse("AA:BB:CC:DD:EE:\u{7ff}"),
        Err(ParseMacError::InvalidHex("\u{7ff}".to_string()))
    );
    // two characters of three bytes
    assert_eq!(
        MacAddress::parse("A\u{e9}:BB:CC:DD:EE:FF"),
        Err(ParseMacError::InvalidPartLength(0))
    );
    // one character of three bytes, one of four, two of two
    assert_eq!(
        MacAddress::parse("AA:\u{20ac}:CC:DD:EE:FF"),
        Err(ParseMacError::InvalidPartLength(1))
    );
    assert_eq!(
        MacAddress::parse("AA:BB:\u{1f600}:DD:EE:FF"),
        Err(ParseMacError::InvalidPartLength(2))
    );
    assert_eq!(
        MacAddress::parse("AA:BB:CC:\u{e9}\u{e9}:EE:FF"),
        Err(ParseMacError::InvalidPartLength(3))
    );
    // one character of one byte
    assert_eq!(
        MacAddress::parse("AA:BB:CC:DD:E:FF"),
        Err(ParseMacError::InvalidPartLength(4))
    );
    // two characters of one byte each that are no hex digits
    assert_eq!(
        MacAddress::parse("AA:BB:CC:DD:EE:\u{7f}g"),
        Err(ParseMacError::InvalidHex("\u{7f}g".to_string()))
    );
}
