use lspci::Address;

#[test]
fn address_from_dir_names() {
    assert_eq!(Address::from_dir_names("00", "1f.3"), Some(Address::new(0, 0x1f, 3)));
    assert_eq!(Address::from_dir_names("ff", "00.7"), Some(Address::new(0xff, 0, 7)));
    assert_eq!(Address::from_dir_names("0A", "0B.c"), Some(Address::new(0x0a, 0x0b, 0x0c)));
    assert_eq!(Address::from_dir_names("0000002", "1.0.extra"), Some(Address::new(2, 1, 0)));
}

#[test]
fn address_from_bad_dir_names() {
    assert_eq!(Address::from_dir_names("00", "1f"), None);
    assert_eq!(Address::from_dir_names("", "1f.3"), None);
    assert_eq!(Address::from_dir_names("00", ".3"), None);
    assert_eq!(Address::from_dir_names("00", "1f."), None);
    assert_eq!(Address::from_dir_names("100", "1f.3"), None);
    assert_eq!(Address::from_dir_names("0g", "1f.3"), None);
    assert_eq!(Address::from_dir_names("00", "1f.x"), None);
}

#[test]
fn address_file_names() {
    let a = Address::new(0x0a, 0x1f, 3);
    assert_eq!(a.bus_dir_name(), "0a");
    assert_eq!(a.device_file_name(), "1f.3");
    let b = Address::new(0, 2, 0x1c);
    assert_eq!(b.bus_dir_name(), "00");
    assert_eq!(b.device_file_name(), "02.1c");
}
