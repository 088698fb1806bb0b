use cargo_depot::checksum::{checksum, to_hex};

#[test]
fn checksum_of_abc() {
    assert_eq!(
        checksum(b"abc"),
        "ba7816bf8f01cfea414140de5dae2223b00361a396177a9cb410ff61f20015ad"
    );
}

#[test]
fn checksum_of_nothing() {
    assert_eq!(
        checksum(b""),
        "e3b0c44298fc1c149afbf4c8996fb92427ae41e4649b934ca495991b7852b855"
    );
}

#[test]
fn checksum_is_not_the_data() {
    let data = b"0123456789abcdef0123456789abcdef";
    assert_ne!(checksum(data).as_bytes(), &data[..]);
    assert_eq!(checksum(data).len(), 64);
}

#[test]
fn hex_writes_two_digits_for_each_byte() {
    assert_eq!(to_hex(&[0x00, 0x0f, 0xa0, 0xff, 0x5c]), "000fa0ff5c");
    assert_eq!(to_hex(&[]), "");
    assert_eq!(to_hex(&[0x09, 0x0a, 0x10]), "090a10");
}
