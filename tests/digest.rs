use clawlet_core::digest::{fast_hash, hex_lower};

#[test]
fn hex_is_lowercase_two_digits_per_byte() {
    assert_eq!(hex_lower(&vec![0x00, 0x0f, 0xab, 0xff]), "000fabff");
    assert_eq!(hex_lower(&vec![]), "");
}

#[test]
fn hash_of_empty_text() {
    assert_eq!(
        fast_hash(""),
        "e3b0c44298fc1c149afbf4c8996fb92427ae41e4649b934ca495991b7852b855"
    );
}

#[test]
fn hash_of_abc() {
    assert_eq!(
        fast_hash("abc"),
        "ba7816bf8f01cfea414140de5dae2223b00361a396177a9cb410ff61f20015ad"
    );
}
