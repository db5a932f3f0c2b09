use rns_tools::codec::{base256_decode, base256_encode, base32_decode, base32_encode};
use rns_tools::digits::{hex_decode, hex_encode};

#[test]
fn base32_round_trip() {
    let data = b"reticulum identity";
    assert_eq!(base32_decode(&base32_encode(data)).unwrap(), data);
}

#[test]
fn base256_round_trip() {
    let data = (0u8..=255).collect::<Vec<_>>();
    assert_eq!(base256_decode(&base256_encode(&data)).unwrap(), data);
}

#[test]
fn base32_has_its_alphabet() {
    assert_eq!(base32_encode(b"foobar"), "MZXW6YTBOI======");
    assert_eq!(base32_encode(b""), "");
    assert_eq!(base32_decode("mzxw6ytboi").unwrap(), b"foobar");
    assert!(base32_decode("1").is_none());
}

#[test]
fn base256_refuses_other_characters() {
    assert!(base256_decode("\u{1F600}").is_none());
    assert_eq!(base256_encode(b"").chars().count(), 0);
    assert_eq!(base256_encode(&[0, 255]).chars().count(), 2);
}

#[test]
fn hexadecimal_is_undone() {
    let data = (0u8..=255).collect::<Vec<_>>();
    assert_eq!(hex_encode(&data), hex::encode(&data));
    assert_eq!(hex_decode(&hex_encode(&data)).unwrap(), data);
    assert_eq!(hex_encode(&[0x0f, 0xa9]), "0fa9");
    assert_eq!(hex_encode(&[]), "");
}

#[test]
fn hexadecimal_takes_pairs_of_either_case() {
    assert_eq!(hex_decode("0Fa9").unwrap(), vec![0x0f, 0xa9]);
    assert_eq!(hex_decode("").unwrap(), Vec::<u8>::new());
    assert_eq!(hex_decode("fff"), None);
    assert_eq!(hex_decode("0g"), None);
    assert_eq!(hex_decode("+f"), None);
    assert_eq!(hex_decode("\u{e9}\u{e9}"), None);
}
