use torrust_hash2torrent::info_hash::{InfoHash, InvalidFormat};

const MIXED: &str = "443C7602B4FDE83D1154D6D9DA48808418B181B6";
const LOWER: &str = "443c7602b4fde83d1154d6d9da48808418b181b6";

#[test]
fn parses_lowercase_hex() {
    let h = InfoHash::from_str(LOWER).unwrap();
    assert_eq!(h.to_hex_string(), LOWER);
    assert_eq!(h.as_bytes().len(), 20);
    assert_eq!(h.as_bytes()[0], 0x44);
    assert_eq!(h.as_bytes()[19], 0xb6);
}

#[test]
fn parses_uppercase_and_mixed_case_to_lowercase() {
    let upper = InfoHash::from_str(MIXED).unwrap();
    assert_eq!(upper.to_hex_string(), LOWER);
    let mixed = InfoHash::from_str("443c7602B4fde83D1154d6d9DA48808418b181B6").unwrap();
    assert_eq!(mixed.to_hex_string(), LOWER);
    assert!(upper.same_as(&mixed));
    assert_eq!(upper, mixed);
}

#[test]
fn all_nibbles_round_trip() {
    let text = "0123456789abcdefABCDEF00ff11ee22dd33cc44";
    let h = InfoHash::from_str(text).unwrap();
    assert_eq!(h.to_hex_string(), "0123456789abcdefabcdef00ff11ee22dd33cc44");
}

#[test]
fn rejects_wrong_lengths() {
    assert_eq!(InfoHash::from_str(""), Err(InvalidFormat));
    assert_eq!(InfoHash::from_str(&LOWER[..39]), Err(InvalidFormat));
    let longer = format!("{LOWER}0");
    assert_eq!(InfoHash::from_str(&longer), Err(InvalidFormat));
}

#[test]
fn rejects_non_hex_characters() {
    assert_eq!(InfoHash::from_str("not-a-hash"), Err(InvalidFormat));
    let with_g = format!("g{}", &LOWER[1..]);
    assert_eq!(InfoHash::from_str(&with_g), Err(InvalidFormat));
    let with_last_z = format!("{}z", &LOWER[..39]);
    assert_eq!(InfoHash::from_str(&with_last_z), Err(InvalidFormat));
    let with_accent = format!("é{}", &LOWER[1..]);
    assert_eq!(InfoHash::from_str(&with_accent), Err(InvalidFormat));
}

#[test]
fn distinct_hashes_differ() {
    let a = InfoHash::from_str(LOWER).unwrap();
    let b = InfoHash::from_str("443c7602b4fde83d1154d6d9da48808418b181b7").unwrap();
    assert!(!a.same_as(&b));
    assert_eq!(a.clone(), a);
}
