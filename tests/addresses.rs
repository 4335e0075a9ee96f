use treasury::{parse_accounts, parse_asset, parse_one, AccountHandle, Asset, EngineError};

#[test]
fn identifier_bytes_are_decoded_big_endian() {
    let h = AccountHandle::parse("0x000102030405060708090a0b0c0d0e0f10111213").unwrap();
    let want: Vec<u8> = (0u8..20).collect();
    assert_eq!(h.to_bytes().to_vec(), want);
}

#[test]
fn prefix_is_optional_and_case_is_ignored() {
    let a = AccountHandle::parse("0xABCDEFabcdefABCDEFabcdefABCDEFabcdefABCD").unwrap();
    let b = AccountHandle::parse("abcdefabcdefabcdefabcdefabcdefabcdefabcd").unwrap();
    assert_eq!(a, b);
    assert_eq!(a.to_bytes()[0], 0xab);
}

#[test]
fn blanks_inside_identifiers_are_skipped() {
    let a = AccountHandle::parse("0x 1111111111111111111111111111111111111111\n").unwrap();
    assert_eq!(a.to_bytes(), [0x11u8; 20]);
}

#[test]
fn wrong_lengths_and_characters_are_rejected() {
    assert!(AccountHandle::parse("").is_none());
    assert!(AccountHandle::parse("0x").is_none());
    assert!(AccountHandle::parse("0x111111111111111111111111111111111111111").is_none());
    assert!(AccountHandle::parse("0x11111111111111111111111111111111111111111").is_none());
    assert!(AccountHandle::parse("0x11111111111111111111111111111111111111111g").is_none());
    assert!(AccountHandle::parse("0X1111111111111111111111111111111111111111").is_none());
}

#[test]
fn lists_keep_order_and_duplicates() {
    let raw = vec![
        "0x2222222222222222222222222222222222222222".to_string(),
        "0x1111111111111111111111111111111111111111".to_string(),
        "0x2222222222222222222222222222222222222222".to_string(),
    ];
    let v = parse_accounts(&raw).unwrap();
    assert_eq!(v.len(), 3);
    assert_eq!(v[0], v[2]);
    assert_eq!(v[1].to_bytes(), [0x11u8; 20]);
}

#[test]
fn first_malformed_entry_is_reported() {
    let raw = vec![
        "0x1111111111111111111111111111111111111111".to_string(),
        "zz".to_string(),
        "yy".to_string(),
    ];
    assert_eq!(
        parse_accounts(&raw),
        Err(EngineError::MalformedAddress { index: 1, raw: "zz".to_string() })
    );
    assert_eq!(parse_accounts(&vec![]), Ok(vec![]));
}

#[test]
fn single_identifiers_and_assets() {
    assert_eq!(
        parse_one(&"q".to_string()),
        Err(EngineError::MalformedAddress { index: 0, raw: "q".to_string() })
    );
    assert_eq!(parse_asset(&None), Ok(Asset::Native));
    let t = "0x3333333333333333333333333333333333333333".to_string();
    assert_eq!(parse_asset(&Some(t.clone())), Ok(Asset::Token(parse_one(&t).unwrap())));
}
