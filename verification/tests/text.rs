//! Tests of principals and of text.
use ic_nodes::principal::Principal;
use ic_nodes::text::{decimal_text, parse_u32, signed_decimal_text, trim, white_space};

#[test]
fn principals_have_texts() {
    let cases: Vec<(&[u8], &str)> = vec![
        (&[], "aaaaa-aa"),
        (&[4], "2vxsx-fae"),
        (&[0xab, 0xcd, 0x01], "em77e-bvlzu-aq"),
    ];
    for (bytes, text) in cases {
        let principal = Principal::try_from_slice(bytes).unwrap();
        assert_eq!(principal.to_text(), text);
        assert_eq!(principal.as_bytes(), bytes.to_vec());
        assert_eq!(Principal::from_text(text), Ok(principal));
        assert_eq!(Principal::from_text(text.to_uppercase().as_str()), Ok(principal));
    }
}

#[test]
fn principals_are_short() {
    assert!(Principal::try_from_slice(&[7; 29]).is_ok());
    assert_eq!(
        Principal::try_from_slice(&[7; 30]),
        Err("Bytes is longer than 29 bytes.".to_string())
    );
}

#[test]
fn malformed_principals_are_refused() {
    for text in ["", "aaaaaaa", "em77ebvlzuaq", "em77e-bvlzu-ar", "!"] {
        let message = Principal::from_text(text).unwrap_err();
        assert_ne!(message, text);
    }
}

#[test]
fn every_principal_reads_back() {
    for n in 0..=29usize {
        let bytes: Vec<u8> = (0..n).map(|i| (i * 37 + n) as u8).collect();
        let principal = Principal::try_from_slice(&bytes).unwrap();
        assert_eq!(Principal::from_text(principal.to_text().as_str()), Ok(principal));
    }
}

#[test]
fn numbers_are_written_in_decimal() {
    for n in [0, 9, 10, 99, 100, 1_234_567_890, u64::MAX] {
        assert_eq!(decimal_text(n), n.to_string());
    }
    for n in [0, -1, 7, i32::MIN, i32::MAX] {
        assert_eq!(signed_decimal_text(n), n.to_string());
    }
}

#[test]
fn numbers_are_read_like_std_does() {
    for text in [
        "0", "7", "+7", "007", "4294967295", "4294967296", "99999999999999999999", "", "+", "-1",
        "++1", "1 ", " 1", "1_000", "a", "\u{661}", "00000000000000000000001",
    ] {
        assert_eq!(parse_u32(text), text.parse::<u32>().ok(), "{:?}", text);
    }
    for n in [0u32, 1, 10, u32::MAX] {
        assert_eq!(parse_u32(decimal_text(n as u64).as_str()), Some(n));
    }
}

#[test]
fn white_space_is_what_unicode_says() {
    for c in '\0'..=char::MAX {
        assert_eq!(white_space(c), c.is_whitespace(), "{:?}", c);
    }
}

#[test]
fn white_space_is_trimmed_at_the_ends() {
    for text in ["", " ", "a", " a b\t", "\u{3000}x\u{85}", "\n\n", "a "] {
        assert_eq!(trim(text), text.trim());
    }
}
