use asn::ident::Asn;
use asn::parse::parse_digits_checked;
use asn::parse::parse_digits_fast;
use asn::parse::ParseAsnError;

#[test]
fn round_trip_samples() {
    for v in [0u32, 1, 7, 9, 10, 99, 23456, 65535, 65536, 4199999999, 4200000000, 4294967295] {
        let rendered = Asn::new(v).to_string();
        assert_eq!(Asn::from_str(&rendered), Ok(Asn::new(v)));
    }
}

#[test]
fn construction_preserves_value() {
    for v in [0u32, 1, 23456, 4294967295] {
        let raw: u32 = Asn::new(v).into();
        assert_eq!(raw, v);
    }
}

#[test]
fn widening_matches_new() {
    for w in [0u16, 1, 23456, 65535] {
        assert_eq!(Asn::from(w), Asn::new(w as u32));
    }
}

#[test]
fn fast_and_checked_paths_agree() {
    let short_inputs: [&[u8]; 8] =
        [b"", b"0", b"7", b"007", b"65526", b"99999999", b"12a4", b"hurz"];
    for digits in short_inputs {
        assert_eq!(parse_digits_fast(digits), parse_digits_checked(digits));
    }
}

#[test]
fn checked_path_is_authoritative_on_long_input() {
    assert_eq!(parse_digits_checked(b"4294967295"), Some(4294967295));
    assert_eq!(parse_digits_checked(b"004294967295"), Some(4294967295));
    assert_eq!(parse_digits_checked(b"4294967296"), None);
    assert_eq!(parse_digits_checked(b"9999999999"), None);
    assert_eq!(parse_digits_checked(b"123456789x"), None);
}

#[test]
fn rejection_cases() {
    assert_eq!(Asn::from_str(""), Err(ParseAsnError()));
    assert_eq!(Asn::from_str("hurz"), Err(ParseAsnError()));
    assert_eq!(Asn::from_str("4294967296"), Err(ParseAsnError()));
    assert_eq!(Asn::from_str("-1"), Err(ParseAsnError()));
}

#[test]
fn rejects_signs_whitespace_and_multibyte() {
    assert_eq!(Asn::from_str("+1"), Err(ParseAsnError()));
    assert_eq!(Asn::from_str(" 1"), Err(ParseAsnError()));
    assert_eq!(Asn::from_str("1 "), Err(ParseAsnError()));
    assert_eq!(Asn::from_str("1_0"), Err(ParseAsnError()));
    assert_eq!(Asn::from_str("0x10"), Err(ParseAsnError()));
    assert_eq!(Asn::from_str("é5"), Err(ParseAsnError()));
}

#[test]
fn accepts_leading_zeros() {
    assert_eq!(Asn::from_str("007"), Ok(Asn::new(7)));
    assert_eq!(Asn::from_str("0"), Ok(Asn::new(0)));
    assert_eq!(Asn::from_str("00000000000000000042"), Ok(Asn::new(42)));
}

#[test]
fn parses_domain_boundaries() {
    assert_eq!(Asn::from_str("0"), Ok(Asn::new(0)));
    assert_eq!(Asn::from_str("4294967295"), Ok(Asn::last4()));
    assert_eq!(Asn::from_str("65526"), Ok(Asn::new(65526)));
    assert_eq!(Asn::from_str("65546"), Ok(Asn::new(65546)));
}

#[test]
fn renders_exact_digits() {
    assert_eq!(Asn::new(0).to_string(), "0");
    assert_eq!(Asn::new(7).to_string(), "7");
    assert_eq!(Asn::new(10).to_string(), "10");
    assert_eq!(Asn::new(4294967295).to_string(), "4294967295");
}

#[test]
fn reserved_range_boundaries() {
    assert!(Asn::reserved_private().contains(&Asn::new(64520)));
    assert!(!Asn::reserved_private().contains(&Asn::new(64511)));
    assert!(Asn::reserved_documentation4().contains(&Asn::new(65540)));
    assert!(Asn::reserved_documentation().contains(&Asn::new(64496)));
    assert!(Asn::reserved_documentation().contains(&Asn::new(64511)));
    assert!(!Asn::reserved_documentation().contains(&Asn::new(64512)));
    assert!(Asn::reserved_iana4().contains(&Asn::new(65552)));
    assert!(Asn::reserved_iana4().contains(&Asn::new(131071)));
    assert!(!Asn::reserved_iana4().contains(&Asn::new(131072)));
    assert!(Asn::reserved_private4().contains(&Asn::new(4200000000)));
    assert!(Asn::reserved_private4().contains(&Asn::new(4294967294)));
    assert!(!Asn::reserved_private4().contains(&Asn::new(4294967295)));
}

#[test]
fn ordering_follows_the_raw_value() {
    assert!(Asn::new(1) < Asn::new(2));
    assert!(Asn::new(65535) < Asn::new(65536));
    assert_eq!(Asn::new(5), Asn::new(5));
}

#[test]
fn error_message_is_fixed() {
    assert_eq!(ParseAsnError().to_string(), "can not parse ASN");
    assert_eq!(ParseAsnError(), ParseAsnError());
}
