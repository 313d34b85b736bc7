use asn::ident::Asn;
use asn::parse::ParseAsnError;

fn assert_send<T: Send>() {}

fn assert_sync<T: Sync>() {}

#[test]
fn test_send() {
    assert_send::<Asn>();
}

#[test]
fn test_sync() {
    assert_sync::<Asn>();
}

#[test]
fn test_new() {
    let _ = Asn::new(0);
}

#[test]
fn test_u32_from_asn() {
    let _: u32 = Asn::new(0).into();
}

#[test]
fn test_asn_from_u32() {
    let _: Asn = 0_u32.into();
}

#[test]
fn test_asn_from_u16() {
    let _: Asn = 0_u16.into();
}

#[test]
fn test_debug() {
    assert_eq!(format!("{:?}", Asn::new(0)), "Asn(0)");
}

#[test]
fn test_asn0_eq() {
    assert_eq!(Asn::zero(), Asn::new(0));
}

#[test]
fn test_display() {
    assert_eq!(Asn::new(65526).to_string(), "65526");
    assert_eq!(Asn::new(65546).to_string(), "65546");
}

#[test]
fn test_last_eq() {
    assert_eq!(Asn::last(), Asn::new(65535));
    assert_eq!(Asn::last4(), Asn::new(4294967295));
}

#[test]
fn test_reserved_documentation_contains() {
    assert!(Asn::reserved_documentation().contains(&Asn::new(64500)));
    assert!(Asn::reserved_documentation4().contains(&Asn::new(65540)));
}

#[test]
fn test_reserved_private_contains() {
    assert!(Asn::reserved_private().contains(&Asn::new(64520)));
    assert!(Asn::reserved_private4().contains(&Asn::new(4242424242)));
}

#[test]
fn test_trans_eq() {
    assert_eq!(Asn::trans(), Asn::new(23456));
}

#[test]
fn test_reserved_iana_contains() {
    assert!(Asn::reserved_iana4().contains(&Asn::new(100000)));
}

#[test]
fn test_from_str() {
    assert_eq!(Asn::from_str("65526").unwrap(), Asn::new(65526));
    assert_eq!(Asn::from_str("65546").unwrap(), Asn::new(65546));

    assert_eq!(Asn::from_str("hurz").unwrap_err(), ParseAsnError());
}

#[test]
fn test_parseasnerror_display() {
    assert_eq!(Asn::from_str("hurz").unwrap_err().to_string(), "can not parse ASN");
}

#[test]
fn test_fromstr() {
    assert_eq!("65526".parse(), Ok(Asn::new(65526)));
}
