use rs1090::icao_country::lookup;

#[test]
fn germany() {
    let c = lookup("3c6752").unwrap();
    assert_eq!(c.code, "de");
    assert_eq!(c.country, "Germany");
}

#[test]
fn usa() {
    let c = lookup("a12345").unwrap();
    assert_eq!(c.code, "us");
}

#[test]
fn uk() {
    let c = lookup("406a12").unwrap();
    assert_eq!(c.code, "gb");
}

#[test]
fn bermuda_subrange() {
    // Should match Bermuda (0x400000–0x4001BF) before UK
    let c = lookup("400100").unwrap();
    assert_eq!(c.code, "bm");
}

#[test]
fn hong_kong_subrange() {
    let c = lookup("789abc").unwrap();
    assert_eq!(c.code, "hk");
}

#[test]
fn unassigned() {
    assert!(lookup("ffffff").is_none());
}

#[test]
fn brazil() {
    let c = lookup("e45000").unwrap();
    assert_eq!(c.code, "br");
}

#[test]
fn uppercase_and_plus_sign_accepted() {
    assert_eq!(lookup("3C6752").unwrap().code, "de");
    assert_eq!(lookup("+3c6752").unwrap().code, "de");
}

#[test]
fn malformed_hex_rejected() {
    assert!(lookup("").is_none());
    assert!(lookup("+").is_none());
    assert!(lookup("~3c6752").is_none());
    assert!(lookup("3c67 52").is_none());
    assert!(lookup("-3c6752").is_none());
    // Does not fit in a u32.
    assert!(lookup("1003c6752").is_none());
}

#[test]
fn leading_zeros_still_fit() {
    assert_eq!(lookup("000000003c6752").unwrap().code, "de");
}

#[test]
fn range_bounds_inclusive() {
    assert_eq!(lookup("3c0000").unwrap().code, "de");
    assert_eq!(lookup("3fffff").unwrap().code, "de");
    assert_eq!(lookup("4001bf").unwrap().code, "bm");
    assert_eq!(lookup("4001c0").unwrap().code, "ky");
}
