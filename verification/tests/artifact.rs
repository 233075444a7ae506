//! Tests of the artifact model: package parsing and the default values.

use rwcst::Info;
use rwcst::Package;

#[test]
fn parse_canonical_payload() {
    let pkg = Package::parse(br#"{"product":"fooobarrr","version":"0.0.2"}"#).unwrap();
    assert_eq!(pkg.product_uid, "fooobarrr");
    assert_eq!(pkg.version, "0.0.2");
    assert_eq!(pkg.raw, br#"{"product":"fooobarrr","version":"0.0.2"}"#.to_vec());
}

#[test]
fn parse_missing_product_fails() {
    assert!(Package::parse(br#"{"version":"0.0.2"}"#).is_err());
}

#[test]
fn parse_missing_version_fails() {
    assert!(Package::parse(br#"{"product":"fooobarrr"}"#).is_err());
}

#[test]
fn parse_empty_object_fails() {
    assert!(Package::parse(b"{}").is_err());
}

#[test]
fn parse_malformed_payloads_fail() {
    assert!(Package::parse(b"").is_err());
    assert!(Package::parse(b"not json").is_err());
    assert!(Package::parse(b"{").is_err());
    assert!(Package::parse(br#"{"product":"a","version":"b""#).is_err());
    assert!(Package::parse(br#"["product","version"]"#).is_err());
    assert!(Package::parse(br#"{"product":"a","version":"b",}"#).is_err());
    assert!(Package::parse(br#"{"product":"a","version":"b"} extra"#).is_err());
    assert!(Package::parse(b"{\"product\":\"\x80\",\"version\":\"b\"}").is_err());
}

#[test]
fn parse_number_grammar_edges() {
    // leading zeros, bare signs and dangling exponents are not JSON numbers
    assert!(Package::parse(br#"{"product":"a","version":"b","n":01}"#).is_err());
    assert!(Package::parse(br#"{"product":"a","version":"b","n":-}"#).is_err());
    assert!(Package::parse(br#"{"product":"a","version":"b","n":1e}"#).is_err());
    assert!(Package::parse(br#"{"product":"a","version":"b","n":1.}"#).is_err());
    assert!(Package::parse(br#"{"product":"a","version":"b","n":0}"#).is_ok());
    assert!(Package::parse(br#"{"product":"a","version":"b","n":-0.25E+2}"#).is_ok());
}

#[test]
fn parse_skips_nested_extra_values() {
    let raw = br#"{"deep":{"a":[{"b":[[],{}]},"s"],"c":{"d":null}},"product":"p","version":"v"}"#;
    let pkg = Package::parse(raw).unwrap();
    assert_eq!(pkg.product_uid, "p");
    assert_eq!(pkg.version, "v");
    assert!(Package::parse(br#"{"deep":{"a":[}],"product":"p","version":"v"}"#).is_err());
}

#[test]
fn parse_non_string_version_fails() {
    assert!(Package::parse(br#"{"product":"a","version":2}"#).is_err());
    assert!(Package::parse(br#"{"product":null,"version":"b"}"#).is_err());
}

#[test]
fn parse_ignores_extra_keys() {
    let raw = br#" { "extra" : [ 1 , -2.5e3 , { "x" : null } , true , false ] ,
        "product" : "prod" , "n" : 0 , "version" : "1.2.3" } "#;
    let pkg = Package::parse(raw).unwrap();
    assert_eq!(pkg.product_uid, "prod");
    assert_eq!(pkg.version, "1.2.3");
    assert_eq!(pkg.raw, raw.to_vec());
}

#[test]
fn parse_decodes_escapes() {
    let pkg = Package::parse(br#"{"product":"a\"b\\c\/d","version":"x\ny\tz"}"#).unwrap();
    assert_eq!(pkg.product_uid, "a\"b\\c/d");
    assert_eq!(pkg.version, "x\ny\tz");
}

#[test]
fn parse_decodes_unicode_escapes() {
    let pkg = Package::parse(br#"{"product":"\u0041\u00e9\u20ac","version":"b"}"#).unwrap();
    assert_eq!(pkg.product_uid, "A\u{e9}\u{20ac}");
    assert_eq!(pkg.version, "b");
}

#[test]
fn parse_decodes_surrogate_pairs() {
    let pkg = Package::parse(br#"{"product":"\ud83d\ude00","version":"\ud834\udd1e!"}"#).unwrap();
    assert_eq!(pkg.product_uid, "\u{1f600}");
    assert_eq!(pkg.version, "\u{1d11e}!");
}

#[test]
fn parse_rejects_lone_surrogates() {
    assert!(Package::parse(br#"{"product":"\ud83d","version":"b"}"#).is_err());
    assert!(Package::parse(br#"{"product":"\ude00","version":"b"}"#).is_err());
    assert!(Package::parse(br#"{"product":"\ud83dA","version":"b"}"#).is_err());
}

#[test]
fn parse_accepts_raw_utf8_content() {
    let raw = "{\"product\":\"caf\u{e9}\",\"version\":\"\u{1f600}\",\"extra\":\"\u{4e2d}\u{6587}\"}"
        .as_bytes();
    let pkg = Package::parse(raw).unwrap();
    assert_eq!(pkg.product_uid, "caf\u{e9}");
    assert_eq!(pkg.version, "\u{1f600}");
}

#[test]
fn parse_accepts_delete_byte_in_strings() {
    let pkg = Package::parse(b"{\"product\":\"a\x7fb\",\"version\":\"v\"}").unwrap();
    assert_eq!(pkg.product_uid, "a\u{7f}b");
}

#[test]
fn parse_rejects_malformed_utf8_in_strings() {
    // a lone continuation byte, a truncated sequence, an overlong encoding,
    // and a surrogate encoded directly
    assert!(Package::parse(b"{\"product\":\"\x80\",\"version\":\"b\"}").is_err());
    assert!(Package::parse(b"{\"product\":\"\xc3\",\"version\":\"b\"}").is_err());
    assert!(Package::parse(b"{\"product\":\"\xc0\xaf\",\"version\":\"b\"}").is_err());
    assert!(Package::parse(b"{\"product\":\"\xed\xa0\xbd\",\"version\":\"b\"}").is_err());
}

#[test]
fn parse_duplicate_required_key_fails() {
    assert!(Package::parse(br#"{"product":"first","product":"second","version":"v"}"#).is_err());
    assert!(Package::parse(br#"{"product":"p","version":"1","version":"2"}"#).is_err());
}

#[test]
fn parse_duplicate_extra_keys_are_ignored() {
    let pkg = Package::parse(br#"{"x":1,"x":2,"product":"p","version":"v"}"#).unwrap();
    assert_eq!(pkg.product_uid, "p");
    assert_eq!(pkg.version, "v");
}

#[test]
fn default_package_is_canonical() {
    let pkg = Package::default();
    assert_eq!(pkg.product_uid, "fooobarrr");
    assert_eq!(pkg.version, "0.0.2");
    assert_eq!(pkg.raw, br#"{"product":"fooobarrr","version":"0.0.2"}"#.to_vec());
}

#[test]
fn default_package_parses_to_itself() {
    let def = Package::default();
    let pkg = Package::parse(&def.raw).unwrap();
    assert_eq!(pkg.product_uid, def.product_uid);
    assert_eq!(pkg.version, def.version);
    assert_eq!(pkg.raw, def.raw);
}

#[test]
fn default_info_is_initial() {
    let info = Info::default();
    assert_eq!(info.current_version, "0.0.1");
    assert_eq!(info.count_invalid_packages, 0);
}

#[test]
fn info_equality_is_structural() {
    let a = Info { current_version: String::from("0.0.2"), count_invalid_packages: 1 };
    let b = Info { current_version: String::from("0.0.2"), count_invalid_packages: 1 };
    let c = Info { current_version: String::from("0.0.2"), count_invalid_packages: 2 };
    let d = Info { current_version: String::from("0.0.3"), count_invalid_packages: 1 };
    assert_eq!(a, b);
    assert_ne!(a, c);
    assert_ne!(a, d);
}
