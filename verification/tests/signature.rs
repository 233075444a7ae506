//! Tests of signature decoding and validation against the fixed key.

use rwcst::Package;
use rwcst::Signature;

#[test]
fn valid_sample_validates_canonical_package() {
    let pkg = Package::default();
    let sig = Signature::from_str(Signature::valid_sample()).unwrap();
    assert!(sig.validate(&pkg));
}

#[test]
fn invalid_sample_does_not_validate() {
    let pkg = Package::default();
    let sig = Signature::from_str(Signature::invalid_sample()).unwrap();
    assert!(!sig.validate(&pkg));
}

#[test]
fn valid_sample_is_bound_to_the_exact_bytes() {
    let pkg = Package::parse(br#"{"product":"fooobarrr","version":"0.0.3"}"#).unwrap();
    let sig = Signature::from_str(Signature::valid_sample()).unwrap();
    assert!(!sig.validate(&pkg));
}

#[test]
fn empty_signature_string_never_validates() {
    let pkg = Package::default();
    match Signature::from_str("") {
        None => {},
        Some(sig) => assert!(!sig.validate(&pkg)),
    }
}

#[test]
fn garbage_signature_string_never_validates() {
    let pkg = Package::default();
    match Signature::from_str("%%% not base64 at all %%%") {
        None => {},
        Some(sig) => assert!(!sig.validate(&pkg)),
    }
}

#[test]
fn short_valid_base64_never_validates() {
    let pkg = Package::default();
    match Signature::from_str("AAAA") {
        None => {},
        Some(sig) => assert!(!sig.validate(&pkg)),
    }
}

#[test]
fn base64_decoding_yields_the_decoded_bytes() {
    let sig = Signature::from_str("AAAA").unwrap();
    assert_eq!(sig.0, vec![0u8, 0u8, 0u8]);
    let sig2 = Signature::from_str("aGVsbG8=").unwrap();
    assert_eq!(sig2.0, b"hello".to_vec());
}
