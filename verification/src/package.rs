//! Update packages: a parsed descriptor plus the exact bytes it was parsed
//! from, kept for signature verification.

use vstd::prelude::*;
use vstd::string::StrSliceExecFns;
use vstd::string::StringSliceAdditionalSpecFns;
use vstd::utf8::decode_utf8;
use vstd::utf8::valid_utf8;

use crate::json::product_key;
use crate::json::spec_parse_members;
use crate::json::spec_parse_package;
use crate::json::spec_parse_string;
use crate::json::spec_skip_ws;
use crate::json::spec_string_rest;
use crate::json::version_key;

verus! {

broadcast use vstd::utf8::encode_utf8_decode_utf8;

/// A parsed update descriptor. `raw` holds the exact bytes the package was
/// parsed from; the signature is verified over them, never over a
/// re-serialization.
#[derive(Debug)]
pub struct Package {
    pub product_uid: String,
    pub version: String,
    pub raw: Vec<u8>,
}

/// Mathematical model of a [`Package`].
pub ghost struct PackageView {
    pub product_uid: Seq<char>,
    pub version: Seq<char>,
    pub raw: Seq<u8>,
}

impl View for Package {
    type V = PackageView;

    open spec fn view(&self) -> PackageView {
        PackageView {
            product_uid: self.product_uid@,
            version: self.version@,
            raw: self.raw@,
        }
    }
}

/// The canonical sample payload: the raw bytes every fixture package is
/// parsed from.
pub open spec fn default_package_raw() -> Seq<u8> {
    "{\"product\":\"fooobarrr\",\"version\":\"0.0.2\"}".spec_bytes()
}

/// The canonical sample package: what [`default_package_raw`] parses to,
/// as [`lemma_default_payload_parses`] shows.
pub open spec fn default_package_view() -> PackageView {
    PackageView {
        product_uid: "fooobarrr"@,
        version: "0.0.2"@,
        raw: default_package_raw(),
    }
}

impl Default for Package {
    /// The canonical sample package, matching [`default_package_view`].
    fn default() -> (r: Package)
        ensures
            r@ == default_package_view(),
    {
        Package {
            product_uid: String::from_str("fooobarrr"),
            version: String::from_str("0.0.2"),
            raw: "{\"product\":\"fooobarrr\",\"version\":\"0.0.2\"}".as_bytes_vec(),
        }
    }
}

///`p` is what parsing `bytes` as an update payload yields: the two required
/// fields, plus the input itself retained byte for byte.
pub open spec fn parses_to(bytes: Seq<u8>, p: PackageView) -> bool {
    &&& spec_parse_package(bytes) matches Some((pc, vc)) && p.product_uid == pc && p.version == vc
    &&& p.raw == bytes
}

/// The error a payload that is not a well-formed update descriptor parses to.
#[derive(Debug, PartialEq, Eq, Structural)]
pub struct ParsingError;

/// Relies on `String::from_utf8`: well-formed UTF-8 bytes decode to exactly
/// the characters they encode.
#[verifier::external_body]
fn utf8_to_string(v: Vec<u8>) -> (r: String)
    requires
        valid_utf8(v@),
    ensures
        r@ == decode_utf8(v@),
{
    String::from_utf8(v).unwrap_or_default()
}

impl Package {
    /// Parse an update payload: a JSON object whose required keys `product`
    /// and `version` hold strings; extra keys are ignored; anything else is
    /// rejected.
    pub fn parse(content: &[u8]) -> (r: Result<Package, ParsingError>)
        ensures
            match r {
                Ok(p) => parses_to(content@, p@),
                Err(_) => spec_parse_package(content@) is None,
            },
    {
        match crate::json::parse_package_fields(content) {
            Some((product, version)) => {
                let raw = vstd::slice::slice_to_vec(content);
                Ok(
                    Package {
                        product_uid: utf8_to_string(product),
                        version: utf8_to_string(version),
                        raw,
                    },
                )
            },
            None => Err(ParsingError),
        }
    }
}

/// The bytes of the canonical payload, one by one; used to evaluate the
/// payload grammar on it.
spec fn canonical_payload_byte(i: int) -> u8 {
    if i == 0 { 0x7b } else if i == 1 { 0x22 } else if i == 2 { 0x70 } else if i == 3 { 0x72 }
    else if i == 4 { 0x6f } else if i == 5 { 0x64 } else if i == 6 { 0x75 } else if i == 7 { 0x63 }
    else if i == 8 { 0x74 } else if i == 9 { 0x22 } else if i == 10 { 0x3a } else if i == 11 { 0x22 }
    else if i == 12 { 0x66 } else if i == 13 { 0x6f } else if i == 14 { 0x6f } else if i == 15 { 0x6f }
    else if i == 16 { 0x62 } else if i == 17 { 0x61 } else if i == 18 { 0x72 } else if i == 19 { 0x72 }
    else if i == 20 { 0x72 } else if i == 21 { 0x22 } else if i == 22 { 0x2c } else if i == 23 { 0x22 }
    else if i == 24 { 0x76 } else if i == 25 { 0x65 } else if i == 26 { 0x72 } else if i == 27 { 0x73 }
    else if i == 28 { 0x69 } else if i == 29 { 0x6f } else if i == 30 { 0x6e } else if i == 31 { 0x22 }
    else if i == 32 { 0x3a } else if i == 33 { 0x22 } else if i == 34 { 0x30 } else if i == 35 { 0x2e }
    else if i == 36 { 0x30 } else if i == 37 { 0x2e } else if i == 38 { 0x32 } else if i == 39 { 0x22 }
    else { 0x7d }
}

spec fn canonical_payload_bytes() -> Seq<u8> {
    Seq::new(41, |i: int| canonical_payload_byte(i))
}

/// The canonical payload literal's bytes are [`canonical_payload_bytes`].
proof fn lemma_default_raw_bytes()
    ensures
        default_package_raw() == canonical_payload_bytes(),
{
    broadcast use vstd::string::is_ascii_spec_bytes;

    let lit = "{\"product\":\"fooobarrr\",\"version\":\"0.0.2\"}";
    reveal_strlit("{\"product\":\"fooobarrr\",\"version\":\"0.0.2\"}");
    assert(vstd::string::is_ascii(lit)) by {
        assert(vstd::utf8::is_ascii_chars(lit@)) by {
            assert forall|i: int| 0 <= i < lit@.len() implies '\0' <= #[trigger] lit@[i]
                <= '\u{7f}' by {}
        }
    }
    assert(lit.spec_bytes() =~= canonical_payload_bytes());
}

/// The canonical payload parses to the canonical package.
pub proof fn lemma_default_payload_parses()
    ensures
        parses_to(default_package_raw(), default_package_view()),
{
    lemma_default_raw_bytes();
    reveal_strlit("product");
    reveal_strlit("version");
    reveal_strlit("fooobarrr");
    reveal_strlit("0.0.2");
    let s = canonical_payload_bytes();
    assert(spec_skip_ws(s, 0) == 0);
    assert(spec_skip_ws(s, 1) == 1);
    assert(spec_parse_string(s, 1) == Some((product_key(), 10int))) by {
        reveal_with_fuel(spec_string_rest, 9);
        assert(spec_string_rest(s, 2, Seq::empty()) matches Some((k, j)) && k =~= product_key()
            && j == 10);
    }
    assert(spec_skip_ws(s, 10) == 10);
    assert(spec_skip_ws(s, 11) == 11);
    assert(spec_parse_string(s, 11) == Some(("fooobarrr"@, 22int))) by {
        reveal_with_fuel(spec_string_rest, 11);
        assert(spec_string_rest(s, 12, Seq::empty()) matches Some((k, j)) && k =~= "fooobarrr"@
            && j == 22);
    }
    assert(spec_skip_ws(s, 22) == 22);
    assert(spec_skip_ws(s, 23) == 23);
    assert(spec_parse_string(s, 23) == Some((version_key(), 32int))) by {
        reveal_with_fuel(spec_string_rest, 9);
        assert(spec_string_rest(s, 24, Seq::empty()) matches Some((k, j)) && k =~= version_key()
            && j == 32);
    }
    assert(spec_skip_ws(s, 32) == 32);
    assert(spec_skip_ws(s, 33) == 33);
    assert(spec_parse_string(s, 33) == Some(("0.0.2"@, 40int))) by {
        reveal_with_fuel(spec_string_rest, 7);
        assert(spec_string_rest(s, 34, Seq::empty()) matches Some((k, j)) && k =~= "0.0.2"@ && j
            == 40);
    }
    assert(spec_skip_ws(s, 40) == 40);
    assert(spec_skip_ws(s, 41) == 41);
    assert(product_key() != version_key()) by {
        assert(product_key()[0] == 'p' && version_key()[0] == 'v');
    }
    assert(spec_parse_members(s, 23, false, Some("fooobarrr"@), None) == Some(
        ((Some("fooobarrr"@), Some("0.0.2"@)), 41int),
    ));
    assert(spec_parse_members(s, 1, true, None, None) == Some(
        ((Some("fooobarrr"@), Some("0.0.2"@)), 41int),
    ));
    assert(spec_parse_package(s) == Some(("fooobarrr"@, "0.0.2"@)));
}

} // verus!
