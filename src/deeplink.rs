use base64::Engine;
use vstd::prelude::*;
use vstd::string::*;

use crate::search_path::{has_prefix, starts_with};

verus! {

/// The padded standard-alphabet Base64 text of `bytes`.
pub uninterp spec fn base64_standard(bytes: Seq<u8>) -> Seq<char>;

/// `text` with every UTF-8 byte percent-encoded except ASCII alphanumerics
/// and `-`, `_`, `.`, `~`.
pub uninterp spec fn percent_encoded(text: Seq<char>) -> Seq<char>;

/// What every deep link starts with; the encoded recipe follows.
pub open spec fn deeplink_prefix() -> Seq<char> {
    "goose://recipe?config="@
}

/// The deep link that carries the serialized recipe `json`.
pub open spec fn deeplink_of(json: Seq<u8>) -> Seq<char> {
    deeplink_prefix() + percent_encoded(base64_standard(json))
}

/// Relies on `base64::engine::general_purpose::STANDARD.encode`: the padded
/// standard Base64 text of the bytes. It panics when the length of that text
/// overflows `usize`, which the bound on the input rules out.
#[verifier::external_body]
fn base64_encode(bytes: &Vec<u8>) -> (r: String)
    requires
        bytes@.len() <= usize::MAX / 2,
    ensures
        r@ == base64_standard(bytes@),
{
    base64::engine::general_purpose::STANDARD.encode(bytes)
}

/// Relies on `base64::engine::general_purpose::STANDARD.decode`: it gives
/// back the bytes of any text that `encode` produced.
#[verifier::external_body]
fn base64_decode(text: &str) -> (r: Option<Vec<u8>>)
    ensures
        forall|b: Seq<u8>| text@ == base64_standard(b) ==> (r is Some && r->0@ == b),
{
    match base64::engine::general_purpose::STANDARD.decode(text) {
        Ok(v) => Some(v),
        Err(_) => None,
    }
}

/// Relies on `urlencoding::encode`: percent-encodes every byte but ASCII
/// alphanumerics and `-`, `_`, `.`, `~`.
#[verifier::external_body]
fn url_encode(text: &str) -> (r: String)
    ensures
        r@ == percent_encoded(text@),
{
    urlencoding::encode(text).into_owned()
}

/// Relies on `urlencoding::decode`: it gives back the text of anything that
/// `encode` produced.
#[verifier::external_body]
fn url_decode(text: &str) -> (r: Option<String>)
    ensures
        forall|t: Seq<char>| text@ == percent_encoded(t) ==> (r is Some && r->0@ == t),
{
    match urlencoding::decode(text) {
        Ok(s) => Some(s.into_owned()),
        Err(_) => None,
    }
}

/// The deep link for a validated recipe, given its serialized form: the
/// Base64 text of the bytes, percent-encoded, after the fixed prefix.
pub fn deeplink_url(recipe_json: &Vec<u8>) -> (r: String)
    requires
        recipe_json@.len() <= usize::MAX / 2,
    ensures
        r@ == deeplink_of(recipe_json@),
{
    let encoded = base64_encode(recipe_json);
    let escaped = url_encode(encoded.as_str());
    let url = String::from_str("goose://recipe?config=");
    url.concat(escaped.as_str())
}

/// The serialized recipe that a deep link carries: the reverse of
/// `deeplink_url`, which it undoes exactly. `None` where `url` lacks the
/// prefix or its value does not decode.
pub fn deeplink_config(url: &str) -> (r: Option<Vec<u8>>)
    ensures
        forall|json: Seq<u8>| url@ == deeplink_of(json) ==> (r matches Some(v) && v@ == json),
        r is Some ==> has_prefix(url@, deeplink_prefix()),
{
    let prefix = "goose://recipe?config=";
    proof {
        assert forall|json: Seq<u8>| url@ == deeplink_of(json) implies has_prefix(
            url@,
            prefix@,
        ) by {
            assert(url@.subrange(0, prefix@.len() as int) =~= prefix@);
        }
    }
    if !starts_with(url, prefix) {
        return None;
    }
    let n = url.unicode_len();
    let p = prefix.unicode_len();
    let value = url.substring_char(p, n);
    proof {
        assert forall|json: Seq<u8>| url@ == deeplink_of(json) implies value@ == percent_encoded(
            base64_standard(json),
        ) by {
            assert(value@ =~= url@.subrange(p as int, n as int));
            assert(url@.subrange(p as int, n as int) =~= percent_encoded(base64_standard(json)));
        }
    }
    match url_decode(value) {
        None => None,
        Some(text) => base64_decode(text.as_str()),
    }
}

} // verus!
