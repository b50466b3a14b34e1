//! The calls this library makes into other crates and into parts of `std`
//! that carry no specification. Verus takes the contracts in this file on
//! trust; everything else in the crate is proved from them.

use crate::text::opt_text;
use vstd::prelude::*;
use vstd::utf8::{decode_utf8, valid_utf8};

verus! {

/// A fresh random identifier.
///
/// Calls `uuid::Uuid::new_v4` and formats the result with its `Display`
/// impl, which writes the hyphenated lower-case form: 36 characters. Which
/// characters is a matter of chance, so nothing else is claimed; the call
/// panics if the operating system hands out no random bytes.
#[verifier::external_body]
pub(crate) fn fresh_id() -> (id: String)
    ensures
        id@.len() == 36,
{
    uuid::Uuid::new_v4().to_string()
}

/// The string that the TOML document `text` holds under `key` of the table
/// `table`; `None` where `text` is no TOML document, has no such table or
/// key, or holds something other than a string there.
pub uninterp spec fn toml_string_at(text: Seq<char>, table: Seq<char>, key: Seq<char>) -> Option<
    Seq<char>,
>;

/// Looks up a string in a TOML document.
///
/// Parses `text` with the `FromStr` impl of `toml::Table`, then walks
/// `toml::Table::get`, `toml::Value::get` and `toml::Value::as_str`. The
/// result is a function of the three arguments alone, and is named by
/// `toml_string_at`; nothing more is claimed of it.
#[verifier::external_body]
pub(crate) fn toml_lookup_string(text: &str, table: &str, key: &str) -> (found: Option<String>)
    ensures
        opt_text(found) == toml_string_at(text@, table@, key@),
{
    let document = text.parse::<toml::Table>().ok()?;
    let value = document.get(table)?.get(key)?.as_str()?;
    Some(value.to_string())
}

/// The boolean that the JSON text `body` holds under `key`; `None` where
/// `body` is no JSON text, is no object, has no such member, or holds
/// something other than a boolean there.
pub uninterp spec fn json_bool_member(body: Seq<u8>, key: Seq<char>) -> Option<bool>;

/// Looks up a boolean member of a JSON object.
///
/// Parses `body` with `serde_json::from_slice` into a `serde_json::Value`,
/// then applies `Value::get` and `Value::as_bool`. The result is a function
/// of the two arguments alone, and is named by `json_bool_member`.
#[verifier::external_body]
pub(crate) fn json_lookup_bool(body: &[u8], key: &str) -> (found: Option<bool>)
    ensures
        found == json_bool_member(body@, key@),
{
    let value = serde_json::from_slice::<serde_json::Value>(body).ok()?;
    value.get(key)?.as_bool()
}

/// The characters of an HTTP token.
pub open spec fn is_token_char(c: char) -> bool {
    ||| 'a' <= c <= 'z'
    ||| 'A' <= c <= 'Z'
    ||| '0' <= c <= '9'
    ||| c == '!' || c == '#' || c == '$' || c == '%' || c == '&' || c == '\''
    ||| c == '*' || c == '+' || c == '-' || c == '.' || c == '^' || c == '_'
    ||| c == '`' || c == '|' || c == '~'
}

/// A method verb is a token of at least one character.
pub open spec fn is_method_token(s: Seq<char>) -> bool {
    s.len() > 0 && forall|i: int| 0 <= i < s.len() ==> is_token_char(#[trigger] s[i])
}

/// Whether `method` is accepted as an HTTP method.
///
/// Calls `reqwest::Method::from_bytes`, which accepts exactly the
/// non-empty byte strings made of token characters, the standard verbs
/// among them.
#[verifier::external_body]
pub(crate) fn method_accepted(method: &str) -> (ok: bool)
    ensures
        ok == is_method_token(method@),
{
    reqwest::Method::from_bytes(method.as_bytes()).is_ok()
}

/// The longest name a header may have, in bytes.
pub const MAX_HEADER_NAME_LEN: usize = 65535;

/// A header name is a token of at most `MAX_HEADER_NAME_LEN` characters.
pub open spec fn is_header_name(s: Seq<char>) -> bool {
    0 < s.len() <= MAX_HEADER_NAME_LEN && forall|i: int|
        0 <= i < s.len() ==> is_token_char(#[trigger] s[i])
}

/// Whether `name` can name a header of an HTTP response.
///
/// Calls `axum::http::HeaderName::from_bytes`, which accepts exactly the
/// byte strings of 1 to 65535 bytes made of token characters; letters in
/// upper case are taken for their lower case.
#[verifier::external_body]
pub(crate) fn header_name_ok(name: &str) -> (ok: bool)
    ensures
        ok == is_header_name(name@),
{
    axum::http::HeaderName::from_bytes(name.as_bytes()).is_ok()
}

/// The characters a header value may hold: everything from the space up,
/// but for DEL, and the tab.
pub open spec fn is_header_value_char(c: char) -> bool {
    (' ' <= c && c != '\x7f') || c == '\t'
}

/// A header value is text of such characters only.
pub open spec fn is_header_value(s: Seq<char>) -> bool {
    forall|i: int| 0 <= i < s.len() ==> is_header_value_char(#[trigger] s[i])
}

/// Whether `value` can be the value of a header of an HTTP response.
///
/// Calls `axum::http::HeaderValue::from_str`, which refuses a string
/// exactly where one of its bytes is below 32 and no tab, or is 127.
#[verifier::external_body]
pub(crate) fn header_value_ok(value: &str) -> (ok: bool)
    ensures
        ok == is_header_value(value@),
{
    axum::http::HeaderValue::from_str(value).is_ok()
}

/// The text that `bytes` encode in UTF-8, or `None` where they encode none.
///
/// Calls `String::from_utf8` on a copy of the bytes.
#[verifier::external_body]
pub(crate) fn text_from_utf8(bytes: &[u8]) -> (text: Option<String>)
    ensures
        text.is_some() == valid_utf8(bytes@),
        text matches Some(s) ==> s@ == decode_utf8(bytes@),
{
    String::from_utf8(bytes.to_vec()).ok()
}

/// `relative` seen from the directory `base`, as `std::path::Path::join`
/// puts the two together.
pub uninterp spec fn path_joined(base: Seq<char>, relative: Seq<char>) -> Seq<char>;

/// `relative` seen from the directory `base`.
///
/// Calls `std::path::Path::join`, which works on the text of the two paths
/// alone. The result is named by `path_joined`; nothing more is claimed.
#[verifier::external_body]
pub(crate) fn path_join(base: &str, relative: &str) -> (joined: String)
    ensures
        joined@ == path_joined(base@, relative@),
{
    std::path::Path::new(base).join(relative).to_string_lossy().into_owned()
}

/// The path without its last component, as `std::path::Path::parent` gives
/// it; `None` where the path ends in a root or is empty.
pub uninterp spec fn path_parent_of(path: Seq<char>) -> Option<Seq<char>>;

/// The directory that holds `path`, if it has one.
///
/// Calls `std::path::Path::parent`, which works on the text of the path
/// alone. The result is named by `path_parent_of`; nothing more is claimed.
#[verifier::external_body]
pub(crate) fn path_parent(path: &str) -> (parent: Option<String>)
    ensures
        opt_text(parent) == path_parent_of(path@),
{
    std::path::Path::new(path).parent().map(|p| p.to_string_lossy().into_owned())
}

/// The last component of the path, as `std::path::Path::file_name` gives
/// it; `None` where the path ends in `..` or names no component.
pub uninterp spec fn path_file_name_of(path: Seq<char>) -> Option<Seq<char>>;

/// The last component of `path`, if it names one.
///
/// Calls `std::path::Path::file_name`, which works on the text of the path
/// alone. The result is named by `path_file_name_of`; nothing more is
/// claimed.
#[verifier::external_body]
pub(crate) fn path_file_name(path: &str) -> (name: Option<String>)
    ensures
        opt_text(name) == path_file_name_of(path@),
{
    std::path::Path::new(path).file_name().map(|n| n.to_string_lossy().into_owned())
}

} // verus!
