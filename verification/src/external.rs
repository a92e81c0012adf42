//! Calls into std and outside crates that Verus cannot read, with the contracts
//! the rest of the library relies on.

use vstd::prelude::*;
use vstd::utf8::{decode_utf8, valid_utf8};

verus! {

/// Builds a `String` from characters, through std's `FromIterator<char>` for `String`.
/// Claimed: the string holds exactly the given characters, in order.
#[verifier::external_body]
pub fn string_from_chars(chars: &[char]) -> (out: String)
    ensures
        out@ == chars@,
{
    chars.iter().collect()
}


/// Name for what `str::to_lowercase` returns: the Unicode `Lowercase` mapping of the text.
pub uninterp spec fn unicode_lowercase(s: Seq<char>) -> Seq<char>;

/// `str::to_lowercase`. Claimed: the result is `unicode_lowercase` of the argument, so equal
/// arguments give equal results, empty text lowercases to empty text, and ASCII text is
/// lowercased letter by letter as `to_ascii_lowercase` does; nothing more is said of the
/// mapping.
#[verifier::external_body]
pub fn to_lowercase(s: &str) -> (out: String)
    ensures
        out@ == unicode_lowercase(s@),
        s@.len() == 0 ==> out@.len() == 0,
        vstd::utf8::is_ascii_chars(s@) ==> out@ == crate::text::lower_seq(s@),
{
    s.to_lowercase()
}


/// Name for the message of the error std gives for bytes that are not UTF-8.
pub uninterp spec fn utf8_error_text(bytes: Seq<u8>) -> Seq<char>;

/// `String::from_utf8`, its error turned to text with `to_string`. Claimed: it succeeds
/// exactly on valid UTF-8, with the decoded characters; the error's text is
/// `utf8_error_text` of the bytes.
#[verifier::external_body]
pub fn string_from_utf8(bytes: Vec<u8>) -> (out: Result<String, String>)
    ensures
        match out {
            Ok(s) => valid_utf8(bytes@) && s@ == decode_utf8(bytes@),
            Err(e) => !valid_utf8(bytes@) && e@ == utf8_error_text(bytes@),
        },
{
    String::from_utf8(bytes).map_err(|err| err.to_string())
}


/// Name for what serde_json reads from `text` under `key`: `None` when `text` is not JSON,
/// `Some(None)` when it is but holds no string under `key` at its top level, else
/// `Some(Some(value))`.
pub uninterp spec fn json_string_member(text: Seq<char>, key: Seq<char>) -> Option<Option<Seq<char>>>;

/// `serde_json::from_str::<Value>` of `text`, then the string member `key` of the value read.
/// Claimed: the outcome is `json_string_member` of the arguments; nothing is said of how
/// serde_json reads JSON.
#[verifier::external_body]
pub fn json_string_field(text: &str, key: &str) -> (out: Option<Option<String>>)
    ensures
        match out {
            None => json_string_member(text@, key@) == None::<Option<Seq<char>>>,
            Some(None) => json_string_member(text@, key@) == Some(None::<Seq<char>>),
            Some(Some(v)) => json_string_member(text@, key@) == Some(Some(v@)),
        },
{
    match serde_json::from_str::<serde_json::Value>(text) {
        Ok(value) => Some(value.get(key).and_then(|member| member.as_str()).map(|member| member.to_string())),
        Err(_) => None,
    }
}



/// Name for what chrono reads from an RFC 3339 date-and-time: the instant, in UTC seconds
/// since the Unix epoch and nanoseconds, or the text of chrono's parse error.
pub uninterp spec fn rfc3339_instant(text: Seq<char>) -> Result<(i64, u32), Seq<char>>;

/// `chrono::DateTime::parse_from_rfc3339`, the result taken to UTC and given by its Unix
/// timestamp and subsecond nanoseconds. Claimed: the outcome is `rfc3339_instant` of the text.
#[verifier::external_body]
pub fn parse_rfc3339(text: &str) -> (out: Result<(i64, u32), String>)
    ensures
        match out {
            Ok(t) => rfc3339_instant(text@) == Ok::<(i64, u32), Seq<char>>(t),
            Err(e) => rfc3339_instant(text@) == Err::<(i64, u32), Seq<char>>(e@),
        },
{
    match chrono::DateTime::parse_from_rfc3339(text) {
        Ok(datetime) => {
            let utc = datetime.with_timezone(&chrono::Utc);
            Ok((utc.timestamp(), utc.timestamp_subsec_nanos()))
        },
        Err(err) => Err(err.to_string()),
    }
}

/// Name for what `serde_json::from_str::<Vec<String>>` reads from `text`: the strings of a
/// JSON array of strings, or the text of serde_json's error.
pub uninterp spec fn json_string_list(text: Seq<char>) -> Result<Seq<Seq<char>>, Seq<char>>;

/// `serde_json::from_str::<Vec<String>>`. Claimed: the outcome is `json_string_list` of the text.
#[verifier::external_body]
pub fn json_decode_strings(text: &str) -> (out: Result<Vec<String>, String>)
    ensures
        match out {
            Ok(v) => json_string_list(text@) == Ok::<Seq<Seq<char>>, Seq<char>>(crate::http::sv(v@)),
            Err(e) => json_string_list(text@) == Err::<Seq<Seq<char>>, Seq<char>>(e@),
        },
{
    serde_json::from_str::<Vec<String>>(text).map_err(|err| err.to_string())
}

/// Name for the JSON text `serde_json::to_string` writes for a list of strings.
pub uninterp spec fn json_strings_text(values: Seq<Seq<char>>) -> Seq<char>;

/// serde_json reads `text` as the list of strings `values`.
pub open spec fn reads_back(text: Seq<char>, values: Seq<Seq<char>>) -> bool {
    json_string_list(text) == Ok::<Seq<Seq<char>>, Seq<char>>(values)
}

/// `serde_json::to_string` of a list of strings. Claimed: it succeeds (serde_json fails only
/// for a failing `Serialize` impl or a map with non-string keys) with `json_strings_text` of
/// the strings, a JSON array of the strings that `serde_json::from_str::<Vec<String>>` reads
/// back as the same strings.
#[verifier::external_body]
pub fn json_encode_strings(values: &Vec<String>) -> (out: String)
    ensures
        out@ == json_strings_text(crate::http::sv(values@)),
        reads_back(out@, crate::http::sv(values@)),
{
    serde_json::to_string(values).unwrap_or_default()
}

/// The platform and URL members of download entries, by their views.
pub open spec fn downloads_view(v: Vec<(Option<String>, Option<String>)>) -> Seq<(Option<Seq<char>>, Option<Seq<char>>)> {
    Seq::new(v@.len(), |i: int| (crate::text::opt_view(v@[i].0), crate::text::opt_view(v@[i].1)))
}

/// Name for what serde_json reads from Chrome for Testing's download metadata `bytes`: the
/// text of serde_json's error when they are not JSON; `None` when the member
/// `channels.Stable.downloads.chrome` is no array; else the `platform` and `url` members of
/// each of its entries, each `None` where it is not a string.
pub uninterp spec fn chrome_downloads(bytes: Seq<u8>) -> Result<Option<Seq<(Option<Seq<char>>, Option<Seq<char>>)>>, Seq<char>>;

/// `serde_json::from_slice::<Value>`, then the entries of `channels.Stable.downloads.chrome`
/// read by `Index` and `as_array`, and their `platform` and `url` by `as_str`. Claimed: the
/// outcome is `chrome_downloads` of the bytes.
#[verifier::external_body]
pub fn json_chrome_downloads(bytes: &[u8]) -> (out: Result<Option<Vec<(Option<String>, Option<String>)>>, String>)
    ensures
        match out {
            Err(e) => chrome_downloads(bytes@) == Err::<Option<Seq<(Option<Seq<char>>, Option<Seq<char>>)>>, Seq<char>>(e@),
            Ok(None) => chrome_downloads(bytes@) == Ok::<Option<Seq<(Option<Seq<char>>, Option<Seq<char>>)>>, Seq<char>>(None),
            Ok(Some(v)) => chrome_downloads(bytes@) == Ok::<Option<Seq<(Option<Seq<char>>, Option<Seq<char>>)>>, Seq<char>>(Some(downloads_view(v))),
        },
{
    let value: serde_json::Value = serde_json::from_slice(bytes).map_err(|err| err.to_string())?;
    Ok(value["channels"]["Stable"]["downloads"]["chrome"].as_array().map(|entries| {
        entries
            .iter()
            .map(|d| (d["platform"].as_str().map(str::to_string), d["url"].as_str().map(str::to_string)))
            .collect()
    }))
}

/// Name for what `Path::parent` gives for `path`: the path without its last component, or
/// `None` when it ends in a root or is empty.
pub uninterp spec fn path_parent(path: Seq<char>) -> Option<Seq<char>>;

/// `Path::parent` of `path`, the result turned back into text. Claimed: the outcome is
/// `path_parent` of the path; nothing is said of how components are found.
#[verifier::external_body]
pub fn parent_of(path: &str) -> (out: Option<String>)
    ensures
        crate::text::opt_view(out) == path_parent(path@),
{
    std::path::Path::new(path).parent().map(|parent| parent.to_string_lossy().to_string())
}

/// Name for what `Path::starts_with` gives: `base` is a prefix of `path` by whole components.
pub uninterp spec fn path_within(path: Seq<char>, base: Seq<char>) -> bool;

/// `Path::starts_with`. Claimed: the outcome is `path_within` of the two paths.
#[verifier::external_body]
pub fn starts_with_path(path: &str, base: &str) -> (r: bool)
    ensures
        r == path_within(path@, base@),
{
    std::path::Path::new(path).starts_with(base)
}

} // verus!
