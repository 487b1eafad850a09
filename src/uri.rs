//! Conversion of `file://` URIs into native absolute paths.

use vstd::prelude::*;
use crate::text::{chars_of, string_of, replace_chars, replace_char, slice_chars};

verus! {

/// What percent-decoding `s` as UTF-8 gives, or `None` where the decoded
/// bytes are not UTF-8.
pub uninterp spec fn percent_decoded(s: Seq<char>) -> Option<Seq<char>>;

/// The characters of an optional string.
pub open spec fn opt_chars(r: Option<String>) -> Option<Seq<char>> {
    match r {
        Some(v) => Some(v@),
        None => None,
    }
}

/// Relies on `urlencoding::decode`: percent-decoding that fails only when the
/// decoded bytes are not UTF-8, and hands back text without `%` unchanged.
#[verifier::external_body]
fn percent_decode(s: &str) -> (r: Option<String>)
    ensures
        opt_chars(r) == percent_decoded(s@),
        !s@.contains('%') ==> opt_chars(r) == Some(s@),
{
    urlencoding::decode(s).ok().map(|c| c.into_owned())
}

/// Relies on `std::path::MAIN_SEPARATOR`: the platform's path separator,
/// `\` on Windows and `/` elsewhere.
#[verifier::external_body]
pub(crate) fn native_separator() -> (r: char)
    ensures
        r == '/' || r == '\\',
{
    std::path::MAIN_SEPARATOR
}

/// Whether `u` starts with the `file://` scheme, the scheme's letters
/// matched without regard to case.
pub open spec fn has_file_scheme(u: Seq<char>) -> bool {
    &&& u.len() >= 7
    &&& u[0] == 'f' || u[0] == 'F'
    &&& u[1] == 'i' || u[1] == 'I'
    &&& u[2] == 'l' || u[2] == 'L'
    &&& u[3] == 'e' || u[3] == 'E'
    &&& u[4] == ':'
    &&& u[5] == '/'
    &&& u[6] == '/'
}

/// A Windows drive path arrives as `/C:/...`: the leading slash goes.
pub open spec fn without_drive_slash(p: Seq<char>) -> Seq<char> {
    if p.len() >= 3 && p[0] == '/' && p[2] == ':' {
        p.drop_first()
    } else {
        p
    }
}

/// The native path that a `file://` URI names, with `sep` as separator;
/// `None` for any other scheme or for an undecodable remainder.
pub open spec fn file_uri_path(uri: Seq<char>, sep: char) -> Option<Seq<char>> {
    if !has_file_scheme(uri) {
        None
    } else {
        match percent_decoded(uri.subrange(7, uri.len() as int)) {
            Some(d) => Some(replace_char(without_drive_slash(d), '/', sep)),
            None => None,
        }
    }
}

/// Decodes a `file://` URI into a path whose separators are `sep`.
pub fn decode_file_uri_with(uri: &str, sep: char) -> (r: Option<String>)
    ensures
        opt_chars(r) == file_uri_path(uri@, sep),
        has_file_scheme(uri@) && !uri@.subrange(7, uri@.len() as int).contains('%') ==> opt_chars(r) == Some(
            replace_char(without_drive_slash(uri@.subrange(7, uri@.len() as int)), '/', sep),
        ),
{
    let u = chars_of(uri);
    let scheme = u.len() >= 7 && (u[0] == 'f' || u[0] == 'F') && (u[1] == 'i' || u[1] == 'I')
        && (u[2] == 'l' || u[2] == 'L') && (u[3] == 'e' || u[3] == 'E') && u[4] == ':'
        && u[5] == '/' && u[6] == '/';
    if !scheme {
        return None;
    }
    let rest = string_of(&slice_chars(&u, 7, u.len()));
    match percent_decode(rest.as_str()) {
        None => None,
        Some(decoded) => {
            let d = chars_of(decoded.as_str());
            let trimmed = if d.len() >= 3 && d[0] == '/' && d[2] == ':' {
                slice_chars(&d, 1, d.len())
            } else {
                d
            };
            proof {
                if d@.len() >= 3 && d@[0] == '/' && d@[2] == ':' {
                    assert(trimmed@ =~= d@.drop_first());
                }
            }
            Some(string_of(&replace_chars(&trimmed, '/', sep)))
        },
    }
}

/// Decodes a `file://` URI into a native path: the scheme is matched without
/// regard to case and stripped, the rest percent-decoded, the slash before a
/// drive letter dropped, and every `/` turned into the platform's separator.
/// Any other scheme gives `None`.
pub fn decode_file_uri(uri: &str) -> (r: Option<String>)
    ensures
        exists|sep: char|
            (sep == '/' || sep == '\\') && opt_chars(r) == file_uri_path(uri@, sep) && (has_file_scheme(uri@)
                && !uri@.subrange(7, uri@.len() as int).contains('%') ==> opt_chars(r) == Some(
                replace_char(without_drive_slash(uri@.subrange(7, uri@.len() as int)), '/', sep),
            )),
{
    let sep = native_separator();
    let r = decode_file_uri_with(uri, sep);
    r
}

} // verus!
