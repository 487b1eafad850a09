//! Queries to a local file-search HTTP service: the request URL and the
//! shape of its answer. Sending the request is the caller's.

use vstd::prelude::*;
use crate::number::{decimal, decimal_digits};

verus! {

/// One file that the search service found.
#[derive(Debug)]
pub struct SearchResult {
    pub name: String,
    pub path: String,
    /// `file` or `folder`, as the service calls it.
    pub file_type: String,
    pub size: Option<String>,
    pub date_modified: Option<String>,
    pub date_created: Option<String>,
    pub attributes: Option<String>,
}

/// The service's answer: how many files matched, and one page of them.
#[derive(Debug)]
pub struct SearchResponse {
    pub total_results: u32,
    pub results: Vec<SearchResult>,
}

/// A search, each option left out taking the service's usual value.
pub struct SearchQuery {
    pub search: String,
    pub offset: Option<u32>,
    pub count: Option<u32>,
    pub sort: Option<String>,
    pub ascending: Option<bool>,
    pub case: Option<bool>,
    pub wholeword: Option<bool>,
    pub path: Option<bool>,
    pub regex: Option<bool>,
    pub path_column: Option<u32>,
    pub size_column: Option<u32>,
    pub date_modified_column: Option<u32>,
    pub host: Option<String>,
    pub port: Option<u32>,
}

/// Percent-encoding of text for a URL query.
pub uninterp spec fn url_encoded(s: Seq<char>) -> Seq<char>;

/// Relies on `urlencoding::encode`: every UTF-8 byte but ASCII letters,
/// digits and `-`, `_`, `.`, `~` is written as `%XX`.
#[verifier::external_body]
fn url_encode(s: &str) -> (r: String)
    ensures
        r@ == url_encoded(s@),
{
    urlencoding::encode(s).into_owned()
}

pub open spec fn flag_text(b: Option<bool>, default: bool) -> Seq<char> {
    if match b {
        Some(x) => x,
        None => default,
    } {
        "1"@
    } else {
        "0"@
    }
}

pub open spec fn number_text(n: Option<u32>, default: nat) -> Seq<char> {
    decimal_digits(
        match n {
            Some(x) => x as nat,
            None => default,
        },
    )
}

pub open spec fn text_or(s: Option<String>, default: Seq<char>) -> Seq<char> {
    match s {
        Some(t) => t@,
        None => default,
    }
}

/// The URL of a query: host `localhost` and port 8080 unless given; the
/// first 20 results sorted by name, ascending, unless asked otherwise;
/// switches off and every column on unless asked otherwise.
pub open spec fn search_url(q: SearchQuery) -> Seq<char> {
    "http://"@ + text_or(q.host, "localhost"@) + ":"@ + number_text(q.port, 8080) + "/?search="@
        + url_encoded(q.search@) + "&json=1&offset="@ + number_text(q.offset, 0) + "&count="@
        + number_text(q.count, 20) + "&sort="@ + text_or(q.sort, "name"@) + "&ascending="@
        + flag_text(q.ascending, true) + "&case="@ + flag_text(q.case, false) + "&wholeword="@
        + flag_text(q.wholeword, false) + "&path="@ + flag_text(q.path, false) + "&regex="@
        + flag_text(q.regex, false) + "&path_column="@ + number_text(q.path_column, 1)
        + "&size_column="@ + number_text(q.size_column, 1) + "&date_modified_column="@
        + number_text(q.date_modified_column, 1) + "&date_created_column=1&attributes_column=1"@
}

fn flag(b: Option<bool>, default: bool) -> (r: &'static str)
    ensures
        r@ == flag_text(b, default),
{
    let on = match b {
        Some(x) => x,
        None => default,
    };
    if on {
        "1"
    } else {
        "0"
    }
}

fn number(n: Option<u32>, default: u32) -> (r: String)
    ensures
        r@ == number_text(n, default as nat),
{
    match n {
        Some(x) => decimal(x as u64),
        None => decimal(default as u64),
    }
}

fn append_text_or(m: &mut String, s: &Option<String>, default: &str)
    ensures
        final(m)@ == old(m)@ + text_or(*s, default@),
{
    match s {
        Some(t) => m.append(t.as_str()),
        None => m.append(default),
    }
}

/// The URL that asks the search service for `q`.
pub fn everything_search_url(q: &SearchQuery) -> (r: String)
    ensures
        r@ == search_url(*q),
{
    let mut m = String::from_str("http://");
    append_text_or(&mut m, &q.host, "localhost");
    m.append(":");
    m.append(number(q.port, 8080).as_str());
    m.append("/?search=");
    m.append(url_encode(q.search.as_str()).as_str());
    m.append("&json=1&offset=");
    m.append(number(q.offset, 0).as_str());
    m.append("&count=");
    m.append(number(q.count, 20).as_str());
    m.append("&sort=");
    append_text_or(&mut m, &q.sort, "name");
    m.append("&ascending=");
    m.append(flag(q.ascending, true));
    m.append("&case=");
    m.append(flag(q.case, false));
    m.append("&wholeword=");
    m.append(flag(q.wholeword, false));
    m.append("&path=");
    m.append(flag(q.path, false));
    m.append("&regex=");
    m.append(flag(q.regex, false));
    m.append("&path_column=");
    m.append(number(q.path_column, 1).as_str());
    m.append("&size_column=");
    m.append(number(q.size_column, 1).as_str());
    m.append("&date_modified_column=");
    m.append(number(q.date_modified_column, 1).as_str());
    m.append("&date_created_column=1&attributes_column=1");
    m
}

} // verus!
