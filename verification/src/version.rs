//! Versions of index files, and the conditional requests that they make possible.

use vstd::prelude::*;

use crate::header::{Headers, HeadersModel, ETAG, LAST_MODIFIED};
use crate::text::{
    lemma_no_separator, lemma_split_is_whole, lemma_trimmed_after_space, same_text, split_at_first,
    split_once, text_is_split_at_first_separator, trim, trimmed,
};

verus! {

pub const IF_NONE_MATCH: &'static str = "if-none-match";

pub const IF_MODIFIED_SINCE: &'static str = "if-modified-since";

/// The version of a file whose response says nothing about it.
pub const UNKNOWN: &'static str = "Unknown";

/// A name and a value on one line.
pub open spec fn line(name: Seq<char>, value: Seq<char>) -> Seq<char> {
    name + ": "@ + value
}

fn make_line(name: &str, value: &str) -> (r: String)
    ensures
        r@ == line(name@, value@),
{
    let mut r = name.to_owned();
    r.append(": ");
    r.append(value);
    r
}

/// The version of a file whose response has the headers `headers`.
pub open spec fn version_of(headers: HeadersModel) -> Seq<char> {
    if let Some(etag) = headers.etag {
        line(ETAG@, etag)
    } else if let Some(date) = headers.last_modified {
        line(LAST_MODIFIED@, date)
    } else {
        UNKNOWN@
    }
}

/// The version of a file whose response has the headers `headers`.
pub fn index_version(headers: &Headers) -> (version: String)
    ensures
        version@ == version_of(headers@),
{
    if let Some(etag) = &headers.etag {
        make_line(ETAG, etag.as_str())
    } else if let Some(date) = &headers.last_modified {
        make_line(LAST_MODIFIED, date.as_str())
    } else {
        UNKNOWN.to_owned()
    }
}

/// The header that asks for a file only if it is no longer the version `version`, if the version
/// says enough for that.
pub open spec fn condition(version: Seq<char>) -> Option<Seq<char>> {
    match split_at_first(version, ':') {
        Some((key, value)) => {
            if key == ETAG@ {
                Some(line(IF_NONE_MATCH@, trimmed(value)))
            } else if key == LAST_MODIFIED@ {
                Some(line(IF_MODIFIED_SINCE@, trimmed(value)))
            } else {
                None
            }
        },
        None => None,
    }
}

fn make_condition(version: &str) -> (header: Option<String>)
    ensures
        header.deep_view() == condition(version@),
{
    match split_once(version, ':') {
        Some((key, value)) => {
            if same_text(key, ETAG) {
                Some(make_line(IF_NONE_MATCH, trim(value)))
            } else if same_text(key, LAST_MODIFIED) {
                Some(make_line(IF_MODIFIED_SINCE, trim(value)))
            } else {
                None
            }
        },
        None => None,
    }
}

/// The headers of a request for a file of which the version `version` is at hand, with the
/// authorization `authorization`.
pub open spec fn request_headers(
    version: Option<Seq<char>>,
    authorization: Option<Seq<char>>,
) -> Seq<Seq<char>> {
    let always = seq!["cargo-protocol: version=1"@, "accept: text/plain"@];
    let conditional = match version {
        Some(version) => match condition(version) {
            Some(header) => always.push(header),
            None => always,
        },
        None => always,
    };
    match authorization {
        Some(token) => conditional.push(line("Authorization"@, token)),
        None => conditional,
    }
}

/// The headers of a request for a file of which the version `version` is at hand, with the
/// authorization `authorization`.
pub fn make_request_headers(version: Option<&str>, authorization: Option<&str>) -> (headers: Vec<
    String,
>)
    ensures
        headers.deep_view() == request_headers(version.deep_view(), authorization.deep_view()),
{
    let mut headers: Vec<String> = Vec::new();
    // The protocol lets the server know that the client speaks it.
    headers.push("cargo-protocol: version=1".to_owned());
    headers.push("accept: text/plain".to_owned());
    let ghost always = seq!["cargo-protocol: version=1"@, "accept: text/plain"@];
    assert(headers.deep_view() =~= always);
    if let Some(version) = version {
        if let Some(header) = make_condition(version) {
            headers.push(header);
            assert(headers.deep_view() =~= always.push(header@));
        }
    }
    let ghost conditional = headers.deep_view();
    if let Some(token) = authorization {
        let header = make_line("Authorization", token);
        headers.push(header);
        assert(headers.deep_view() =~= conditional.push(header@));
    }
    headers
}

proof fn lemma_split_line(name: Seq<char>, value: Seq<char>)
    requires
        forall|i: int| 0 <= i < name.len() ==> name[i] != ':',
    ensures
        split_at_first(line(name, value), ':') == Some((name, seq![' '] + value)),
    decreases name.len(),
{
    reveal_strlit(": ");
    let whole = line(name, value);
    if name.len() == 0 {
        assert(whole.drop_first() =~= seq![' '] + value);
        assert(name =~= Seq::empty());
    } else {
        lemma_split_line(name.drop_first(), value);
        assert(whole.drop_first() =~= line(name.drop_first(), value));
        assert(seq![name[0]] + name.drop_first() =~= name);
    }
}

/// The version that a response gives a file is the one that the next request for the file asks
/// about: by its entity tag if there is one, else by its date, and else not at all.
pub proof fn version_is_asked_about(headers: HeadersModel)
    ensures
        condition(version_of(headers)) == (if let Some(etag) = headers.etag {
            Some(line(IF_NONE_MATCH@, trimmed(etag)))
        } else if let Some(date) = headers.last_modified {
            Some(line(IF_MODIFIED_SINCE@, trimmed(date)))
        } else {
            None
        }),
{
    reveal_strlit("etag");
    reveal_strlit("last-modified");
    reveal_strlit("Unknown");
    if let Some(etag) = headers.etag {
        lemma_split_line(ETAG@, etag);
        lemma_trimmed_after_space(' ', etag);
    } else if let Some(date) = headers.last_modified {
        assert(LAST_MODIFIED@.len() != ETAG@.len());
        lemma_split_line(LAST_MODIFIED@, date);
        lemma_trimmed_after_space(' ', date);
    } else {
        lemma_no_separator(UNKNOWN@, ':');
    }
}

/// The version of a file is its entity tag if there is one, else its date, and else unknown.
pub proof fn version_is_tag_or_date(headers: HeadersModel)
    ensures
        headers.etag matches Some(etag) ==> version_of(headers) == "etag: "@ + etag,
        headers.etag is None ==> (headers.last_modified matches Some(date) ==> version_of(headers)
            == "last-modified: "@ + date),
        headers.etag is None && headers.last_modified is None ==> version_of(headers)
            == "Unknown"@,
{
    reveal_strlit("etag");
    reveal_strlit("last-modified");
    reveal_strlit(": ");
    reveal_strlit("etag: ");
    reveal_strlit("last-modified: ");
    assert("etag: "@ =~= ETAG@ + ": "@);
    assert("last-modified: "@ =~= LAST_MODIFIED@ + ": "@);
}

proof fn lemma_prefix(version: Seq<char>, name: Seq<char>)
    requires
        forall|i: int| 0 <= i < name.len() ==> name[i] != ':',
    ensures
        name.push(':').is_prefix_of(version) ==> split_at_first(version, ':') == Some(
            (name, version.skip(name.len() as int + 1)),
        ),
        !name.push(':').is_prefix_of(version) ==> !(split_at_first(version, ':') matches Some(
            (key, _),
        ) && key == name),
{
    let n = name.len() as int;
    if name.push(':').is_prefix_of(version) {
        let rest = version.skip(n + 1);
        assert(version =~= name + seq![':'] + rest) by {
            assert forall|i: int| 0 <= i <= n implies version[i] == name.push(':')[i] by {}
        }
        assert(!name.contains(':'));
        text_is_split_at_first_separator(name, ':', rest);
    } else {
        lemma_split_is_whole(version, ':');
        if let Some((key, after)) = split_at_first(version, ':') {
            if key == name {
                assert(version == name + seq![':'] + after);
                assert(version.subrange(0, n + 1) =~= name.push(':'));
            }
        }
    }
}

/// A request is conditional if and only if the version at hand is a tag or a date: the tag, or the
/// date, is sent as it is, without the white space around it.
pub proof fn request_asks_about_tag_or_date(version: Seq<char>)
    ensures
        "etag:"@.is_prefix_of(version) ==> condition(version) == Some(
            "if-none-match: "@ + trimmed(version.skip(5)),
        ),
        "last-modified:"@.is_prefix_of(version) ==> condition(version) == Some(
            "if-modified-since: "@ + trimmed(version.skip(14)),
        ),
        !"etag:"@.is_prefix_of(version) && !"last-modified:"@.is_prefix_of(version)
            ==> condition(version) is None,
{
    reveal_strlit("etag");
    reveal_strlit("last-modified");
    reveal_strlit("etag:");
    reveal_strlit("last-modified:");
    reveal_strlit(": ");
    reveal_strlit("if-none-match");
    reveal_strlit("if-modified-since");
    reveal_strlit("if-none-match: ");
    reveal_strlit("if-modified-since: ");
    assert("etag:"@ =~= ETAG@.push(':'));
    assert("last-modified:"@ =~= LAST_MODIFIED@.push(':'));
    assert("if-none-match: "@ =~= IF_NONE_MATCH@ + ": "@);
    assert("if-modified-since: "@ =~= IF_MODIFIED_SINCE@ + ": "@);
    assert(ETAG@.len() == 4 && LAST_MODIFIED@.len() == 13);
    lemma_prefix(version, ETAG@);
    lemma_prefix(version, LAST_MODIFIED@);
}

/// A request with a token is the request without one and then the line that holds the token,
/// whatever version is at hand.
pub proof fn token_is_the_last_header(version: Option<Seq<char>>, token: Seq<char>)
    ensures
        request_headers(version, Some(token)) == request_headers(version, None).push(
            "Authorization: "@ + token,
        ),
{
    reveal_strlit("Authorization");
    reveal_strlit(": ");
    reveal_strlit("Authorization: ");
    assert("Authorization: "@ =~= "Authorization"@ + ": "@);
}

/// Every request names the protocol and what it accepts, in this order, and then the condition if the
/// version at hand makes one possible. There is nothing else.
pub proof fn request_names_protocol_first(version: Seq<char>)
    ensures
        request_headers(None, None) == seq!["cargo-protocol: version=1"@, "accept: text/plain"@],
        condition(version) matches Some(header) ==> request_headers(Some(version), None) == seq![
            "cargo-protocol: version=1"@,
            "accept: text/plain"@,
            header,
        ],
        condition(version) is None ==> request_headers(Some(version), None) == request_headers(
            None,
            None,
        ),
{
    if let Some(header) = condition(version) {
        assert(request_headers(Some(version), None) =~= seq![
            "cargo-protocol: version=1"@,
            "accept: text/plain"@,
            header,
        ]);
    }
}

} // verus!
