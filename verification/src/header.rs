//! The headers of a response.

use vstd::prelude::*;
use vstd::utf8::{decode_utf8, valid_utf8};

use crate::registry::HttpRegistry;
use crate::text::{
    contains_char, is_bare, is_blank, is_space, lemma_trimmed_contains, lower, same_ignoring_case,
    split_at_first, split_once, text_is_split_at_first_separator, trim, trim_end, trimmed,
    trimmed_end, trimming_keeps_the_text, trimming_the_end_keeps_the_text,
};

verus! {

pub const ETAG: &'static str = "etag";

pub const LAST_MODIFIED: &'static str = "last-modified";

pub const WWW_AUTHENTICATE: &'static str = "www-authenticate";

/// Reads `bytes` as UTF-8 with `core::str::from_utf8`.
///
/// Trusted: there is a text if and only if the bytes are valid UTF-8, and it is the one that they
/// encode.
#[verifier::external_body]
fn text_from_utf8(bytes: &[u8]) -> (text: Option<&str>)
    ensures
        text is Some <==> valid_utf8(bytes@),
        text matches Some(s) ==> s@ == decode_utf8(bytes@),
{
    core::str::from_utf8(bytes).ok()
}

/// The name and the value in a header line, if `line` is one.
pub open spec fn header_line(line: Seq<u8>) -> Option<(Seq<char>, Seq<char>)> {
    let text = trimmed_end(decode_utf8(line));
    if line.len() == 0 || !valid_utf8(line) || text.contains('\n') {
        None
    } else {
        match split_at_first(text, ':') {
            Some((tag, value)) => Some((tag, trimmed(value))),
            None => None,
        }
    }
}

impl HttpRegistry {
    /// The name and the value in the header line `buf`.
    pub fn handle_http_header(buf: &[u8]) -> (header: Option<(&str, &str)>)
        ensures
            match header {
                Some((tag, value)) => header_line(buf@) == Some((tag@, value@)),
                None => header_line(buf@) is None,
            },
    {
        if buf.len() == 0 {
            return None;
        }
        let text = match text_from_utf8(buf) {
            Some(text) => trim_end(text),
            None => {
                return None;
            },
        };
        // Don't let the server sneak extra lines anywhere.
        if contains_char(text, '\n') {
            return None;
        }
        match split_once(text, ':') {
            Some((tag, value)) => Some((tag, trim(value))),
            None => None,
        }
    }
}

/// The headers of a response that matter to the registry.
#[derive(Debug)]
pub struct Headers {
    pub last_modified: Option<String>,
    pub etag: Option<String>,
    pub www_authenticate: Vec<String>,
}

/// What [`Headers`] hold.
#[verifier::ext_equal]
pub ghost struct HeadersModel {
    pub last_modified: Option<Seq<char>>,
    pub etag: Option<Seq<char>>,
    pub www_authenticate: Seq<Seq<char>>,
}

impl HeadersModel {
    /// No headers.
    pub open spec fn empty() -> HeadersModel {
        HeadersModel { last_modified: None, etag: None, www_authenticate: Seq::empty() }
    }

    /// These headers and then one more.
    ///
    /// Names are compared without regard to ASCII case. A later `last-modified` or `etag` takes the
    /// place of an earlier one; each `www-authenticate` is kept.
    pub open spec fn with(self, tag: Seq<char>, value: Seq<char>) -> HeadersModel {
        if lower(tag) == LAST_MODIFIED@ {
            HeadersModel { last_modified: Some(value), ..self }
        } else if lower(tag) == ETAG@ {
            HeadersModel { etag: Some(value), ..self }
        } else if lower(tag) == WWW_AUTHENTICATE@ {
            HeadersModel { www_authenticate: self.www_authenticate.push(value), ..self }
        } else {
            self
        }
    }

    /// These headers and then what a line adds to them.
    pub open spec fn with_line(self, line: Seq<u8>) -> HeadersModel {
        match header_line(line) {
            Some((tag, value)) => self.with(tag, value),
            None => self,
        }
    }
}

impl View for Headers {
    type V = HeadersModel;

    open spec fn view(&self) -> HeadersModel {
        HeadersModel {
            last_modified: self.last_modified.deep_view(),
            etag: self.etag.deep_view(),
            www_authenticate: self.www_authenticate.deep_view(),
        }
    }
}

/// A text in lower case is its own lower case.
proof fn lemma_names_are_lower()
    ensures
        lower(ETAG@) == ETAG@,
        lower(LAST_MODIFIED@) == LAST_MODIFIED@,
        lower(WWW_AUTHENTICATE@) == WWW_AUTHENTICATE@,
{
    reveal_strlit("etag");
    reveal_strlit("last-modified");
    reveal_strlit("www-authenticate");
    assert(lower(ETAG@) =~= ETAG@);
    assert(lower(LAST_MODIFIED@) =~= LAST_MODIFIED@);
    assert(lower(WWW_AUTHENTICATE@) =~= WWW_AUTHENTICATE@);
}

impl Headers {
    /// No headers.
    pub fn new() -> (headers: Headers)
        ensures
            headers@ == HeadersModel::empty(),
    {
        let headers = Headers { last_modified: None, etag: None, www_authenticate: Vec::new() };
        assert(headers@.www_authenticate =~= Seq::empty());
        headers
    }

    /// Takes note of the header `tag` with the value `value`.
    pub fn record(&mut self, tag: &str, value: &str)
        ensures
            final(self)@ == old(self)@.with(tag@, value@),
    {
        proof {
            lemma_names_are_lower();
        }
        if same_ignoring_case(tag, LAST_MODIFIED) {
            self.last_modified = Some(value.to_owned());
        } else if same_ignoring_case(tag, ETAG) {
            self.etag = Some(value.to_owned());
        } else if same_ignoring_case(tag, WWW_AUTHENTICATE) {
            self.www_authenticate.push(value.to_owned());
            assert(self@.www_authenticate =~= old(self)@.www_authenticate.push(value@));
        }
    }

    /// Takes note of the header line `line`, if it is one.
    pub fn record_line(&mut self, line: &[u8])
        ensures
            final(self)@ == old(self)@.with_line(line@),
    {
        if let Some((tag, value)) = HttpRegistry::handle_http_header(line) {
            self.record(tag, value);
        }
    }
}

/// Each of the three headers that matter changes its own field, to its value, and no other header
/// changes anything. Capitals in its name make no difference.
pub proof fn header_changes_its_own_field(headers: HeadersModel, tag: Seq<char>, value: Seq<char>)
    ensures
        lower(tag) != "last-modified"@ && lower(tag) != "etag"@ && lower(tag)
            != "www-authenticate"@ ==> headers.with(tag, value) == headers,
        lower(tag) == "last-modified"@ ==> {
            &&& headers.with(tag, value).last_modified == Some(value)
            &&& headers.with(tag, value).etag == headers.etag
            &&& headers.with(tag, value).www_authenticate == headers.www_authenticate
        },
        lower(tag) == "etag"@ ==> {
            &&& headers.with(tag, value).etag == Some(value)
            &&& headers.with(tag, value).last_modified == headers.last_modified
            &&& headers.with(tag, value).www_authenticate == headers.www_authenticate
        },
        lower(tag) == "www-authenticate"@ ==> {
            &&& headers.with(tag, value).www_authenticate == headers.www_authenticate.push(value)
            &&& headers.with(tag, value).last_modified == headers.last_modified
            &&& headers.with(tag, value).etag == headers.etag
        },
{
    reveal_strlit("last-modified");
    reveal_strlit("etag");
    reveal_strlit("www-authenticate");
    assert("last-modified"@.len() == 13 && "etag"@.len() == 4 && "www-authenticate"@.len() == 16);
}

/// There are no headers to begin with.
pub proof fn no_headers_to_begin_with()
    ensures
        HeadersModel::empty().last_modified is None,
        HeadersModel::empty().etag is None,
        HeadersModel::empty().www_authenticate.len() == 0,
{
}

/// A header line is read as what stands before its first colon and what stands after, without the
/// white space around it.
pub proof fn header_line_is_read(
    line: Seq<u8>,
    tag: Seq<char>,
    before: Seq<char>,
    value: Seq<char>,
    after: Seq<char>,
)
    requires
        line.len() > 0,
        valid_utf8(line),
        decode_utf8(line) == tag + seq![':'] + before + value + after,
        !tag.contains(':'),
        !tag.contains('\n'),
        !before.contains('\n'),
        !value.contains('\n'),
        is_blank(before),
        is_blank(after),
        is_bare(value),
    ensures
        header_line(line) == Some((tag, value)),
{
    let text = decode_utf8(line);
    let colon = seq![':'];
    if value.len() > 0 {
        let kept = tag + colon + before + value;
        trimming_the_end_keeps_the_text(kept, after);
        assert forall|i: int| 0 <= i < kept.len() implies kept[i] != '\n' by {
            if i < tag.len() {
                assert(tag.contains(tag[i]));
            } else if i == tag.len() {
            } else if i < tag.len() + 1 + before.len() {
                assert(before.contains(before[i - tag.len() - 1]));
            } else {
                assert(value.contains(value[i - tag.len() - 1 - before.len()]));
            }
        }
        assert(kept =~= tag + colon + (before + value));
        text_is_split_at_first_separator(tag, ':', before + value);
        trimming_keeps_the_text(before, value, Seq::empty());
        assert(before + value + Seq::<char>::empty() =~= before + value);
    } else {
        let kept = tag + colon;
        let rest = before + after;
        assert forall|i: int| 0 <= i < rest.len() implies is_space(#[trigger] rest[i]) by {
            if i < before.len() {
                assert(is_space(before[i]));
            } else {
                assert(is_space(after[i - before.len()]));
            }
        }
        assert(text =~= kept + rest);
        assert(kept.last() == ':');
        trimming_the_end_keeps_the_text(kept, rest);
        assert forall|i: int| 0 <= i < kept.len() implies kept[i] != '\n' by {
            if i < tag.len() {
                assert(tag.contains(tag[i]));
            }
        }
        let none = Seq::<char>::empty();
        assert(kept =~= tag + colon + none);
        text_is_split_at_first_separator(tag, ':', none);
        trimming_keeps_the_text(none, none, none);
        assert(none + none + none =~= none);
        assert(value =~= none);
    }
}

/// What is empty, is not UTF-8, has no colon, or has a line break before its end, is no header line.
pub proof fn what_is_no_header_line(line: Seq<u8>, i: int, j: int)
    ensures
        line.len() == 0 ==> header_line(line) is None,
        !valid_utf8(line) ==> header_line(line) is None,
        !decode_utf8(line).contains(':') ==> header_line(line) is None,
        0 <= i < j < decode_utf8(line).len() && decode_utf8(line)[i] == '\n' && !is_space(
            decode_utf8(line)[j],
        ) ==> header_line(line) is None,
{
    let text = decode_utf8(line);
    if !text.contains(':') {
        lemma_trimmed_contains(text, ':');
        text_is_split_at_first_separator(trimmed_end(text), ':', Seq::empty());
    }
    if 0 <= i < j < text.len() && text[i] == '\n' && !is_space(text[j]) {
        lemma_trimmed_end_reaches(text, j);
        assert(trimmed_end(text)[i] == '\n');
    }
}

/// Trimming the end does not reach beyond what is no white space.
proof fn lemma_trimmed_end_reaches(s: Seq<char>, j: int)
    requires
        0 <= j < s.len(),
        !is_space(s[j]),
    ensures
        j < trimmed_end(s).len(),
        forall|i: int| 0 <= i <= j ==> #[trigger] trimmed_end(s)[i] == s[i],
    decreases s.len(),
{
    if is_space(s.last()) {
        lemma_trimmed_end_reaches(s.drop_last(), j);
        assert forall|i: int| 0 <= i <= j implies #[trigger] trimmed_end(s)[i] == s[i] by {
            assert(trimmed_end(s.drop_last())[i] == s.drop_last()[i]);
        }
    }
}

} // verus!
