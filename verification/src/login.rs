//! Where to get a token for a registry, as its challenges say.

use vstd::prelude::*;

use crate::text::{ends_in_slash, lower, same_ignoring_case};

verus! {

/// The scheme of the challenges that matter to the registry.
pub const SCHEME: &'static str = "Cargo";

/// The parameter of a challenge that says where to get a token.
pub const LOGIN_URL: &'static str = "login_url";

/// What `url::Url::parse` makes of a text: the serialization of the URL, or the error in words.
pub uninterp spec fn url_text(text: Seq<char>) -> Result<Seq<char>, Seq<char>>;

/// Parses `text` with `url::Url::parse`.
///
/// Trusted: the outcome depends on the text alone, and a slash at the end of the text is kept at the
/// end of the serialization, whether it belongs to the path, the query or the fragment. What the
/// outcome is otherwise, is not stated.
#[verifier::external_body]
pub(crate) fn parse_url(text: &str) -> (url: Result<String, String>)
    ensures
        match url {
            Ok(url) => url_text(text@) == Ok::<Seq<char>, Seq<char>>(url@),
            Err(error) => url_text(text@) == Err::<Seq<char>, Seq<char>>(error@),
        },
        ends_in_slash(text@) ==> (url matches Ok(url) ==> ends_in_slash(url@)),
{
    match url::Url::parse(text) {
        Ok(url) => Ok(url.as_str().to_owned()),
        Err(error) => Err(error.to_string()),
    }
}

/// A challenge in a `www-authenticate` header.
#[derive(Debug)]
pub struct Challenge {
    pub scheme: String,
    /// The parameters in order, each with its name and its unescaped value.
    pub params: Vec<(String, String)>,
}

/// What [`Challenge`] holds: the scheme, and the name and the value of each parameter.
pub type ChallengeModel = (Seq<char>, Seq<(Seq<char>, Seq<char>)>);

impl View for Challenge {
    type V = ChallengeModel;

    open spec fn view(&self) -> ChallengeModel {
        (self.scheme@, self.params.deep_view())
    }
}

impl DeepView for Challenge {
    type V = ChallengeModel;

    open spec fn deep_view(&self) -> ChallengeModel {
        self@
    }
}

/// What `http_auth::ChallengeParser` yields for a header value: each challenge with its parameters
/// unescaped, and nothing in the place of one that is malformed.
pub uninterp spec fn challenges(header: Seq<char>) -> Seq<
    Option<(Seq<char>, Seq<(Seq<char>, Seq<char>)>)>,
>;

/// Parses `header` with `http_auth::ChallengeParser`, and its parameters' values with
/// `http_auth::ParamValue::to_unescaped`.
///
/// Trusted: what comes out depends on the header alone. What it is, is not stated.
#[verifier::external_body]
fn parse_challenges(header: &str) -> (parsed: Vec<Option<Challenge>>)
    ensures
        parsed.deep_view() == challenges(header@),
{
    http_auth::ChallengeParser::new(header).map(
        |item| match item {
            Ok(c) => Some(Challenge {
                scheme: c.scheme.to_string(),
                params: c.params.iter().map(|p| (p.0.to_string(), p.1.to_unescaped())).collect(),
            }),
            Err(_) => None,
        },
    ).collect()
}

/// The values of those of `params` that say where to get a token, in order.
pub open spec fn param_logins(params: Seq<(Seq<char>, Seq<char>)>) -> Seq<Seq<char>>
    decreases params.len(),
{
    if params.len() == 0 {
        Seq::empty()
    } else {
        let (name, value) = params.last();
        let earlier = param_logins(params.drop_last());
        if lower(name) == lower(LOGIN_URL@) {
            earlier.push(value)
        } else {
            earlier
        }
    }
}

/// The texts that say where to get a token in those of `parsed` that have the scheme `Cargo`, in
/// order.
pub open spec fn challenge_logins(parsed: Seq<Option<ChallengeModel>>) -> Seq<Seq<char>>
    decreases parsed.len(),
{
    if parsed.len() == 0 {
        Seq::empty()
    } else {
        let earlier = challenge_logins(parsed.drop_last());
        match parsed.last() {
            Some((scheme, params)) if lower(scheme) == lower(SCHEME@) => earlier + param_logins(
                params,
            ),
            _ => earlier,
        }
    }
}

/// The texts that say where to get a token in the `www-authenticate` headers `headers`, in order.
pub open spec fn header_logins(headers: Seq<Seq<char>>) -> Seq<Seq<char>>
    decreases headers.len(),
{
    if headers.len() == 0 {
        Seq::empty()
    } else {
        header_logins(headers.drop_last()) + challenge_logins(challenges(headers.last()))
    }
}

/// Adds to `logins` the texts in `params` that say where to get a token.
fn push_param_logins(logins: &mut Vec<String>, params: &Vec<(String, String)>)
    ensures
        final(logins).deep_view() == old(logins).deep_view() + param_logins(params.deep_view()),
{
    let ghost all = params.deep_view();
    let mut i: usize = 0;
    assert(logins.deep_view() =~= old(logins).deep_view() + param_logins(all.take(0)));
    while i < params.len()
        invariant
            all == params.deep_view(),
            i <= params.len(),
            logins.deep_view() == old(logins).deep_view() + param_logins(all.take(i as int)),
        decreases params.len() - i,
    {
        proof {
            assert(all.take(i + 1).drop_last() =~= all.take(i as int));
            assert(all[i as int] == (params[i as int].0@, params[i as int].1@));
        }
        let ghost before = logins.deep_view();
        if same_ignoring_case(params[i].0.as_str(), LOGIN_URL) {
            logins.push(params[i].1.clone());
            assert(logins.deep_view() =~= before.push(all[i as int].1));
        }
        assert(logins.deep_view() =~= old(logins).deep_view() + param_logins(all.take(i + 1)));
        i = i + 1;
    }
    assert(all.take(i as int) =~= all);
}

/// Adds to `logins` the texts in the challenges `parsed` that say where to get a token.
pub fn push_challenge_logins(logins: &mut Vec<String>, parsed: &Vec<Option<Challenge>>)
    ensures
        final(logins).deep_view() == old(logins).deep_view() + challenge_logins(
            parsed.deep_view(),
        ),
{
    let ghost all = parsed.deep_view();
    let mut i: usize = 0;
    assert(logins.deep_view() =~= old(logins).deep_view() + challenge_logins(all.take(0)));
    while i < parsed.len()
        invariant
            all == parsed.deep_view(),
            i <= parsed.len(),
            logins.deep_view() == old(logins).deep_view() + challenge_logins(all.take(i as int)),
        decreases parsed.len() - i,
    {
        assert(all.take(i + 1).drop_last() =~= all.take(i as int));
        if let Some(challenge) = &parsed[i] {
            if same_ignoring_case(challenge.scheme.as_str(), SCHEME) {
                push_param_logins(logins, &challenge.params);
            }
        }
        assert(logins.deep_view() =~= old(logins).deep_view() + challenge_logins(all.take(i + 1)));
        i = i + 1;
    }
    assert(all.take(i as int) =~= all);
}

/// A text that says where to get a token, and what it is as a URL.
#[derive(Debug)]
pub struct Login {
    pub text: String,
    /// The serialization of the URL, or why the text is none.
    pub url: Result<String, String>,
}

/// What [`Login`] holds.
pub type LoginModel = (Seq<char>, Result<Seq<char>, Seq<char>>);

impl View for Login {
    type V = LoginModel;

    open spec fn view(&self) -> LoginModel {
        (
            self.text@,
            match self.url {
                Ok(url) => Ok(url@),
                Err(error) => Err(error@),
            },
        )
    }
}

impl DeepView for Login {
    type V = LoginModel;

    open spec fn deep_view(&self) -> LoginModel {
        self@
    }
}

/// The last URL before the first of `logins` that is none, or else `current`; and that first one,
/// with the reason.
pub open spec fn last_login(current: Option<Seq<char>>, logins: Seq<LoginModel>) -> (
    Option<Seq<char>>,
    Option<(Seq<char>, Seq<char>)>,
)
    decreases logins.len(),
{
    if logins.len() == 0 {
        (current, None)
    } else {
        match logins[0].1 {
            Ok(url) => last_login(Some(url), logins.drop_first()),
            Err(error) => (current, Some((logins[0].0, error))),
        }
    }
}

/// The last URL before the first of `logins` that is none, or else `current`; and that first one,
/// with the reason.
pub fn pick_login(current: Option<String>, logins: Vec<Login>) -> (picked: (
    Option<String>,
    Option<(String, String)>,
))
    ensures
        (picked.0.deep_view(), picked.1.deep_view()) == last_login(
            current.deep_view(),
            logins.deep_view(),
        ),
{
    let ghost all = logins.deep_view();
    let ghost first = current.deep_view();
    let mut url = current;
    let mut i: usize = 0;
    assert(all.skip(0) =~= all);
    while i < logins.len()
        invariant
            all == logins.deep_view(),
            first == current.deep_view(),
            i <= logins.len(),
            last_login(first, all) == last_login(url.deep_view(), all.skip(i as int)),
        decreases logins.len() - i,
    {
        assert(all.skip(i as int).drop_first() =~= all.skip(i + 1));
        assert(all.skip(i as int)[0] == logins[i as int]@);
        match &logins[i].url {
            Ok(found) => {
                url = Some(found.clone());
            },
            Err(error) => {
                return (url, Some((logins[i].text.clone(), error.clone())));
            },
        }
        i = i + 1;
    }
    (url, None)
}

/// What the `www-authenticate` headers `headers` say about where to get a token.
pub open spec fn logins_of(headers: Seq<Seq<char>>) -> Seq<LoginModel> {
    header_logins(headers).map_values(|text: Seq<char>| (text, url_text(text)))
}

/// Reads what the `www-authenticate` headers `headers` say about where to get a token.
pub fn read_logins(headers: &Vec<String>) -> (logins: Vec<Login>)
    ensures
        logins.deep_view() == logins_of(headers.deep_view()),
{
    let ghost all = headers.deep_view();
    let mut texts: Vec<String> = Vec::new();
    let mut i: usize = 0;
    assert(texts.deep_view() =~= header_logins(all.take(0)));
    while i < headers.len()
        invariant
            all == headers.deep_view(),
            i <= headers.len(),
            texts.deep_view() == header_logins(all.take(i as int)),
        decreases headers.len() - i,
    {
        assert(all.take(i + 1).drop_last() =~= all.take(i as int));
        let parsed = parse_challenges(headers[i].as_str());
        push_challenge_logins(&mut texts, &parsed);
        i = i + 1;
    }
    assert(all.take(i as int) =~= all);
    let mut logins: Vec<Login> = Vec::new();
    let mut j: usize = 0;
    assert(logins.deep_view() =~= logins_of(all).take(0));
    while j < texts.len()
        invariant
            j <= texts.len(),
            texts.deep_view() == header_logins(all),
            logins.deep_view() == logins_of(all).take(j as int),
        decreases texts.len() - j,
    {
        let ghost before = logins.deep_view();
        let url = parse_url(texts[j].as_str());
        let login = Login { text: texts[j].clone(), url };
        assert(login@ == logins_of(all)[j as int]);
        logins.push(login);
        assert(logins.deep_view() =~= before.push(login@));
        assert(logins.deep_view() =~= logins_of(all).take(j + 1));
        j = j + 1;
    }
    assert(logins.deep_view() =~= logins_of(all));
    logins
}

/// The parameters that say where to get a token are those named `login_url`, whatever the case of the
/// letters; their values come in order, and nothing else does.
pub proof fn login_url_says_where(
    before: Seq<(Seq<char>, Seq<char>)>,
    name: Seq<char>,
    value: Seq<char>,
    after: Seq<(Seq<char>, Seq<char>)>,
)
    ensures
        param_logins(Seq::empty()) == Seq::<Seq<char>>::empty(),
        param_logins(seq![(name, value)]) == (if lower(name) == "login_url"@ {
            seq![value]
        } else {
            Seq::empty()
        }),
        param_logins(before + after) == param_logins(before) + param_logins(after),
    decreases after.len(),
{
    reveal_strlit("login_url");
    assert(lower("login_url"@) =~= "login_url"@);
    let one = seq![(name, value)];
    assert(one.drop_last() =~= Seq::empty());
    reveal_with_fuel(param_logins, 2);
    assert(param_logins(one) =~= (if lower(name) == "login_url"@ {
        seq![value]
    } else {
        Seq::empty()
    }));
    if after.len() == 0 {
        assert(before + after =~= before);
        assert(param_logins(before) + param_logins(after) =~= param_logins(before));
    } else {
        login_url_says_where(before, name, value, after.drop_last());
        assert((before + after).drop_last() =~= before + after.drop_last());
        assert(param_logins(before + after) =~= param_logins(before) + param_logins(after));
    }
}

/// Only the challenges of the scheme `Cargo`, whatever the case of the letters, say where to get a
/// token; what they say comes in order.
pub proof fn cargo_challenges_say_where(
    before: Seq<Option<ChallengeModel>>,
    scheme: Seq<char>,
    params: Seq<(Seq<char>, Seq<char>)>,
    after: Seq<Option<ChallengeModel>>,
)
    ensures
        challenge_logins(Seq::empty()) == Seq::<Seq<char>>::empty(),
        challenge_logins(seq![None]) == Seq::<Seq<char>>::empty(),
        challenge_logins(seq![Some((scheme, params))]) == (if lower(scheme) == "cargo"@ {
            param_logins(params)
        } else {
            Seq::empty()
        }),
        challenge_logins(before + after) == challenge_logins(before) + challenge_logins(after),
    decreases after.len(),
{
    reveal_strlit("Cargo");
    reveal_strlit("cargo");
    assert(lower("Cargo"@) =~= "cargo"@);
    let one = seq![Some((scheme, params))];
    let none = seq![None::<ChallengeModel>];
    assert(one.drop_last() =~= Seq::empty());
    assert(none.drop_last() =~= Seq::empty());
    reveal_with_fuel(challenge_logins, 2);
    assert(challenge_logins(one) =~= (if lower(scheme) == "cargo"@ {
        param_logins(params)
    } else {
        Seq::empty()
    }));
    if after.len() == 0 {
        assert(before + after =~= before);
        assert(challenge_logins(before) + challenge_logins(after) =~= challenge_logins(before));
    } else {
        cargo_challenges_say_where(before, scheme, params, after.drop_last());
        assert((before + after).drop_last() =~= before + after.drop_last());
        assert(challenge_logins(before + after) =~= challenge_logins(before) + challenge_logins(
            after,
        ));
    }
}

/// What the headers say about where to get a token is what each says, in order, and each text comes
/// with what it is as a URL.
pub proof fn logins_are_those_of_each_header(
    before: Seq<Seq<char>>,
    header: Seq<char>,
    after: Seq<Seq<char>>,
)
    ensures
        logins_of(Seq::empty()) == Seq::<LoginModel>::empty(),
        logins_of(before + after) == logins_of(before) + logins_of(after),
        logins_of(seq![header]).len() == challenge_logins(challenges(header)).len(),
        forall|i: int|
            0 <= i < challenge_logins(challenges(header)).len() ==> #[trigger] logins_of(
                seq![header],
            )[i] == (
                challenge_logins(challenges(header))[i],
                url_text(challenge_logins(challenges(header))[i]),
            ),
    decreases after.len(),
{
    let one = seq![header];
    assert(one.drop_last() =~= Seq::empty());
    reveal_with_fuel(header_logins, 2);
    assert(header_logins(one) =~= challenge_logins(challenges(header)));
    assert(logins_of(Seq::empty()) =~= Seq::<LoginModel>::empty());
    if after.len() == 0 {
        assert(before + after =~= before);
        assert(logins_of(before) + logins_of(after) =~= logins_of(before));
    } else {
        logins_are_those_of_each_header(before, header, after.drop_last());
        assert((before + after).drop_last() =~= before + after.drop_last());
        assert(header_logins(before + after.drop_last()) =~= header_logins(before) + header_logins(
            after.drop_last(),
        )) by {
            lemma_header_logins_add(before, after.drop_last());
        }
        assert(header_logins(before + after) =~= header_logins(before) + header_logins(after));
        assert(logins_of(before + after) =~= logins_of(before) + logins_of(after));
    }
}

proof fn lemma_header_logins_add(before: Seq<Seq<char>>, after: Seq<Seq<char>>)
    ensures
        header_logins(before + after) == header_logins(before) + header_logins(after),
    decreases after.len(),
{
    if after.len() == 0 {
        assert(before + after =~= before);
        assert(header_logins(before) + header_logins(after) =~= header_logins(before));
    } else {
        lemma_header_logins_add(before, after.drop_last());
        assert((before + after).drop_last() =~= before + after.drop_last());
        assert(header_logins(before + after) =~= header_logins(before) + header_logins(after));
    }
}

/// The last login that is a URL is where to get a token, and what was known before if there is none.
/// The first that is no URL is reported, and what comes after it does not matter.
pub proof fn last_url_says_where(
    current: Option<Seq<char>>,
    urls: Seq<LoginModel>,
    text: Seq<char>,
    error: Seq<char>,
    after: Seq<LoginModel>,
)
    requires
        forall|i: int| 0 <= i < urls.len() ==> (#[trigger] urls[i]).1 is Ok,
    ensures
        last_login(current, urls) == (
            if urls.len() == 0 {
                current
            } else {
                Some(urls.last().1->Ok_0)
            },
            None::<(Seq<char>, Seq<char>)>,
        ),
        last_login(current, urls + seq![(text, Err(error))] + after) == (
            if urls.len() == 0 {
                current
            } else {
                Some(urls.last().1->Ok_0)
            },
            Some((text, error)),
        ),
    decreases urls.len(),
{
    let invalid: Seq<LoginModel> = seq![(text, Err(error))];
    let whole = urls + invalid + after;
    if urls.len() == 0 {
        assert(whole[0] == invalid[0]);
    } else {
        let rest = urls.drop_first();
        assert(urls[0].1 is Ok);
        assert forall|i: int| 0 <= i < rest.len() implies (#[trigger] rest[i]).1 is Ok by {
            assert(urls[i + 1].1 is Ok);
        }
        assert(whole[0] == urls[0]);
        assert(whole.drop_first() =~= rest + invalid + after);
        last_url_says_where(Some(urls[0].1->Ok_0), rest, text, error, after);
    }
}

} // verus!
