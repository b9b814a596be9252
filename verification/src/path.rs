//! Paths of files within a registry index.

use vstd::prelude::*;

use crate::text::{chars_of, same_text};

verus! {

/// The file that holds the configuration of a registry.
pub const CONFIG_JSON: &'static str = "config.json";

/// A component of a path.
#[derive(Debug)]
pub enum Part {
    /// What stands before the root on some systems, such as a drive.
    Prefix(String),
    Root,
    Current,
    Parent,
    Normal(String),
}

/// What [`Part`] holds.
#[verifier::ext_equal]
pub ghost enum PartModel {
    Prefix(Seq<char>),
    Root,
    Current,
    Parent,
    Normal(Seq<char>),
}

impl View for Part {
    type V = PartModel;

    open spec fn view(&self) -> PartModel {
        match self {
            Part::Prefix(text) => PartModel::Prefix(text@),
            Part::Root => PartModel::Root,
            Part::Current => PartModel::Current,
            Part::Parent => PartModel::Parent,
            Part::Normal(text) => PartModel::Normal(text@),
        }
    }
}

impl DeepView for Part {
    type V = PartModel;

    open spec fn deep_view(&self) -> PartModel {
        self@
    }
}

/// The position of the last `/` in `s`, or -1.
pub open spec fn last_slash(s: Seq<char>) -> int
    decreases s.len(),
{
    if s.len() == 0 || s.last() == '/' {
        s.len() - 1
    } else {
        last_slash(s.drop_last())
    }
}

proof fn lemma_last_slash(s: Seq<char>)
    ensures
        -1 <= last_slash(s) < s.len(),
    decreases s.len(),
{
    if s.len() == 0 || s.last() == '/' {
    } else {
        lemma_last_slash(s.drop_last());
    }
}

/// Whether `text` is a path in which no system finds a separator but `/`, nor a prefix.
pub open spec fn is_plain(text: Seq<char>) -> bool {
    &&& !(text.len() > 1 && text[0] == '/' && text[1] == '/')
    &&& forall|i: int| 0 <= i < text.len() ==> text[i] != '\\' && text[i] != ':'
}

/// The components of the plain path `text`.
///
/// Repeated separators, a separator at the end and `.` components other than at the start make no
/// difference.
pub open spec fn plain_parts(text: Seq<char>) -> Seq<PartModel>
    decreases text.len(),
    via plain_parts_decreases
{
    let i = last_slash(text);
    if i < 0 {
        first_part(text)
    } else if i == 0 {
        later_part(seq![PartModel::Root], text.skip(1))
    } else {
        later_part(plain_parts(text.take(i)), text.skip(i + 1))
    }
}

#[via_fn]
proof fn plain_parts_decreases(text: Seq<char>) {
    lemma_last_slash(text);
}

/// The components of the text before the first separator.
pub open spec fn first_part(piece: Seq<char>) -> Seq<PartModel> {
    if piece == seq!['.'] {
        seq![PartModel::Current]
    } else {
        later_part(Seq::empty(), piece)
    }
}

/// The components `base` and then those of the text after a separator.
pub open spec fn later_part(base: Seq<PartModel>, piece: Seq<char>) -> Seq<PartModel> {
    if piece.len() == 0 || piece == seq!['.'] {
        base
    } else if piece == seq!['.', '.'] {
        base.push(PartModel::Parent)
    } else {
        base.push(PartModel::Normal(piece))
    }
}

/// The components of `text` with `std::path::Path::components`.
///
/// Trusted: the components of a plain path are those that its pieces between `/` stand for. Those of
/// other paths depend on the system, and are not stated.
#[verifier::external_body]
fn parts_of(text: &str) -> (parts: Vec<Part>)
    ensures
        is_plain(text@) ==> parts.deep_view() == plain_parts(text@),
{
    std::path::Path::new(text).components().map(
        |component| match component {
            std::path::Component::Prefix(prefix) => Part::Prefix(format!("{:?}", prefix.kind())),
            std::path::Component::RootDir => Part::Root,
            std::path::Component::CurDir => Part::Current,
            std::path::Component::ParentDir => Part::Parent,
            std::path::Component::Normal(name) => Part::Normal(name.to_string_lossy().into_owned()),
        },
    ).collect()
}

/// `text` with each `/` doubled.
pub open spec fn escaped(text: Seq<char>) -> Seq<char>
    decreases text.len(),
{
    if text.len() == 0 {
        text
    } else {
        escaped_char(text[0]) + escaped(text.drop_first())
    }
}

/// `c`, doubled if it is `/`.
pub open spec fn escaped_char(c: char) -> Seq<char> {
    if c == '/' {
        seq![c, c]
    } else {
        seq![c]
    }
}

/// What is written in a component.
pub open spec fn part_text(part: PartModel) -> Seq<char> {
    match part {
        PartModel::Prefix(text) => text,
        PartModel::Normal(text) => text,
        _ => Seq::empty(),
    }
}

/// The letter that says which component it is.
pub open spec fn part_tag(part: PartModel) -> char {
    match part {
        PartModel::Prefix(_) => 'p',
        PartModel::Root => 'r',
        PartModel::Current => 'c',
        PartModel::Parent => 'u',
        PartModel::Normal(_) => 'n',
    }
}

/// A component as text: what is written in it, and after a single `/` which component it is.
pub open spec fn part_key(part: PartModel) -> Seq<char> {
    escaped(part_text(part)) + seq!['/', part_tag(part)]
}

/// The components `parts` as one text.
pub open spec fn parts_key(parts: Seq<PartModel>) -> Seq<char>
    decreases parts.len(),
{
    if parts.len() == 0 {
        Seq::empty()
    } else {
        part_key(parts[0]) + parts_key(parts.drop_first())
    }
}

proof fn lemma_escaped_push(text: Seq<char>, c: char)
    ensures
        escaped(text.push(c)) == escaped(text) + escaped_char(c),
    decreases text.len(),
{
    let longer = text.push(c);
    if text.len() == 0 {
        assert(longer.drop_first() =~= text);
        reveal_with_fuel(escaped, 2);
        assert(escaped(longer) =~= escaped_char(c));
        assert(escaped(text) + escaped_char(c) =~= escaped_char(c));
    } else {
        assert(longer.drop_first() =~= text.drop_first().push(c));
        lemma_escaped_push(text.drop_first(), c);
        assert(escaped(longer) =~= escaped(text) + escaped_char(c));
    }
}

proof fn lemma_parts_key_push(parts: Seq<PartModel>, part: PartModel)
    ensures
        parts_key(parts.push(part)) == parts_key(parts) + part_key(part),
    decreases parts.len(),
{
    let longer = parts.push(part);
    if parts.len() == 0 {
        assert(longer.drop_first() =~= parts);
        reveal_with_fuel(parts_key, 2);
        assert(parts_key(longer) =~= part_key(part));
        assert(parts_key(parts) + part_key(part) =~= part_key(part));
    } else {
        assert(longer.drop_first() =~= parts.drop_first().push(part));
        lemma_parts_key_push(parts.drop_first(), part);
        assert(parts_key(longer) =~= parts_key(parts) + part_key(part));
    }
}

/// Where a text ends and which component it is can be read off.
proof fn lemma_first_part(
    a: Seq<char>,
    x: char,
    after_a: Seq<char>,
    b: Seq<char>,
    y: char,
    after_b: Seq<char>,
)
    requires
        x != '/',
        y != '/',
        escaped(a) + seq!['/', x] + after_a == escaped(b) + seq!['/', y] + after_b,
    ensures
        a == b,
        x == y,
        after_a == after_b,
    decreases a.len(),
{
    let whole = escaped(a) + seq!['/', x] + after_a;
    let same = escaped(b) + seq!['/', y] + after_b;
    if a.len() == 0 && b.len() == 0 {
        assert(whole[1] == x && same[1] == y);
        assert(whole.skip(2) =~= after_a);
        assert(same.skip(2) =~= after_b);
        assert(a =~= b);
    } else if a.len() == 0 {
        assert(whole[0] == '/' && whole[1] == x);
        assert(same[0] == b[0]);
        assert(b[0] == '/' ==> same[1] == '/');
    } else if b.len() == 0 {
        assert(same[0] == '/' && same[1] == y);
        assert(whole[0] == a[0]);
        assert(a[0] == '/' ==> whole[1] == '/');
    } else {
        assert(whole[0] == a[0] && same[0] == b[0]);
        let n = escaped_char(a[0]).len() as int;
        let rest_a = a.drop_first();
        let rest_b = b.drop_first();
        assert(whole.skip(n) =~= escaped(rest_a) + seq!['/', x] + after_a);
        assert(same.skip(n) =~= escaped(rest_b) + seq!['/', y] + after_b);
        lemma_first_part(rest_a, x, after_a, rest_b, y, after_b);
        assert(a =~= seq![a[0]] + rest_a);
        assert(b =~= seq![b[0]] + rest_b);
    }
}

/// Different components have different keys.
proof fn lemma_parts_key_injective(a: Seq<PartModel>, b: Seq<PartModel>)
    requires
        parts_key(a) == parts_key(b),
    ensures
        a == b,
    decreases a.len(),
{
    if a.len() == 0 || b.len() == 0 {
        assert(a =~= b);
    } else {
        let rest_a = a.drop_first();
        let rest_b = b.drop_first();
        assert(parts_key(a) =~= escaped(part_text(a[0])) + seq!['/', part_tag(a[0])] + parts_key(
            rest_a,
        ));
        assert(parts_key(b) =~= escaped(part_text(b[0])) + seq!['/', part_tag(b[0])] + parts_key(
            rest_b,
        ));
        lemma_first_part(
            part_text(a[0]),
            part_tag(a[0]),
            parts_key(rest_a),
            part_text(b[0]),
            part_tag(b[0]),
            parts_key(rest_b),
        );
        assert(a[0] == b[0]);
        lemma_parts_key_injective(rest_a, rest_b);
        assert(a =~= seq![a[0]] + rest_a);
        assert(b =~= seq![b[0]] + rest_b);
    }
}

fn append_escaped(key: &mut String, text: &str)
    ensures
        final(key)@ == old(key)@ + escaped(text@),
{
    let chars = chars_of(text);
    let mut i: usize = 0;
    assert(key@ =~= old(key)@ + escaped(text@.take(0)));
    while i < chars.len()
        invariant
            chars@ == text@,
            i <= chars.len(),
            key@ == old(key)@ + escaped(text@.take(i as int)),
        decreases chars.len() - i,
    {
        proof {
            reveal_strlit("//");
            assert(text@.take(i + 1) =~= text@.take(i as int).push(text@[i as int]));
            lemma_escaped_push(text@.take(i as int), text@[i as int]);
        }
        let ghost before = key@;
        if chars[i] == '/' {
            key.append("//");
        } else {
            key.append(text.substring_char(i, i + 1));
        }
        assert(key@ =~= before + escaped_char(text@[i as int]));
        assert(key@ =~= old(key)@ + escaped(text@.take(i + 1)));
        i = i + 1;
    }
    assert(text@.take(i as int) =~= text@);
}

fn append_part(key: &mut String, part: &Part)
    ensures
        final(key)@ == old(key)@ + part_key(part@),
{
    proof {
        reveal_strlit("/p");
        reveal_strlit("/r");
        reveal_strlit("/c");
        reveal_strlit("/u");
        reveal_strlit("/n");
    }
    match part {
        Part::Prefix(text) => {
            append_escaped(key, text.as_str());
            key.append("/p");
        },
        Part::Root => {
            key.append("/r");
        },
        Part::Current => {
            key.append("/c");
        },
        Part::Parent => {
            key.append("/u");
        },
        Part::Normal(text) => {
            append_escaped(key, text.as_str());
            key.append("/n");
        },
    }
    assert(key@ =~= old(key)@ + part_key(part@));
}

fn key_of(parts: &Vec<Part>) -> (key: String)
    ensures
        key@ == parts_key(parts.deep_view()),
{
    let ghost all = parts.deep_view();
    let mut key = String::new();
    let mut i: usize = 0;
    assert(key@ =~= parts_key(all.take(0)));
    while i < parts.len()
        invariant
            all == parts.deep_view(),
            i <= parts.len(),
            key@ == parts_key(all.take(i as int)),
        decreases parts.len() - i,
    {
        proof {
            assert(all.take(i + 1) =~= all.take(i as int).push(all[i as int]));
            lemma_parts_key_push(all.take(i as int), all[i as int]);
        }
        append_part(&mut key, &parts[i]);
        i = i + 1;
    }
    assert(all.take(i as int) =~= all);
    key
}

/// The path of a file within a registry index, such as `config.json` or `re/ge/regex`.
///
/// Two paths are the same if they have the same components, however they are written.
pub struct IndexPath {
    text: String,
    parts: Ghost<Seq<PartModel>>,
    key: String,
}

/// What [`IndexPath`] holds: the path as it was written, and its components.
#[verifier::ext_equal]
pub ghost struct PathModel {
    pub text: Seq<char>,
    pub parts: Seq<PartModel>,
}

/// The text that all ways to write the path `path` share.
pub open spec fn path_key(path: PathModel) -> Seq<char> {
    parts_key(path.parts)
}

impl View for IndexPath {
    type V = PathModel;

    closed spec fn view(&self) -> PathModel {
        PathModel { text: self.text@, parts: self.parts@ }
    }
}

impl IndexPath {
    #[verifier::type_invariant]
    spec fn key_is_of_parts(self) -> bool {
        self.key@ == parts_key(self.parts@)
    }

    /// The path that `text` is written for.
    pub fn new(text: &str) -> (path: IndexPath)
        ensures
            path@.text == text@,
            is_plain(text@) ==> path@.parts == plain_parts(text@),
    {
        let parts = parts_of(text);
        IndexPath::of_parts(text, &parts)
    }

    /// The path with the components `parts`, written as `text`.
    pub fn of_parts(text: &str, parts: &Vec<Part>) -> (path: IndexPath)
        ensures
            path@ == (PathModel { text: text@, parts: parts.deep_view() }),
    {
        IndexPath { text: text.to_owned(), parts: Ghost(parts.deep_view()), key: key_of(parts) }
    }

    /// The path as it was written.
    pub fn as_str(&self) -> (text: &str)
        ensures
            text@ == self@.text,
    {
        self.text.as_str()
    }

    /// The text that all ways to write this path share.
    pub fn key(&self) -> (key: &str)
        ensures
            key@ == path_key(self@),
    {
        proof {
            use_type_invariant(self);
        }
        self.key.as_str()
    }

    /// The same path again.
    pub fn copy(&self) -> (path: IndexPath)
        ensures
            path@ == self@,
    {
        proof {
            use_type_invariant(self);
        }
        IndexPath { text: self.text.clone(), parts: self.parts, key: self.key.clone() }
    }

    /// Whether this is the path of the registry's configuration.
    pub fn is_config(&self) -> (r: bool)
        ensures
            r == (path_key(self@) == config_key()),
            r == (self@.parts == config_path().parts),
    {
        proof {
            use_type_invariant(self);
            lemma_config_key();
            same_key_is_same_path(self@, config_path());
        }
        same_text(self.key.as_str(), "config.json/n")
    }
}

/// Two paths have the same key if and only if they have the same components.
pub proof fn same_key_is_same_path(a: PathModel, b: PathModel)
    ensures
        path_key(a) == path_key(b) <==> a.parts == b.parts,
{
    if path_key(a) == path_key(b) {
        lemma_parts_key_injective(a.parts, b.parts);
    }
}

/// The path of the registry's configuration.
pub open spec fn config_path() -> PathModel {
    PathModel { text: CONFIG_JSON@, parts: seq![PartModel::Normal(CONFIG_JSON@)] }
}

/// The key of the registry's configuration.
pub open spec fn config_key() -> Seq<char> {
    path_key(config_path())
}

proof fn lemma_no_slash(s: Seq<char>)
    requires
        forall|i: int| 0 <= i < s.len() ==> s[i] != '/',
    ensures
        last_slash(s) == -1,
        escaped(s) == s,
    decreases s.len(),
{
    if s.len() > 0 {
        lemma_no_slash(s.drop_last());
        lemma_escaped_push(s.drop_last(), s.last());
        assert(s.drop_last().push(s.last()) =~= s);
    }
}

/// The name of the registry's configuration is plain and a single component.
pub proof fn lemma_config_path()
    ensures
        is_plain(CONFIG_JSON@),
        plain_parts(CONFIG_JSON@) == config_path().parts,
{
    reveal_strlit("config.json");
    lemma_no_slash(CONFIG_JSON@);
    assert(plain_parts(CONFIG_JSON@) =~= config_path().parts);
}

proof fn lemma_config_key()
    ensures
        config_key() == "config.json/n"@,
{
    reveal_strlit("config.json");
    reveal_strlit("config.json/n");
    lemma_no_slash(CONFIG_JSON@);
    reveal_with_fuel(parts_key, 2);
    assert(config_path().parts.drop_first() =~= Seq::empty());
    assert(config_key() =~= "config.json/n"@);
}

/// Whether `name` is the name of a file or a directory: not empty, without a separator, and neither
/// this directory nor the one above.
pub open spec fn is_name(name: Seq<char>) -> bool {
    &&& name.len() > 0
    &&& !name.contains('/')
    &&& name != seq!['.']
    &&& name != seq!['.', '.']
}

proof fn lemma_last_slash_is_where_it_is(before: Seq<char>, name: Seq<char>)
    requires
        !name.contains('/'),
    ensures
        last_slash(before + seq!['/'] + name) == before.len(),
    decreases name.len(),
{
    let whole = before + seq!['/'] + name;
    if name.len() > 0 {
        assert(name.contains(name.last()));
        assert(whole.last() == name.last());
        assert(whole.drop_last() =~= before + seq!['/'] + name.drop_last());
        assert forall|i: int| 0 <= i < name.len() - 1 implies name.drop_last()[i] != '/' by {
            assert(name.contains(name[i]));
        }
        lemma_last_slash_is_where_it_is(before, name.drop_last());
    } else {
        assert(whole.last() == '/');
    }
}

/// A path that consists of one piece has one component: the name that it is, or this directory, or
/// the one above. The empty path has none.
pub proof fn single_piece_is_one_component(name: Seq<char>)
    ensures
        is_name(name) ==> plain_parts(name) == seq![PartModel::Normal(name)],
        plain_parts(seq!['.']) == seq![PartModel::Current],
        plain_parts(seq!['.', '.']) == seq![PartModel::Parent],
        plain_parts(Seq::empty()) == Seq::<PartModel>::empty(),
        plain_parts(seq!['/']) == seq![PartModel::Root],
{
    if is_name(name) {
        assert forall|i: int| 0 <= i < name.len() implies name[i] != '/' by {
            assert(name.contains(name[i]));
        }
        lemma_no_slash(name);
        assert(plain_parts(name) =~= seq![PartModel::Normal(name)]);
    }
    lemma_no_slash(seq!['.']);
    lemma_no_slash(seq!['.', '.']);
    lemma_no_slash(Seq::empty());
    assert(seq!['.', '.'].len() != seq!['.'].len());
    assert(plain_parts(seq!['.', '.']) =~= seq![PartModel::Parent]);
    assert(plain_parts(seq!['/']) =~= seq![PartModel::Root]);
}

/// A piece after a separator adds its component to those of what stands before: a name adds itself,
/// `..` the directory above, and neither `.` nor nothing adds anything.
pub proof fn later_piece_adds_its_component(text: Seq<char>, name: Seq<char>)
    requires
        text.len() > 0,
    ensures
        is_name(name) ==> plain_parts(text + seq!['/'] + name) == plain_parts(text).push(
            PartModel::Normal(name),
        ),
        plain_parts(text + seq!['/'] + seq!['.', '.']) == plain_parts(text).push(PartModel::Parent),
        plain_parts(text + seq!['/'] + seq!['.']) == plain_parts(text),
        plain_parts(text.push('/')) == plain_parts(text),
{
    let n = text.len() as int;
    let dots = seq!['.', '.'];
    let dot = seq!['.'];
    let none = Seq::<char>::empty();
    assert(dots.len() != dot.len());
    assert(!dots.contains('/') && !dot.contains('/') && !none.contains('/'));
    assert(text.push('/') =~= text + seq!['/'] + none);
    lemma_last_slash_is_where_it_is(text, dots);
    lemma_last_slash_is_where_it_is(text, dot);
    lemma_last_slash_is_where_it_is(text, none);
    assert((text + seq!['/'] + dots).take(n) =~= text);
    assert((text + seq!['/'] + dots).skip(n + 1) =~= dots);
    assert((text + seq!['/'] + dot).take(n) =~= text);
    assert((text + seq!['/'] + dot).skip(n + 1) =~= dot);
    assert((text + seq!['/'] + none).take(n) =~= text);
    assert((text + seq!['/'] + none).skip(n + 1) =~= none);
    if is_name(name) {
        lemma_last_slash_is_where_it_is(text, name);
        assert((text + seq!['/'] + name).take(n) =~= text);
        assert((text + seq!['/'] + name).skip(n + 1) =~= name);
    }
}

/// A name below the root adds itself to the root.
pub proof fn name_below_root_is_its_component(name: Seq<char>)
    requires
        is_name(name),
    ensures
        plain_parts(seq!['/'] + name) == seq![PartModel::Root, PartModel::Normal(name)],
{
    let none = Seq::<char>::empty();
    lemma_last_slash_is_where_it_is(none, name);
    assert(none + seq!['/'] + name =~= seq!['/'] + name);
    assert((seq!['/'] + name).skip(1) =~= name);
    assert(plain_parts(seq!['/'] + name) =~= seq![PartModel::Root, PartModel::Normal(name)]);
}

/// A path of an index, in which there is neither a backslash nor a colon and which does not start with
/// a separator, is plain.
pub proof fn index_paths_are_plain(text: Seq<char>)
    requires
        !text.contains('\\'),
        !text.contains(':'),
        text.len() > 0 ==> text[0] != '/',
    ensures
        is_plain(text),
{
    assert forall|i: int| 0 <= i < text.len() implies text[i] != '\\' && text[i] != ':' by {
        assert(text.contains(text[i]));
    }
}

/// The configuration is the file `config.json` at the top of the index.
pub proof fn config_is_at_the_top()
    ensures
        config_path().text == "config.json"@,
        config_path().parts == seq![PartModel::Normal("config.json"@)],
{
}

} // verus!
