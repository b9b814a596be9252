//! Text as sequences of characters: trimming, splitting and ASCII case.

use vstd::prelude::*;

verus! {

/// Whether `c` has the Unicode property `White_Space`.
pub open spec fn is_space(c: char) -> bool {
    ||| '\u{9}' <= c <= '\u{d}'
    ||| c == ' '
    ||| c == '\u{85}'
    ||| c == '\u{a0}'
    ||| c == '\u{1680}'
    ||| '\u{2000}' <= c <= '\u{200a}'
    ||| c == '\u{2028}'
    ||| c == '\u{2029}'
    ||| c == '\u{202f}'
    ||| c == '\u{205f}'
    ||| c == '\u{3000}'
}

/// `s` without the white space at its end.
pub open spec fn trimmed_end(s: Seq<char>) -> Seq<char>
    decreases s.len(),
{
    if s.len() > 0 && is_space(s.last()) {
        trimmed_end(s.drop_last())
    } else {
        s
    }
}

/// `s` without the white space at its start.
pub open spec fn trimmed_start(s: Seq<char>) -> Seq<char>
    decreases s.len(),
{
    if s.len() > 0 && is_space(s[0]) {
        trimmed_start(s.drop_first())
    } else {
        s
    }
}

/// `s` without the white space at either end.
pub open spec fn trimmed(s: Seq<char>) -> Seq<char> {
    trimmed_start(trimmed_end(s))
}

/// The parts of `s` before and after the first `sep`, if there is one.
pub open spec fn split_at_first(s: Seq<char>, sep: char) -> Option<(Seq<char>, Seq<char>)>
    decreases s.len(),
{
    if s.len() == 0 {
        None
    } else if s[0] == sep {
        Some((Seq::empty(), s.drop_first()))
    } else {
        match split_at_first(s.drop_first(), sep) {
            Some((before, after)) => Some((seq![s[0]] + before, after)),
            None => None,
        }
    }
}

/// Whether `s` ends in a slash.
pub open spec fn ends_in_slash(s: Seq<char>) -> bool {
    s.len() > 0 && s.last() == '/'
}

/// `c` in lower case if it is an ASCII letter, else `c`.
pub open spec fn lower_char(c: char) -> char {
    if 'A' <= c <= 'Z' {
        ((c as u8 + 32) as u8) as char
    } else {
        c
    }
}

/// `s` with its ASCII letters in lower case.
pub open spec fn lower(s: Seq<char>) -> Seq<char> {
    s.map_values(|c: char| lower_char(c))
}

/// The characters of `s`.
pub fn chars_of(s: &str) -> (chars: Vec<char>)
    ensures
        chars@ == s@,
{
    let mut chars: Vec<char> = Vec::new();
    for c in it: s.chars()
        invariant
            it.seq() == s@,
            chars@ == s@.take(it.index() as int),
    {
        chars.push(c);
    }
    chars
}

fn is_whitespace(c: char) -> (r: bool)
    ensures
        r == is_space(c),
{
    ('\u{9}' <= c && c <= '\u{d}') || c == ' ' || c == '\u{85}' || c == '\u{a0}' || c == '\u{1680}'
        || ('\u{2000}' <= c && c <= '\u{200a}') || c == '\u{2028}' || c == '\u{2029}' || c
        == '\u{202f}' || c == '\u{205f}' || c == '\u{3000}'
}

/// `s` without the white space at its end.
pub fn trim_end(s: &str) -> (r: &str)
    ensures
        r@ == trimmed_end(s@),
{
    let chars = chars_of(s);
    let mut end: usize = chars.len();
    assert(s@.take(end as int) == s@);
    while end > 0 && is_whitespace(chars[end - 1])
        invariant
            chars@ == s@,
            end <= chars.len(),
            trimmed_end(s@) == trimmed_end(s@.take(end as int)),
        decreases end,
    {
        assert(s@.take(end as int).drop_last() == s@.take(end - 1));
        end = end - 1;
    }
    let r = s.substring_char(0, end);
    assert(r@ == s@.take(end as int));
    r
}

/// `s` without the white space at either end.
pub fn trim(s: &str) -> (r: &str)
    ensures
        r@ == trimmed(s@),
{
    let s = trim_end(s);
    let chars = chars_of(s);
    let mut start: usize = 0;
    assert(s@.skip(0) == s@);
    while start < chars.len() && is_whitespace(chars[start])
        invariant
            chars@ == s@,
            start <= chars.len(),
            trimmed_start(s@) == trimmed_start(s@.skip(start as int)),
        decreases chars.len() - start,
    {
        assert(s@.skip(start as int).drop_first() == s@.skip(start + 1));
        start = start + 1;
    }
    let r = s.substring_char(start, chars.len());
    assert(r@ == s@.skip(start as int));
    r
}

/// Whether `c` occurs in `s`.
pub fn contains_char(s: &str, c: char) -> (r: bool)
    ensures
        r == s@.contains(c),
{
    let chars = chars_of(s);
    let mut i: usize = 0;
    while i < chars.len()
        invariant
            chars@ == s@,
            i <= chars.len(),
            forall|j: int| 0 <= j < i ==> s@[j] != c,
        decreases chars.len() - i,
    {
        if chars[i] == c {
            return true;
        }
        i = i + 1;
    }
    false
}

/// Splitting at the first separator depends only on where the first separator is.
proof fn lemma_split_at_first(s: Seq<char>, sep: char, i: int)
    requires
        0 <= i <= s.len(),
        forall|j: int| 0 <= j < i ==> s[j] != sep,
        i < s.len() ==> s[i] == sep,
    ensures
        i == s.len() ==> split_at_first(s, sep) is None,
        i < s.len() ==> split_at_first(s, sep) == Some((s.take(i), s.skip(i + 1))),
    decreases s.len(),
{
    if s.len() > 0 {
        if i > 0 {
            let rest = s.drop_first();
            lemma_split_at_first(rest, sep, i - 1);
            if i < s.len() {
                assert(seq![s[0]] + rest.take(i - 1) == s.take(i));
                assert(rest.skip(i) == s.skip(i + 1));
            }
        } else {
            assert(s.take(0) == Seq::<char>::empty());
            assert(s.drop_first() == s.skip(1));
        }
    }
}

/// The parts of `s` before and after the first `sep`, if there is one.
pub fn split_once(s: &str, sep: char) -> (r: Option<(&str, &str)>)
    ensures
        match r {
            Some((before, after)) => split_at_first(s@, sep) == Some((before@, after@)),
            None => split_at_first(s@, sep) is None,
        },
{
    let chars = chars_of(s);
    let mut i: usize = 0;
    while i < chars.len() && chars[i] != sep
        invariant
            chars@ == s@,
            i <= chars.len(),
            forall|j: int| 0 <= j < i ==> s@[j] != sep,
        decreases chars.len() - i,
    {
        i = i + 1;
    }
    proof {
        lemma_split_at_first(s@, sep, i as int);
    }
    if i == chars.len() {
        return None;
    }
    let before = s.substring_char(0, i);
    let after = s.substring_char(i + 1, chars.len());
    assert(before@ == s@.take(i as int));
    assert(after@ == s@.skip(i + 1));
    Some((before, after))
}

/// Whether `a` and `b` hold the same characters.
pub fn same_text(a: &str, b: &str) -> (r: bool)
    ensures
        r == (a@ == b@),
{
    let x = chars_of(a);
    let y = chars_of(b);
    if x.len() != y.len() {
        return false;
    }
    let mut i: usize = 0;
    while i < x.len()
        invariant
            x@ == a@,
            y@ == b@,
            x.len() == y.len(),
            i <= x.len(),
            forall|j: int| 0 <= j < i ==> a@[j] == b@[j],
        decreases x.len() - i,
    {
        if x[i] != y[i] {
            return false;
        }
        i = i + 1;
    }
    assert(a@ == b@);
    true
}

fn lower_ascii(c: char) -> (r: char)
    ensures
        r == lower_char(c),
{
    if 'A' <= c && c <= 'Z' {
        (c as u8 + 32) as char
    } else {
        c
    }
}

/// Whether `a` and `b` are the same text but for the case of ASCII letters.
pub fn same_ignoring_case(a: &str, b: &str) -> (r: bool)
    ensures
        r == (lower(a@) == lower(b@)),
{
    let x = chars_of(a);
    let y = chars_of(b);
    if x.len() != y.len() {
        assert(lower(a@).len() != lower(b@).len());
        return false;
    }
    let mut i: usize = 0;
    while i < x.len()
        invariant
            x@ == a@,
            y@ == b@,
            x.len() == y.len(),
            i <= x.len(),
            forall|j: int| 0 <= j < i ==> lower(a@)[j] == lower(b@)[j],
        decreases x.len() - i,
    {
        if lower_ascii(x[i]) != lower_ascii(y[i]) {
            assert(lower(a@)[i as int] != lower(b@)[i as int]);
            return false;
        }
        i = i + 1;
    }
    assert(lower(a@) == lower(b@));
    true
}

/// The digit that stands for `d` in decimal.
pub open spec fn digit(d: nat) -> char {
    (d + 48) as char
}

/// `n` in decimal, without leading zeros.
pub open spec fn decimal(n: nat) -> Seq<char>
    decreases n,
{
    if n < 10 {
        seq![digit(n)]
    } else {
        decimal(n / 10).push(digit(n % 10))
    }
}

/// `s` with `n` appended in decimal.
pub fn append_decimal(s: &mut String, n: usize)
    ensures
        final(s)@ == old(s)@ + decimal(n as nat),
    decreases n,
{
    if n >= 10 {
        append_decimal(s, n / 10);
    }
    let d: usize = n % 10;
    let text = if d == 0 {
        "0"
    } else if d == 1 {
        "1"
    } else if d == 2 {
        "2"
    } else if d == 3 {
        "3"
    } else if d == 4 {
        "4"
    } else if d == 5 {
        "5"
    } else if d == 6 {
        "6"
    } else if d == 7 {
        "7"
    } else if d == 8 {
        "8"
    } else {
        "9"
    };
    proof {
        reveal_strlit("0");
        reveal_strlit("1");
        reveal_strlit("2");
        reveal_strlit("3");
        reveal_strlit("4");
        reveal_strlit("5");
        reveal_strlit("6");
        reveal_strlit("7");
        reveal_strlit("8");
        reveal_strlit("9");
        assert(text@ == seq![digit(d as nat)]);
    }
    s.append(text);
    assert(s@ == old(s)@ + decimal(n as nat));
}

/// White space at the start does not survive trimming.
pub proof fn lemma_trimmed_after_space(c: char, s: Seq<char>)
    requires
        is_space(c),
    ensures
        trimmed(seq![c] + s) == trimmed(s),
{
    let t = trimmed_end(s);
    lemma_trimmed_end_after_space(c, s);
    if t.len() > 0 {
        assert((seq![c] + t).drop_first() =~= t);
    }
}

proof fn lemma_trimmed_end_after_space(c: char, s: Seq<char>)
    requires
        is_space(c),
    ensures
        trimmed_end(seq![c] + s) == (if trimmed_end(s).len() == 0 {
            Seq::empty()
        } else {
            seq![c] + trimmed_end(s)
        }),
    decreases s.len(),
{
    let whole = seq![c] + s;
    if s.len() == 0 {
        reveal_with_fuel(trimmed_end, 2);
        assert(whole.drop_last() =~= Seq::empty());
    } else {
        assert(whole.last() == s.last());
        if is_space(s.last()) {
            assert(whole.drop_last() =~= seq![c] + s.drop_last());
            lemma_trimmed_end_after_space(c, s.drop_last());
        }
    }
}

proof fn lemma_trimmed_end(s: Seq<char>)
    ensures
        trimmed_end(s).len() > 0 ==> !is_space(trimmed_end(s).last()),
    decreases s.len(),
{
    if s.len() > 0 && is_space(s.last()) {
        lemma_trimmed_end(s.drop_last());
    }
}

proof fn lemma_trimmed_start(s: Seq<char>)
    ensures
        trimmed_start(s).len() > 0 ==> !is_space(trimmed_start(s)[0]),
        trimmed_start(s).len() > 0 ==> trimmed_start(s).last() == s.last(),
    decreases s.len(),
{
    if s.len() > 0 && is_space(s[0]) {
        lemma_trimmed_start(s.drop_first());
    }
}

/// Trimming twice is trimming once.
pub proof fn lemma_trimmed_twice(s: Seq<char>)
    ensures
        trimmed(trimmed(s)) == trimmed(s),
{
    lemma_trimmed_end(s);
    lemma_trimmed_start(trimmed_end(s));
}

/// Text without a separator is not split.
pub proof fn lemma_no_separator(s: Seq<char>, sep: char)
    requires
        forall|i: int| 0 <= i < s.len() ==> s[i] != sep,
    ensures
        split_at_first(s, sep) is None,
    decreases s.len(),
{
    if s.len() > 0 {
        lemma_no_separator(s.drop_first(), sep);
    }
}

/// What is split is what comes before the separator, the separator and what comes after it, and the
/// separator does not occur before.
pub proof fn lemma_split_is_whole(s: Seq<char>, sep: char)
    ensures
        split_at_first(s, sep) matches Some((before, after)) ==> s == before + seq![sep] + after
            && !before.contains(sep),
    decreases s.len(),
{
    if s.len() > 0 {
        if s[0] == sep {
            assert(Seq::<char>::empty() + seq![sep] + s.drop_first() =~= s);
        } else {
            lemma_split_is_whole(s.drop_first(), sep);
            if let Some((before, after)) = split_at_first(s.drop_first(), sep) {
                let longer = seq![s[0]] + before;
                assert(longer + seq![sep] + after =~= s) by {
                    assert(s.drop_first() == before + seq![sep] + after);
                    assert(s =~= seq![s[0]] + s.drop_first());
                }
                assert forall|i: int| 0 <= i < longer.len() implies longer[i] != sep by {
                    if i > 0 {
                        assert(longer[i] == before[i - 1]);
                        assert(before.contains(before[i - 1]));
                    }
                }
            }
        }
    }
}

/// What is left after trimming was there before.
pub proof fn lemma_trimmed_contains(s: Seq<char>, c: char)
    ensures
        trimmed_end(s).contains(c) ==> s.contains(c),
        trimmed_start(s).contains(c) ==> s.contains(c),
    decreases s.len(),
{
    if s.len() > 0 {
        if is_space(s.last()) {
            let shorter = s.drop_last();
            lemma_trimmed_contains(shorter, c);
            if shorter.contains(c) {
                let i = choose|i: int| 0 <= i < shorter.len() && shorter[i] == c;
                assert(s[i] == c);
            }
        }
        if is_space(s[0]) {
            let shorter = s.drop_first();
            lemma_trimmed_contains(shorter, c);
            if shorter.contains(c) {
                let i = choose|i: int| 0 <= i < shorter.len() && shorter[i] == c;
                assert(s[i + 1] == c);
            }
        }
    }
}

/// White space is what Unicode calls so, and nothing else; in particular no sign of ASCII is.
pub proof fn white_space_is_that_of_unicode(c: char)
    ensures
        is_space(c) <==> ({
            let n = c as u32;
            ||| 0x9 <= n <= 0xd || n == 0x20 || n == 0x85 || n == 0xa0
            ||| n == 0x1680 || 0x2000 <= n <= 0x200a
            ||| n == 0x2028 || n == 0x2029 || n == 0x202f || n == 0x205f || n == 0x3000
        }),
        0x21 <= c as u32 <= 0x7e ==> !is_space(c),
{
}

/// Whether `s` is white space throughout.
pub open spec fn is_blank(s: Seq<char>) -> bool {
    forall|i: int| 0 <= i < s.len() ==> is_space(#[trigger] s[i])
}

/// Whether `s` has no white space at either end.
pub open spec fn is_bare(s: Seq<char>) -> bool {
    s.len() > 0 ==> !is_space(s[0]) && !is_space(s.last())
}

proof fn lemma_trimmed_end_of_blank(text: Seq<char>, after: Seq<char>)
    requires
        is_blank(after),
        text.len() > 0 ==> !is_space(text.last()),
    ensures
        trimmed_end(text + after) == text,
    decreases after.len(),
{
    let whole = text + after;
    if after.len() == 0 {
        assert(whole =~= text);
    } else {
        assert(whole.last() == after.last());
        assert(is_space(after[after.len() - 1]));
        assert(whole.drop_last() =~= text + after.drop_last());
        assert forall|i: int| 0 <= i < after.len() - 1 implies is_space(
            #[trigger] after.drop_last()[i],
        ) by {
            assert(is_space(after[i]));
        }
        lemma_trimmed_end_of_blank(text, after.drop_last());
    }
}

proof fn lemma_trimmed_start_of_blank(before: Seq<char>, text: Seq<char>)
    requires
        is_blank(before),
        text.len() > 0 ==> !is_space(text[0]),
    ensures
        trimmed_start(before + text) == text,
    decreases before.len(),
{
    let whole = before + text;
    if before.len() == 0 {
        assert(whole =~= text);
    } else {
        assert(whole[0] == before[0]);
        assert(is_space(before[0]));
        assert(whole.drop_first() =~= before.drop_first() + text);
        assert forall|i: int| 0 <= i < before.len() - 1 implies is_space(
            #[trigger] before.drop_first()[i],
        ) by {
            assert(is_space(before[i + 1]));
        }
        lemma_trimmed_start_of_blank(before.drop_first(), text);
    }
}

/// Trimming takes away the white space around a text and keeps the text.
pub proof fn trimming_keeps_the_text(before: Seq<char>, text: Seq<char>, after: Seq<char>)
    requires
        is_blank(before),
        is_blank(after),
        is_bare(text),
    ensures
        trimmed(before + text + after) == text,
{
    if text.len() == 0 {
        let all = before + text + after;
        assert forall|i: int| 0 <= i < all.len() implies is_space(#[trigger] all[i]) by {
            if i < before.len() {
                assert(is_space(before[i]));
            } else {
                assert(is_space(after[i - before.len()]));
            }
        }
        lemma_trimmed_end_of_blank(text, all);
        assert(text + all =~= all);
    } else {
        lemma_trimmed_end_of_blank(before + text, after);
        lemma_trimmed_start_of_blank(before, text);
    }
}

/// Trimming the end takes away the white space after a text and keeps the text.
pub proof fn trimming_the_end_keeps_the_text(text: Seq<char>, after: Seq<char>)
    requires
        is_blank(after),
        text.len() > 0 ==> !is_space(text.last()),
    ensures
        trimmed_end(text + after) == text,
{
    lemma_trimmed_end_of_blank(text, after);
}

/// A text is split where the separator first occurs, and is not split if it does not occur.
pub proof fn text_is_split_at_first_separator(before: Seq<char>, sep: char, after: Seq<char>)
    ensures
        !before.contains(sep) ==> split_at_first(before + seq![sep] + after, sep) == Some(
            (before, after),
        ),
        split_at_first(before, sep) is None <==> !before.contains(sep),
{
    let whole = before + seq![sep] + after;
    if before.contains(sep) {
        lemma_split_of_containing(before, sep);
    } else {
        assert forall|i: int| 0 <= i < before.len() implies before[i] != sep by {
            assert(before.contains(before[i]));
        }
        lemma_no_separator(before, sep);
        assert forall|j: int| 0 <= j < before.len() implies whole[j] != sep by {
            assert(before.contains(before[j]));
        }
        lemma_split_at_first(whole, sep, before.len() as int);
        assert(whole.take(before.len() as int) =~= before);
        assert(whole.skip(before.len() as int + 1) =~= after);
    }
}

proof fn lemma_split_of_containing(s: Seq<char>, sep: char)
    requires
        s.contains(sep),
    ensures
        split_at_first(s, sep) is Some,
    decreases s.len(),
{
    if s[0] != sep {
        let i = choose|i: int| 0 <= i < s.len() && s[i] == sep;
        assert(s.drop_first()[i - 1] == sep);
        lemma_split_of_containing(s.drop_first(), sep);
    }
}

/// Lower case changes the capitals of ASCII to their small letters, and nothing else.
pub proof fn lower_case_changes_capitals_only(s: Seq<char>, i: int)
    requires
        0 <= i < s.len(),
    ensures
        lower(s).len() == s.len(),
        lower(s)[i] as u32 == (if 0x41 <= s[i] as u32 <= 0x5a {
            s[i] as u32 + 32
        } else {
            s[i] as int
        }),
{
}

/// The number that the decimal digits `s` stand for.
pub open spec fn number(s: Seq<char>) -> int
    decreases s.len(),
{
    if s.len() == 0 {
        0
    } else {
        number(s.drop_last()) * 10 + (s.last() as int - '0' as int)
    }
}

/// A number in decimal is made of digits, stands for the number, and has no leading zero.
pub proof fn decimal_stands_for_its_number(n: nat)
    ensures
        number(decimal(n)) == n,
        decimal(n).len() > 0,
        forall|i: int| 0 <= i < decimal(n).len() ==> '0' <= #[trigger] decimal(n)[i] <= '9',
        n > 0 ==> decimal(n)[0] != '0',
        n == 0 ==> decimal(n) == seq!['0'],
    decreases n,
{
    reveal_with_fuel(number, 2);
    if n >= 10 {
        decimal_stands_for_its_number(n / 10);
        assert(decimal(n).drop_last() =~= decimal(n / 10));
        assert(decimal(n)[0] == decimal(n / 10)[0]);
    } else {
        assert(decimal(n) =~= seq![digit(n)]);
        assert(decimal(n).drop_last() =~= Seq::empty());
    }
}

/// A text ends in a slash if and only if that is its last character.
pub proof fn last_character_decides_on_slash(s: Seq<char>, c: char)
    ensures
        ends_in_slash(s.push(c)) <==> c == '/',
        !ends_in_slash(Seq::empty()),
{
}

} // verus!
