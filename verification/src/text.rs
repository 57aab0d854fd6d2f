//! Character-level helpers that the rest of the library builds on.
//!
//! Strings are processed as vectors of characters: `chars_of` and `string_of`
//! move between the two forms, everything in between is verified.

use vstd::prelude::*;

verus! {

/// Whether `c` is white space: whether it has the property White_Space of
/// Unicode, which these characters have and no others.
pub open spec fn whitespace(c: char) -> bool {
    ||| '\u{9}' <= c && c <= '\u{d}'
    ||| c == ' '
    ||| c == '\u{85}'
    ||| c == '\u{a0}'
    ||| c == '\u{1680}'
    ||| '\u{2000}' <= c && c <= '\u{200a}'
    ||| c == '\u{2028}'
    ||| c == '\u{2029}'
    ||| c == '\u{202f}'
    ||| c == '\u{205f}'
    ||| c == '\u{3000}'
}

/// The upper-case form of `c`, as `char::to_uppercase` gives it: one
/// character or more.
pub uninterp spec fn uppercase_form(c: char) -> Seq<char>;

/// The character that begins a word in place of `c`: the first of its
/// upper-case form, or `c` itself where that form is empty.
pub open spec fn uppercase(c: char) -> char {
    if uppercase_form(c).len() > 0 {
        uppercase_form(c)[0]
    } else {
        c
    }
}

/// The texts that a result of two strings stands for.
pub open spec fn result_text(r: Result<String, String>) -> Result<Seq<char>, Seq<char>> {
    match r {
        Ok(t) => Ok(t@),
        Err(e) => Err(e@),
    }
}

/// The characters of `s`, in order: `str::chars`, collected into a vector.
#[verifier::external_body]
pub(crate) fn chars_of(s: &str) -> (r: Vec<char>)
    ensures
        r@ == s@,
{
    s.chars().collect()
}

/// The string made of the characters of `chars`, in order: `String::from_iter`.
#[verifier::external_body]
pub(crate) fn string_of(chars: &Vec<char>) -> (r: String)
    ensures
        r@ == chars@,
{
    String::from_iter(chars.iter())
}

/// `char::is_whitespace`: true exactly for the characters with the Unicode
/// property White_Space, which `whitespace` lists.
#[verifier::external_body]
pub(crate) fn is_whitespace(c: char) -> (r: bool)
    ensures
        r == whitespace(c),
{
    c.is_whitespace()
}

/// `char::to_uppercase`, the whole form collected. The contract only names
/// it.
#[verifier::external_body]
pub(crate) fn to_uppercase(c: char) -> (r: Vec<char>)
    ensures
        r@ == uppercase_form(c),
{
    c.to_uppercase().collect()
}

/// The character that begins a word in place of `c`.
pub fn word_start_of(c: char) -> (r: char)
    ensures
        r == uppercase(c),
{
    let form = to_uppercase(c);
    if form.len() > 0 {
        form[0]
    } else {
        c
    }
}

/// `s` with every occurrence of `from` turned into `to`.
pub open spec fn replaced(s: Seq<char>, from: char, to: char) -> Seq<char> {
    Seq::new(s.len(), |i: int| if s[i] == from { to } else { s[i] })
}

/// How many white-space characters stand in `s` from `from` on, without a gap.
pub open spec fn leading_space(s: Seq<char>, from: int) -> nat
    decreases s.len() - from,
{
    if 0 <= from < s.len() && whitespace(s[from]) {
        1 + leading_space(s, from + 1)
    } else {
        0
    }
}

/// How many white-space characters stand in `s` before `to`, without a gap.
pub open spec fn trailing_space(s: Seq<char>, to: int) -> nat
    decreases to,
{
    if 0 < to <= s.len() && whitespace(s[to - 1]) {
        1 + trailing_space(s, to - 1)
    } else {
        0
    }
}

/// `s` without the white space at its two ends.
pub open spec fn trimmed(s: Seq<char>) -> Seq<char> {
    let lead = leading_space(s, 0);
    if lead >= s.len() {
        Seq::empty()
    } else {
        s.subrange(lead as int, s.len() - trailing_space(s, s.len() as int))
    }
}

/// `s` from `from` on with the first character of each word in upper case.
/// Words are parted by white space; of a run of white space the first
/// character stays, and white space before the first word goes. `word_start`
/// says whether a word would begin at `from`.
pub open spec fn title_cased(s: Seq<char>, from: int, word_start: bool) -> Seq<char>
    decreases s.len() - from,
{
    if from < 0 || from >= s.len() {
        Seq::empty()
    } else if whitespace(s[from]) {
        if word_start {
            title_cased(s, from + 1, true)
        } else {
            seq![s[from]] + title_cased(s, from + 1, true)
        }
    } else if word_start {
        seq![uppercase(s[from])] + title_cased(s, from + 1, false)
    } else {
        seq![s[from]] + title_cased(s, from + 1, false)
    }
}

/// Whether `c` is an ASCII letter or digit.
pub open spec fn ascii_alphanumeric(c: char) -> bool {
    ('a' <= c && c <= 'z') || ('A' <= c && c <= 'Z') || ('0' <= c && c <= '9')
}

/// The ASCII letters and digits of `s`, in their order.
pub open spec fn alphanumerics(s: Seq<char>) -> Seq<char>
    decreases s.len(),
{
    if s.len() == 0 {
        Seq::empty()
    } else if ascii_alphanumeric(s.last()) {
        alphanumerics(s.drop_last()).push(s.last())
    } else {
        alphanumerics(s.drop_last())
    }
}

/// Whether a word begins at `at` in `s`, read from `from` on: `at` is no
/// white space, and white space stands before it, or it is the first
/// character read and `word_start` holds.
pub open spec fn begins_word(s: Seq<char>, from: int, word_start: bool, at: int) -> bool {
    &&& from <= at < s.len()
    &&& !whitespace(s[at])
    &&& if at == from {
        word_start
    } else {
        whitespace(s[at - 1])
    }
}

/// Title case changes nothing but the first character of each word. Every
/// character of the outcome comes from a character of `s`, in the same order;
/// it is that character in upper case where it begins a word, and that
/// character itself everywhere else. The places are handed back.
pub proof fn lemma_title_case_touches_word_starts_only(
    s: Seq<char>,
    from: int,
    word_start: bool,
) -> (origin: Seq<int>)
    requires
        0 <= from,
    ensures
        origin.len() == title_cased(s, from, word_start).len(),
        forall|k: int|
            0 <= k < origin.len() ==> from <= #[trigger] origin[k] < s.len() && title_cased(
                s,
                from,
                word_start,
            )[k] == if begins_word(s, from, word_start, origin[k]) {
                uppercase(s[origin[k]])
            } else {
                s[origin[k]]
            },
        forall|a: int, b: int| 0 <= a < b < origin.len() ==> origin[a] < origin[b],
    decreases s.len() - from,
{
    if from >= s.len() {
        Seq::empty()
    } else {
        let next_start = whitespace(s[from]);
        let rest = lemma_title_case_touches_word_starts_only(s, from + 1, next_start);
        let tail = title_cased(s, from + 1, next_start);
        assert forall|k: int| 0 <= k < rest.len() implies begins_word(
            s,
            from,
            word_start,
            #[trigger] rest[k],
        ) == begins_word(s, from + 1, next_start, rest[k]) by {}
        if whitespace(s[from]) && word_start {
            rest
        } else {
            let origin = seq![from] + rest;
            let out = title_cased(s, from, word_start);
            assert forall|k: int| 0 <= k < origin.len() implies from <= #[trigger] origin[k]
                < s.len() && out[k] == if begins_word(s, from, word_start, origin[k]) {
                uppercase(s[origin[k]])
            } else {
                s[origin[k]]
            } by {
                if k > 0 {
                    assert(origin[k] == rest[k - 1]);
                    assert(out[k] == tail[k - 1]);
                }
            }
            assert forall|a: int, b: int| 0 <= a < b < origin.len() implies origin[a]
                < origin[b] by {
                if a > 0 {
                    assert(origin[a] == rest[a - 1] && origin[b] == rest[b - 1]);
                } else {
                    assert(origin[b] == rest[b - 1]);
                }
            }
            origin
        }
    }
}

/// Behind the start of a word, what holds no white space stays as it is.
pub proof fn lemma_title_case_keeps_rest_of_word(s: Seq<char>, from: int)
    requires
        0 <= from <= s.len(),
        forall|i: int| from <= i < s.len() ==> !whitespace(#[trigger] s[i]),
    ensures
        title_cased(s, from, false) == s.subrange(from, s.len() as int),
    decreases s.len() - from,
{
    if from < s.len() {
        lemma_title_case_keeps_rest_of_word(s, from + 1);
        assert(!whitespace(s[from]));
        assert(seq![s[from]] + s.subrange(from + 1, s.len() as int) =~= s.subrange(
            from,
            s.len() as int,
        ));
    } else {
        assert(s.subrange(from, s.len() as int) =~= Seq::<char>::empty());
    }
}

/// The title of a single word, one without white space and underscores, is
/// the word with its first character in upper case and the rest as it was.
pub proof fn lemma_single_word_title(s: Seq<char>)
    requires
        s.len() > 0,
        forall|i: int| 0 <= i < s.len() ==> !whitespace(#[trigger] s[i]) && s[i] != '_',
    ensures
        capitalized(s) == seq![uppercase(s[0])] + s.subrange(1, s.len() as int),
{
    assert(!whitespace(s[0]));
    assert(!whitespace(s[s.len() - 1]));
    assert(leading_space(s, 0) == 0);
    assert(trailing_space(s, s.len() as int) == 0);
    assert(trimmed(s) =~= s);
    assert(replaced(s, '_', ' ') =~= s);
    lemma_title_case_keeps_rest_of_word(s, 1);
}

/// `s` as a title: trimmed, its underscores turned into spaces, each word
/// begun in upper case.
pub open spec fn capitalized(s: Seq<char>) -> Seq<char> {
    title_cased(replaced(trimmed(s), '_', ' '), 0, true)
}

/// Whether `needle` stands in `hay` at position `at`.
pub open spec fn occurs_at(hay: Seq<char>, needle: Seq<char>, at: int) -> bool {
    &&& 0 <= at
    &&& at + needle.len() <= hay.len()
    &&& hay.subrange(at, at + needle.len()) == needle
}

/// Whether `needle` stands somewhere in `hay`.
pub open spec fn occurs_in(hay: Seq<char>, needle: Seq<char>) -> bool {
    exists|at: int| occurs_at(hay, needle, at)
}

/// Where `needle` stands in `hay` for the first time at or behind `from`.
pub open spec fn first_occurrence(hay: Seq<char>, needle: Seq<char>, from: int) -> Option<int>
    decreases hay.len() - from,
{
    if from < 0 || from > hay.len() {
        None
    } else if occurs_at(hay, needle, from) {
        Some(from)
    } else if from == hay.len() {
        None
    } else {
        first_occurrence(hay, needle, from + 1)
    }
}

/// The text of `a` followed by the text of `b`.
pub fn concat(a: &str, b: &str) -> (r: String)
    ensures
        r@ == a@ + b@,
{
    let mut r = a.to_owned();
    r.append(b);
    r
}

/// The characters of `s` from `from` up to `to`, as a string.
pub fn slice_string(s: &Vec<char>, from: usize, to: usize) -> (r: String)
    requires
        from <= to <= s.len(),
    ensures
        r@ == s@.subrange(from as int, to as int),
{
    let mut part: Vec<char> = Vec::new();
    let mut i: usize = from;
    while i < to
        invariant
            from <= i <= to <= s.len(),
            part@ == s@.subrange(from as int, i as int),
        decreases to - i,
    {
        part.push(s[i]);
        assert(s@.subrange(from as int, i + 1) == s@.subrange(from as int, i as int).push(
            s@[i as int],
        ));
        i += 1;
    }
    string_of(&part)
}

/// Whether two vectors hold the same characters.
pub fn same_chars(a: &Vec<char>, b: &Vec<char>) -> (r: bool)
    ensures
        r == (a@ == b@),
{
    if a.len() != b.len() {
        return false;
    }
    let mut i: usize = 0;
    while i < a.len()
        invariant
            i <= a.len(),
            a.len() == b.len(),
            a@.subrange(0, i as int) == b@.subrange(0, i as int),
        decreases a.len() - i,
    {
        if a[i] != b[i] {
            return false;
        }
        assert(a@.subrange(0, i + 1) == a@.subrange(0, i as int).push(a@[i as int]));
        assert(b@.subrange(0, i + 1) == b@.subrange(0, i as int).push(b@[i as int]));
        i += 1;
    }
    assert(a@.subrange(0, a.len() as int) == a@);
    assert(b@.subrange(0, b.len() as int) == b@);
    true
}

/// Whether two strings hold the same text.
pub fn same_text(a: &str, b: &str) -> (r: bool)
    ensures
        r == (a@ == b@),
{
    let x = chars_of(a);
    let y = chars_of(b);
    same_chars(&x, &y)
}

/// Every `from` in `s` turned into `to`.
pub fn replace_char(s: &Vec<char>, from: char, to: char) -> (r: Vec<char>)
    ensures
        r@ == replaced(s@, from, to),
{
    let mut r: Vec<char> = Vec::new();
    let mut i: usize = 0;
    while i < s.len()
        invariant
            i <= s.len(),
            r@ == replaced(s@, from, to).subrange(0, i as int),
        decreases s.len() - i,
    {
        let c = s[i];
        r.push(if c == from { to } else { c });
        assert(replaced(s@, from, to).subrange(0, i + 1) == replaced(s@, from, to).subrange(
            0,
            i as int,
        ).push(replaced(s@, from, to)[i as int]));
        i += 1;
    }
    assert(replaced(s@, from, to).subrange(0, s.len() as int) == replaced(s@, from, to));
    r
}

/// Whether `needle` stands in `hay` at position `at`.
pub fn matches_at(hay: &Vec<char>, needle: &Vec<char>, at: usize) -> (r: bool)
    ensures
        r == occurs_at(hay@, needle@, at as int),
{
    if needle.len() > hay.len() || at > hay.len() - needle.len() {
        return false;
    }
    let mut i: usize = 0;
    while i < needle.len()
        invariant
            i <= needle.len(),
            at + needle.len() <= hay.len(),
            hay@.subrange(at as int, at + i) == needle@.subrange(0, i as int),
        decreases needle.len() - i,
    {
        if hay[at + i] != needle[i] {
            assert(hay@.subrange(at as int, at + needle.len())[i as int] != needle@[i as int]);
            return false;
        }
        assert(hay@.subrange(at as int, at + i + 1) == hay@.subrange(at as int, at + i).push(
            hay@[at + i],
        ));
        assert(needle@.subrange(0, i + 1) == needle@.subrange(0, i as int).push(needle@[i as int]));
        i += 1;
    }
    assert(needle@.subrange(0, needle.len() as int) == needle@);
    true
}

/// Whether `s` ends with `suffix`.
pub fn has_suffix(s: &Vec<char>, suffix: &Vec<char>) -> (r: bool)
    ensures
        r == suffix@.is_suffix_of(s@),
{
    if suffix.len() > s.len() {
        return false;
    }
    let at = s.len() - suffix.len();
    let r = matches_at(s, suffix, at);
    proof {
        assert(s@.subrange(at as int, at + suffix@.len()) == s@.subrange(
            s@.len() - suffix@.len(),
            s@.len() as int,
        ));
    }
    r
}

/// Whether `needle` stands somewhere in `hay`.
pub fn contains_text(hay: &Vec<char>, needle: &Vec<char>) -> (r: bool)
    ensures
        r == occurs_in(hay@, needle@),
{
    if needle.len() > hay.len() {
        return false;
    }
    let last = hay.len() - needle.len();
    let mut at: usize = 0;
    loop
        invariant
            at <= last,
            last == hay.len() - needle.len(),
            forall|k: int| 0 <= k < at ==> !occurs_at(hay@, needle@, k),
        decreases last - at,
    {
        if matches_at(hay, needle, at) {
            return true;
        }
        if at == last {
            return false;
        }
        at += 1;
    }
}

/// `s` without the white space at its two ends.
pub fn trim_chars(s: &Vec<char>) -> (r: Vec<char>)
    ensures
        r@ == trimmed(s@),
{
    let mut lead: usize = 0;
    while lead < s.len() && is_whitespace(s[lead])
        invariant
            lead <= s.len(),
            leading_space(s@, 0) == lead + leading_space(s@, lead as int),
        decreases s.len() - lead,
    {
        lead += 1;
    }
    if lead >= s.len() {
        return Vec::new();
    }
    let mut end: usize = s.len();
    while end > 0 && is_whitespace(s[end - 1])
        invariant
            lead < end <= s.len(),
            !whitespace(s@[lead as int]),
            trailing_space(s@, s.len() as int) == (s.len() - end) + trailing_space(s@, end as int),
        decreases end,
    {
        end -= 1;
    }
    let mut r: Vec<char> = Vec::new();
    let mut i: usize = lead;
    while i < end
        invariant
            lead <= i <= end <= s.len(),
            r@ == s@.subrange(lead as int, i as int),
        decreases end - i,
    {
        r.push(s[i]);
        assert(s@.subrange(lead as int, i + 1) == s@.subrange(lead as int, i as int).push(
            s@[i as int],
        ));
        i += 1;
    }
    r
}

/// The ASCII letters and digits of `s`, in their order.
pub fn keep_alphanumerics(s: &Vec<char>) -> (r: Vec<char>)
    ensures
        r@ == alphanumerics(s@),
{
    let mut r: Vec<char> = Vec::new();
    let mut i: usize = 0;
    while i < s.len()
        invariant
            i <= s.len(),
            r@ == alphanumerics(s@.subrange(0, i as int)),
        decreases s.len() - i,
    {
        let c = s[i];
        assert(s@.subrange(0, i + 1).drop_last() =~= s@.subrange(0, i as int));
        if ('a' <= c && c <= 'z') || ('A' <= c && c <= 'Z') || ('0' <= c && c <= '9') {
            r.push(c);
        }
        i += 1;
    }
    assert(s@.subrange(0, s.len() as int) =~= s@);
    r
}

/// `input` as a title: trimmed, its underscores turned into spaces, the first
/// character of each word in upper case and the rest as it was.
pub fn capitalize(input: String) -> (r: String)
    ensures
        r@ == capitalized(input@),
{
    let s = replace_char(&trim_chars(&chars_of(input.as_str())), '_', ' ');
    let mut out: Vec<char> = Vec::new();
    let mut word_start = true;
    let mut i: usize = 0;
    while i < s.len()
        invariant
            i <= s.len(),
            out@ + title_cased(s@, i as int, word_start) == title_cased(s@, 0, true),
        decreases s.len() - i,
    {
        let c = s[i];
        let ghost before = out@;
        if is_whitespace(c) {
            if !word_start {
                out.push(c);
                assert(before.push(c) + title_cased(s@, i + 1, true) =~= before + title_cased(
                    s@,
                    i as int,
                    word_start,
                ));
            }
            word_start = true;
        } else if word_start {
            out.push(word_start_of(c));
            assert(before.push(uppercase(c)) + title_cased(s@, i + 1, false) =~= before
                + title_cased(s@, i as int, word_start));
            word_start = false;
        } else {
            out.push(c);
            assert(before.push(c) + title_cased(s@, i + 1, false) =~= before + title_cased(
                s@,
                i as int,
                word_start,
            ));
        }
        i += 1;
    }
    assert(out@ + title_cased(s@, i as int, word_start) =~= out@);
    string_of(&out)
}

/// Where `needle` stands in `hay` for the first time.
pub fn find_text(hay: &Vec<char>, needle: &Vec<char>) -> (r: Option<usize>)
    ensures
        match r {
            Some(at) => first_occurrence(hay@, needle@, 0) == Some(at as int) && occurs_at(
                hay@,
                needle@,
                at as int,
            ),
            None => first_occurrence(hay@, needle@, 0) is None,
        },
{
    let mut at: usize = 0;
    loop
        invariant
            at <= hay.len(),
            first_occurrence(hay@, needle@, 0) == first_occurrence(hay@, needle@, at as int),
        decreases hay.len() - at,
    {
        if matches_at(hay, needle, at) {
            return Some(at);
        }
        if at == hay.len() {
            return None;
        }
        at += 1;
    }
}

} // verus!
