//! The table of languages as source text: what is read out of the site
//! matrix of Wikimedia, and the text of the enum and of its functions that is
//! made of it.

use crate::json::{json_as_array, json_as_str, json_get, json_members, json_of, jsons_of, members_of, Json};
use crate::page::{member_of, text_of};
use crate::text::{
    alphanumerics, capitalize, capitalized, chars_of, concat, keep_alphanumerics,
    matches_at, occurs_at, same_text, slice_string, string_of,
};
use serde_json::Value;
use vstd::prelude::*;

verus! {

/// The name of the enum that the text declares.
pub open spec fn language_enum_name() -> Seq<char> {
    "WikiLanguages"@
}

/// Whether `c` is a decimal digit.
pub open spec fn is_digit(c: char) -> bool {
    '0' <= c && c <= '9'
}

/// The number that the digits of `digits` write.
pub open spec fn decimal(digits: Seq<char>) -> nat
    decreases digits.len(),
{
    if digits.len() == 0 {
        0
    } else {
        decimal(digits.drop_last()) * 10 + (digits.last() as u32 - '0' as u32) as nat
    }
}

/// Whether `digits` are digits alone, at least one, and write a number that a
/// `u64` holds.
pub open spec fn writes_number(digits: Seq<char>) -> bool {
    &&& digits.len() > 0
    &&& forall|i: int| 0 <= i < digits.len() ==> is_digit(#[trigger] digits[i])
    &&& decimal(digits) <= u64::MAX
}

/// Whether `text` writes a number that a `u64` holds, with or without a plus
/// sign before the digits.
pub open spec fn reads_as_number(text: Seq<char>) -> bool {
    if text.len() > 0 && text[0] == '+' {
        writes_number(text.drop_first())
    } else {
        writes_number(text)
    }
}

/// The number that digits write is no smaller than the number that the first
/// of them write.
pub proof fn lemma_decimal_grows(digits: Seq<char>, len: int)
    requires
        0 <= len <= digits.len(),
        forall|i: int| 0 <= i < digits.len() ==> is_digit(#[trigger] digits[i]),
    ensures
        decimal(digits.subrange(0, len)) <= decimal(digits),
    decreases digits.len() - len,
{
    if len < digits.len() {
        let longer = digits.subrange(0, len + 1);
        assert(longer.drop_last() =~= digits.subrange(0, len));
        assert(is_digit(digits[len]));
        assert(longer.last() == digits[len]);
        lemma_decimal_grows(digits, len + 1);
    } else {
        assert(digits.subrange(0, len) =~= digits);
    }
}

/// Whether `text` writes a number that a `u64` holds, as `u64::from_str`
/// judges it.
pub fn is_number(text: &str) -> (r: bool)
    ensures
        r == reads_as_number(text@),
{
    let chars = chars_of(text);
    let start: usize = if chars.len() > 0 && chars[0] == '+' {
        1
    } else {
        0
    };
    let ghost digits = chars@.subrange(start as int, chars.len() as int);
    proof {
        if start == 1 {
            assert(digits =~= text@.drop_first());
        } else {
            assert(digits =~= text@);
        }
    }
    if chars.len() == start {
        return false;
    }
    let mut value: u64 = 0;
    let mut i: usize = start;
    proof {
        assert(digits.subrange(0, 0) =~= Seq::<char>::empty());
    }
    while i < chars.len()
        invariant
            start <= i <= chars.len(),
            digits == chars@.subrange(start as int, chars.len() as int),
            reads_as_number(text@) == writes_number(digits),
            forall|k: int| 0 <= k < i - start ==> is_digit(#[trigger] digits[k]),
            value == decimal(digits.subrange(0, i - start)),
        decreases chars.len() - i,
    {
        let c = chars[i];
        assert(digits[i - start] == c);
        if !('0' <= c && c <= '9') {
            return false;
        }
        let digit: u64 = (c as u32 - '0' as u32) as u64;
        proof {
            let longer = digits.subrange(0, i - start + 1);
            assert(longer.drop_last() =~= digits.subrange(0, i - start));
            assert(longer.last() == c);
            if value > (u64::MAX - digit) / 10 {
                if forall|k: int| 0 <= k < digits.len() ==> is_digit(#[trigger] digits[k]) {
                    lemma_decimal_grows(digits, i - start + 1);
                }
            }
        }
        if value > (u64::MAX - digit) / 10 {
            return false;
        }
        value = value * 10 + digit;
        i += 1;
    }
    proof {
        assert(digits.subrange(0, digits.len() as int) =~= digits);
    }
    true
}

/// The projects of Wikimedia that have editions by language.
#[derive(Clone, Copy, Debug, PartialEq, Eq, Hash, Structural)]
pub enum WikimediaCode {
    Wikipedia,
    Wiktionary,
    Wikibooks,
    Wikinews,
    Wikiquote,
    Wikisource,
    Wikiversity,
    Wikivoayge,
}

/// The project that the site matrix means by `code`. It has no word for
/// Wikibooks.
pub open spec fn project_of(code: Seq<char>) -> Option<WikimediaCode> {
    if code == "wiki"@ {
        Some(WikimediaCode::Wikipedia)
    } else if code == "wiktionary"@ {
        Some(WikimediaCode::Wiktionary)
    } else if code == "wikinews"@ {
        Some(WikimediaCode::Wikinews)
    } else if code == "wikiquote"@ {
        Some(WikimediaCode::Wikiquote)
    } else if code == "wikisource"@ {
        Some(WikimediaCode::Wikisource)
    } else if code == "wikiversity"@ {
        Some(WikimediaCode::Wikiversity)
    } else if code == "wikivoyage"@ {
        Some(WikimediaCode::Wikivoayge)
    } else {
        None
    }
}

impl WikimediaCode {
    /// The word for the project.
    pub open spec fn word(self) -> Seq<char> {
        match self {
            WikimediaCode::Wikipedia => "wiki"@,
            WikimediaCode::Wiktionary => "wiktionary"@,
            WikimediaCode::Wikibooks => "wikibooks"@,
            WikimediaCode::Wikinews => "wikinews"@,
            WikimediaCode::Wikiquote => "wikiquote"@,
            WikimediaCode::Wikisource => "wikisource"@,
            WikimediaCode::Wikiversity => "wikiversity"@,
            WikimediaCode::Wikivoayge => "wikivoyage"@,
        }
    }

    /// The project that the site matrix means by `str`.
    pub fn from_str(str: &str) -> (r: Option<Self>)
        ensures
            r == project_of(str@),
    {
        if same_text(str, "wiki") {
            Some(WikimediaCode::Wikipedia)
        } else if same_text(str, "wiktionary") {
            Some(WikimediaCode::Wiktionary)
        } else if same_text(str, "wikinews") {
            Some(WikimediaCode::Wikinews)
        } else if same_text(str, "wikiquote") {
            Some(WikimediaCode::Wikiquote)
        } else if same_text(str, "wikisource") {
            Some(WikimediaCode::Wikisource)
        } else if same_text(str, "wikiversity") {
            Some(WikimediaCode::Wikiversity)
        } else if same_text(str, "wikivoyage") {
            Some(WikimediaCode::Wikivoayge)
        } else {
            None
        }
    }

    /// The word for the project.
    pub fn as_str(&self) -> (r: &'static str)
        ensures
            r@ == self.word(),
    {
        match self {
            WikimediaCode::Wikipedia => "wiki",
            WikimediaCode::Wiktionary => "wiktionary",
            WikimediaCode::Wikibooks => "wikibooks",
            WikimediaCode::Wikinews => "wikinews",
            WikimediaCode::Wikiquote => "wikiquote",
            WikimediaCode::Wikisource => "wikisource",
            WikimediaCode::Wikiversity => "wikiversity",
            WikimediaCode::Wikivoayge => "wikivoyage",
        }
    }
}

/// The projects, in the order in which their functions are written.
pub open spec fn all_projects() -> Seq<WikimediaCode> {
    seq![
        WikimediaCode::Wikipedia,
        WikimediaCode::Wiktionary,
        WikimediaCode::Wikibooks,
        WikimediaCode::Wikinews,
        WikimediaCode::Wikiquote,
        WikimediaCode::Wikisource,
        WikimediaCode::Wikiversity,
        WikimediaCode::Wikivoayge,
    ]
}

/// The projects, in the order in which their functions are written.
pub fn wikipedia_code_variants() -> (r: Vec<WikimediaCode>)
    ensures
        r@ == all_projects(),
{
    let mut all: Vec<WikimediaCode> = Vec::new();
    all.push(WikimediaCode::Wikipedia);
    all.push(WikimediaCode::Wiktionary);
    all.push(WikimediaCode::Wikibooks);
    all.push(WikimediaCode::Wikinews);
    all.push(WikimediaCode::Wikiquote);
    all.push(WikimediaCode::Wikisource);
    all.push(WikimediaCode::Wikiversity);
    all.push(WikimediaCode::Wikivoayge);
    assert(all@ =~= all_projects());
    all
}

/// A language of the site matrix.
#[derive(Debug)]
pub struct LanguageData {
    universal_code: String,
    name: String,
    local_name: String,
    codes: Vec<(WikimediaCode, String)>,
}

/// What is known of a language.
pub ghost struct LanguageView {
    /// The code of the language.
    pub universal_code: Seq<char>,
    /// The name of the language in the language itself.
    pub name: Seq<char>,
    /// The name of the language in English.
    pub local_name: Seq<char>,
    /// The code under which each project has its edition in the language,
    /// in the order in which they were learnt.
    pub codes: Seq<(WikimediaCode, Seq<char>)>,
}

/// The code that `codes` gives for `project`: that of the entry learnt last.
pub open spec fn code_for(codes: Seq<(WikimediaCode, Seq<char>)>, project: WikimediaCode) -> Option<
    Seq<char>,
>
    decreases codes.len(),
{
    if codes.len() == 0 {
        None
    } else if codes.last().0 == project {
        Some(codes.last().1)
    } else {
        code_for(codes.drop_last(), project)
    }
}

impl LanguageView {
    /// The name of the language's variant: the letters and digits of its
    /// English name as a title.
    pub open spec fn variant(self) -> Seq<char> {
        alphanumerics(capitalized(self.local_name))
    }

    /// The variant with the name of the enum before it.
    pub open spec fn qualified_variant(self) -> Seq<char> {
        language_enum_name() + "::"@ + self.variant()
    }

    /// The arm that gives the language's code in `project`, where it has one.
    pub open spec fn code_arm(self, project: WikimediaCode) -> Option<Seq<char>> {
        match code_for(self.codes, project) {
            Some(code) => Some(self.qualified_variant() + " => \""@ + code + "\",\n"@),
            None => None,
        }
    }

    /// The arm that gives the language's code in `project` as an option,
    /// where it has one.
    pub open spec fn option_code_arm(self, project: WikimediaCode) -> Option<Seq<char>> {
        match code_for(self.codes, project) {
            Some(code) => Some(self.qualified_variant() + " => Some(\""@ + code + "\"),\n"@),
            None => None,
        }
    }

    /// The arm that gives the language's name.
    pub open spec fn name_arm(self) -> Seq<char> {
        self.qualified_variant() + " => \""@ + self.name + "\",\n"@
    }
}

impl View for LanguageData {
    type V = LanguageView;

    closed spec fn view(&self) -> LanguageView {
        LanguageView {
            universal_code: self.universal_code@,
            name: self.name@,
            local_name: self.local_name@,
            codes: self.codes.deep_view(),
        }
    }
}

impl DeepView for WikimediaCode {
    type V = WikimediaCode;

    open spec fn deep_view(&self) -> WikimediaCode {
        *self
    }
}

impl LanguageData {
    /// A language with its code, its name in the language itself, its name in
    /// English, and the codes of its editions. The codes come as a list in the
    /// order in which they were learnt; of two for one project the later
    /// counts.
    pub fn new(code: &str, name: &str, local_name: &str, codes: Vec<(WikimediaCode, String)>) -> (r:
        Self)
        ensures
            r@ == (LanguageView {
                universal_code: code@,
                name: name@,
                local_name: local_name@,
                codes: codes.deep_view(),
            }),
    {
        LanguageData {
            universal_code: code.to_owned(),
            name: name.to_owned(),
            local_name: local_name.to_owned(),
            codes,
        }
    }

    fn code_of(&self, project: &WikimediaCode) -> (r: Option<&String>)
        ensures
            r.deep_view() == code_for(self@.codes, *project),
    {
        let mut i: usize = self.codes.len();
        assert(self.codes.deep_view().subrange(0, i as int) =~= self.codes.deep_view());
        while i > 0
            invariant
                i <= self.codes.len(),
                code_for(self.codes.deep_view(), *project) == code_for(
                    self.codes.deep_view().subrange(0, i as int),
                    *project,
                ),
            decreases i,
        {
            i -= 1;
            let ghost upto = self.codes.deep_view().subrange(0, i + 1);
            assert(upto.drop_last() =~= self.codes.deep_view().subrange(0, i as int));
            assert(upto.last() == (self.codes[i as int].0, self.codes[i as int].1@));
            if self.codes[i].0 == *project {
                return Some(&self.codes[i].1);
            }
        }
        proof {
            assert(self.codes.deep_view().subrange(0, 0).len() == 0);
        }
        None
    }

    /// The variant of the language with the name of the enum before it.
    pub fn enum_variant(&self) -> (r: String)
        ensures
            r@ == self@.qualified_variant(),
    {
        let variant = self.enum_variant_unqualified();
        concat(concat("WikiLanguages", "::").as_str(), variant.as_str())
    }

    /// The name of the language's variant.
    pub fn enum_variant_unqualified(&self) -> (r: String)
        ensures
            r@ == self@.variant(),
    {
        let title = capitalize(self.local_name.clone());
        string_of(&keep_alphanumerics(&chars_of(title.as_str())))
    }

    /// The arm that gives the language's code in `wikimedia_code`, where it
    /// has one.
    pub fn code_match_arm(&self, wikimedia_code: &WikimediaCode) -> (r: Option<String>)
        ensures
            r.deep_view() == self@.code_arm(*wikimedia_code),
    {
        match self.code_of(wikimedia_code) {
            Some(code) => {
                let head = concat(self.enum_variant().as_str(), " => \"");
                Some(concat(concat(head.as_str(), code.as_str()).as_str(), "\",\n"))
            },
            None => None,
        }
    }

    /// The arm that gives the language's code in `wikimedia_code` as an
    /// option, where it has one.
    pub fn option_code_match_arm(&self, wikimedia_code: &WikimediaCode) -> (r: Option<String>)
        ensures
            r.deep_view() == self@.option_code_arm(*wikimedia_code),
    {
        match self.code_of(wikimedia_code) {
            Some(code) => {
                let head = concat(self.enum_variant().as_str(), " => Some(\"");
                Some(concat(concat(head.as_str(), code.as_str()).as_str(), "\"),\n"))
            },
            None => None,
        }
    }

    /// The arm that gives the language's name.
    pub fn name_match_arm(&self) -> (r: String)
        ensures
            r@ == self@.name_arm(),
    {
        let head = concat(self.enum_variant().as_str(), " => \"");
        concat(concat(head.as_str(), self.name.as_str()).as_str(), "\",\n")
    }
}

/// How many small ASCII letters stand in `s` from `from` on, without a gap.
pub open spec fn lower_run(s: Seq<char>, from: int) -> nat
    decreases s.len() - from,
{
    if 0 <= from < s.len() && 'a' <= s[from] && s[from] <= 'z' {
        1 + lower_run(s, from + 1)
    } else {
        0
    }
}

/// The code that the address beginning at `at` names: what stands between
/// `https://` and the first dot, made of small letters alone, where something
/// other than a line break follows the dot.
pub open spec fn code_at(s: Seq<char>, at: int) -> Option<Seq<char>> {
    if occurs_at(s, "https://"@, at) {
        let from = at + "https://"@.len();
        let dot = from + lower_run(s, from);
        if dot + 1 < s.len() && s[dot] == '.' && s[dot + 1] != '\n' {
            Some(s.subrange(from, dot))
        } else {
            None
        }
    } else {
        None
    }
}

/// The code that the first address in `s` from `from` on names.
pub open spec fn code_from(s: Seq<char>, from: int) -> Option<Seq<char>>
    decreases s.len() - from,
{
    if from < 0 || from >= s.len() {
        None
    } else {
        match code_at(s, from) {
            Some(code) => Some(code),
            None => code_from(s, from + 1),
        }
    }
}

/// The code that the first address in `url` names: the first label of its
/// host.
pub fn code_from_url(url: &str) -> (r: Option<String>)
    ensures
        r.deep_view() == code_from(url@, 0),
{
    let s = chars_of(url);
    let scheme = chars_of("https://");
    let mut at: usize = 0;
    while at < s.len()
        invariant
            at <= s.len(),
            s@ == url@,
            scheme@ == "https://"@,
            code_from(s@, at as int) == code_from(s@, 0),
        decreases s.len() - at,
    {
        if matches_at(&s, &scheme, at) {
            let from = at + scheme.len();
            let mut dot: usize = from;
            while dot < s.len() && 'a' <= s[dot] && s[dot] <= 'z'
                invariant
                    from <= dot <= s.len(),
                    lower_run(s@, from as int) == (dot - from) + lower_run(s@, dot as int),
                decreases s.len() - dot,
            {
                dot += 1;
            }
            if s.len() - dot > 1 && s[dot] == '.' && s[dot + 1] != '\n' {
                return Some(slice_string(&s, from, dot));
            }
        }
        at += 1;
    }
    None
}

/// The project and the code that one site of a language gives: the project by
/// its word, the code by the site's address.
pub open spec fn site_code(site: Json) -> Option<(WikimediaCode, Seq<char>)> {
    match text_of(site.member("url"@)) {
        Some(url) => match code_from(url, 0) {
            Some(code) => match text_of(site.member("code"@)) {
                Some(word) => match project_of(word) {
                    Some(project) => Some((project, code)),
                    None => None,
                },
                None => None,
            },
            None => None,
        },
        None => None,
    }
}

/// The projects and codes that `sites` give, in their order.
pub open spec fn site_codes(sites: Seq<Json>) -> Seq<(WikimediaCode, Seq<char>)>
    decreases sites.len(),
{
    if sites.len() == 0 {
        Seq::empty()
    } else {
        match site_code(sites.last()) {
            Some(entry) => site_codes(sites.drop_last()).push(entry),
            None => site_codes(sites.drop_last()),
        }
    }
}

/// The language that the member `title` of the site matrix describes: one
/// under a number, with a list of sites, a code, a name and a local name.
pub open spec fn language_of(title: Seq<char>, value: Json) -> Option<LanguageView> {
    if !reads_as_number(title) {
        None
    } else {
        match member_of(Some(value), "site"@) {
            Some(list) => match list.items() {
                Some(sites) => match (
                    text_of(value.member("code"@)),
                    text_of(value.member("name"@)),
                    text_of(value.member("localname"@)),
                ) {
                    (Some(code), Some(name), Some(local_name)) => Some(
                        LanguageView {
                            universal_code: code,
                            name: name,
                            local_name: local_name,
                            codes: site_codes(sites),
                        },
                    ),
                    _ => None,
                },
                None => None,
            },
            None => None,
        }
    }
}

/// The languages that the members of the site matrix describe, in their
/// order.
pub open spec fn languages_of(members: Seq<(Seq<char>, Json)>) -> Seq<LanguageView>
    decreases members.len(),
{
    if members.len() == 0 {
        Seq::empty()
    } else {
        match language_of(members.last().0, members.last().1) {
            Some(language) => languages_of(members.drop_last()).push(language),
            None => languages_of(members.drop_last()),
        }
    }
}

/// What a list of languages holds.
pub open spec fn language_views(languages: Seq<LanguageData>) -> Seq<LanguageView> {
    Seq::new(languages.len(), |i: int| languages[i]@)
}

fn codes_of_sites(sites: &Vec<Value>) -> (r: Vec<(WikimediaCode, String)>)
    ensures
        r.deep_view() == site_codes(jsons_of(sites@)),
{
    let mut codes: Vec<(WikimediaCode, String)> = Vec::new();
    let mut i: usize = 0;
    assert(codes.deep_view() =~= Seq::<(WikimediaCode, Seq<char>)>::empty());
    while i < sites.len()
        invariant
            i <= sites.len(),
            codes.deep_view() == site_codes(jsons_of(sites@).subrange(0, i as int)),
        decreases sites.len() - i,
    {
        let ghost before = codes.deep_view();
        proof {
            assert(jsons_of(sites@).subrange(0, i + 1).drop_last() =~= jsons_of(sites@).subrange(
                0,
                i as int,
            ));
        }
        let site = &sites[i];
        let url = match json_get(site, "url") {
            Some(url) => json_as_str(url),
            None => None,
        };
        let word = match json_get(site, "code") {
            Some(word) => json_as_str(word),
            None => None,
        };
        match (url, word) {
            (Some(url), Some(word)) => match (code_from_url(url), WikimediaCode::from_str(word)) {
                (Some(code), Some(project)) => {
                    codes.push((project, code));
                    assert(codes.deep_view() =~= before.push((project, code@)));
                },
                _ => {},
            },
            _ => {},
        }
        i += 1;
    }
    assert(jsons_of(sites@).subrange(0, sites.len() as int) =~= jsons_of(sites@));
    codes
}

fn text_member<'a>(value: &'a Value, key: &str) -> (r: Option<&'a str>)
    ensures
        r.deep_view() == text_of(json_of(*value).member(key@)),
{
    match json_get(value, key) {
        Some(member) => json_as_str(member),
        None => None,
    }
}

/// Reads the languages out of the site matrix: each member under a number
/// that has a list of sites, a code, a name and a local name.
pub fn languages_from_sitematrix(site_matrix: &Value) -> (r: Vec<LanguageData>)
    requires
        json_of(*site_matrix) is Object,
    ensures
        language_views(r@) == languages_of(json_of(*site_matrix)->Object_0),
{
    let members = match json_members(site_matrix) {
        Some(members) => members,
        None => Vec::new(),
    };
    let ghost all = members_of(members@);
    let mut languages: Vec<LanguageData> = Vec::new();
    let mut i: usize = 0;
    assert(language_views(languages@) =~= Seq::<LanguageView>::empty());
    while i < members.len()
        invariant
            i <= members.len(),
            all == members_of(members@),
            language_views(languages@) == languages_of(all.subrange(0, i as int)),
        decreases members.len() - i,
    {
        let ghost before = language_views(languages@);
        proof {
            assert(all.subrange(0, i + 1).drop_last() =~= all.subrange(0, i as int));
            assert(all.subrange(0, i + 1).last() == (members[i as int].0@, json_of(*members[i as int].1)));
        }
        let title: &String = members[i].0;
        let value: &Value = members[i].1;
        if is_number(title.as_str()) {
            let sites = match json_get(value, "site") {
                Some(list) => json_as_array(list),
                None => None,
            };
            match sites {
                Some(sites) => match (
                    text_member(value, "code"),
                    text_member(value, "name"),
                    text_member(value, "localname"),
                ) {
                    (Some(code), Some(name), Some(local_name)) => {
                        languages.push(
                            LanguageData::new(code, name, local_name, codes_of_sites(sites)),
                        );
                        assert(language_views(languages@) =~= before.push(
                            language_of(members[i as int].0@, json_of(*members[i as int].1)).unwrap(),
                        ));
                    },
                    _ => {},
                },
                None => {},
            }
        }
        i += 1;
    }
    assert(all.subrange(0, members.len() as int) =~= all);
    languages
}

/// The languages as `languages_from_sitematrix` reads them, or `None` where
/// `site_matrix` is no object.
pub fn try_languages_from_sitematrix(site_matrix: &Value) -> (r: Option<Vec<LanguageData>>)
    ensures
        r is Some == json_of(*site_matrix) is Object,
        r matches Some(languages) ==> language_views(languages@) == languages_of(
            json_of(*site_matrix)->Object_0,
        ),
{
    if json_members(site_matrix).is_some() {
        Some(languages_from_sitematrix(site_matrix))
    } else {
        None
    }
}

/// The languages with local names that differ: a language whose local name an
/// earlier one bears already gets its code added to the name.
pub open spec fn renamed(languages: Seq<LanguageView>) -> Seq<LanguageView>
    decreases languages.len(),
{
    if languages.len() == 0 {
        Seq::empty()
    } else {
        let before = renamed(languages.drop_last());
        let last = languages.last();
        if taken(before, last.local_name) {
            before.push(
                LanguageView {
                    local_name: last.local_name + "_"@ + last.universal_code,
                    ..last
                },
            )
        } else {
            before.push(last)
        }
    }
}

/// Whether one of `languages` bears the local name `local_name`.
pub open spec fn taken(languages: Seq<LanguageView>, local_name: Seq<char>) -> bool {
    exists|i: int| 0 <= i < languages.len() && (#[trigger] languages[i]).local_name == local_name
}

/// The arms of `languages` for `project`, each set in by four spaces, one
/// after the other.
pub open spec fn code_arms(languages: Seq<LanguageView>, project: WikimediaCode) -> Seq<char>
    decreases languages.len(),
{
    if languages.len() == 0 {
        Seq::empty()
    } else {
        match languages.last().option_code_arm(project) {
            Some(arm) => code_arms(languages.drop_last(), project) + "    "@ + arm,
            None => code_arms(languages.drop_last(), project),
        }
    }
}

/// The arms that give the names of `languages`, each set in by four spaces,
/// one after the other.
pub open spec fn name_arms(languages: Seq<LanguageView>) -> Seq<char>
    decreases languages.len(),
{
    if languages.len() == 0 {
        Seq::empty()
    } else {
        name_arms(languages.drop_last()) + "    "@ + languages.last().name_arm()
    }
}

/// The function that gives the code in `project`: its name and its body.
pub open spec fn code_function(languages: Seq<LanguageView>, project: WikimediaCode) -> (
    Seq<char>,
    Seq<char>,
) {
    (
        "as_code_"@ + project.word(),
        "match self {\n"@ + code_arms(languages, project) + "    _ => None,\n}"@,
    )
}

/// The text of the enum of languages and of its functions.
#[derive(Debug)]
pub struct EnumCode {
    /// The variants of the enum, one for each language.
    pub variants: Vec<String>,
    /// The functions that give the code in a project: of each the name and
    /// the body.
    pub code_functions: Vec<(String, String)>,
    /// The body of the function `as_name`.
    pub name_function: String,
}

/// Whether `code` is the text for `languages`: a variant for each, a function
/// for each project, and the function of names.
pub open spec fn is_enum_code(code: EnumCode, languages: Seq<LanguageView>) -> bool {
    let named = renamed(languages);
    &&& code.variants.deep_view() == Seq::new(named.len(), |i: int| named[i].variant())
    &&& code.code_functions.deep_view() == Seq::new(
        all_projects().len(),
        |i: int| code_function(named, all_projects()[i]),
    )
    &&& code.name_function@ == "match self {\n"@ + name_arms(named) + "}"@
}

fn rename(languages: Vec<LanguageData>) -> (r: Vec<LanguageData>)
    ensures
        language_views(r@) == renamed(language_views(languages@)),
{
    let ghost all = language_views(languages@);
    let mut languages = languages;
    let mut named: Vec<LanguageData> = Vec::new();
    let total = languages.len();
    let mut i: usize = 0;
    assert(language_views(named@) =~= Seq::<LanguageView>::empty());
    assert(all.subrange(0, total as int) =~= all);
    while i < total
        invariant
            i <= total,
            total == all.len(),
            languages.len() == total - i,
            language_views(languages@) == all.subrange(i as int, total as int),
            language_views(named@) == renamed(all.subrange(0, i as int)),
        decreases total - i,
    {
        let ghost before = language_views(named@);
        let ghost rest = language_views(languages@);
        let ghost held = languages@;
        let mut language = languages.remove(0);
        proof {
            assert(language == held[0]);
            assert(rest[0] == held[0]@);
            assert(rest[0] == all[i as int]);
            assert(language_views(languages@) =~= all.subrange(i + 1, total as int)) by {
                assert forall|k: int| 0 <= k < languages@.len() implies language_views(
                    languages@,
                )[k] == all.subrange(i + 1, total as int)[k] by {
                    assert(languages@[k] == held[k + 1]);
                    assert(rest[k + 1] == held[k + 1]@);
                    assert(rest[k + 1] == all[i + 1 + k]);
                }
            }
            assert(all.subrange(0, i + 1).drop_last() =~= all.subrange(0, i as int));
        }
        let mut seen = false;
        let mut k: usize = 0;
        while k < named.len()
            invariant
                k <= named.len(),
                before == language_views(named@),
                seen == exists|j: int|
                    0 <= j < k && (#[trigger] before[j]).local_name == language@.local_name,
            decreases named.len() - k,
        {
            if same_text(named[k].local_name.as_str(), language.local_name.as_str()) {
                assert(before[k as int].local_name == language@.local_name);
                seen = true;
            }
            k += 1;
        }
        assert(seen == taken(before, language@.local_name));
        if seen {
            let with_bar = concat(language.local_name.as_str(), "_");
            language.local_name = concat(with_bar.as_str(), language.universal_code.as_str());
        }
        named.push(language);
        assert(language_views(named@) =~= renamed(all.subrange(0, i + 1)));
        i += 1;
    }
    assert(all.subrange(0, total as int) =~= all);
    named
}

fn code_arms_text(languages: &Vec<LanguageData>, project: &WikimediaCode) -> (r: String)
    ensures
        r@ == code_arms(language_views(languages@), *project),
{
    let ghost all = language_views(languages@);
    let mut arms = String::new();
    let mut i: usize = 0;
    while i < languages.len()
        invariant
            i <= languages.len(),
            all == language_views(languages@),
            arms@ == code_arms(all.subrange(0, i as int), *project),
        decreases languages.len() - i,
    {
        assert(all.subrange(0, i + 1).drop_last() =~= all.subrange(0, i as int));
        match languages[i].option_code_match_arm(project) {
            Some(arm) => {
                arms = concat(concat(arms.as_str(), "    ").as_str(), arm.as_str());
            },
            None => {},
        }
        i += 1;
    }
    assert(all.subrange(0, languages.len() as int) =~= all);
    arms
}

fn name_arms_text(languages: &Vec<LanguageData>) -> (r: String)
    ensures
        r@ == name_arms(language_views(languages@)),
{
    let ghost all = language_views(languages@);
    let mut arms = String::new();
    let mut i: usize = 0;
    while i < languages.len()
        invariant
            i <= languages.len(),
            all == language_views(languages@),
            arms@ == name_arms(all.subrange(0, i as int)),
        decreases languages.len() - i,
    {
        assert(all.subrange(0, i + 1).drop_last() =~= all.subrange(0, i as int));
        let arm = languages[i].name_match_arm();
        arms = concat(concat(arms.as_str(), "    ").as_str(), arm.as_str());
        i += 1;
    }
    assert(all.subrange(0, languages.len() as int) =~= all);
    arms
}

/// Writes the enum of `languages` and its functions: a variant for each
/// language, for each project the function that gives a language's code in
/// it, and the function that gives a language's name.
pub fn languages_as_enum_code(languages: Vec<LanguageData>) -> (r: EnumCode)
    ensures
        is_enum_code(r, language_views(languages@)),
{
    let named = rename(languages);
    let ghost all = language_views(named@);
    let mut variants: Vec<String> = Vec::new();
    let mut i: usize = 0;
    while i < named.len()
        invariant
            i <= named.len(),
            all == language_views(named@),
            variants.len() == i,
            forall|k: int| 0 <= k < i ==> (#[trigger] variants[k])@ == all[k].variant(),
        decreases named.len() - i,
    {
        variants.push(named[i].enum_variant_unqualified());
        i += 1;
    }
    let projects = wikipedia_code_variants();
    let mut code_functions: Vec<(String, String)> = Vec::new();
    let mut p: usize = 0;
    while p < projects.len()
        invariant
            p <= projects.len(),
            projects@ == all_projects(),
            all == language_views(named@),
            code_functions.len() == p,
            forall|k: int|
                0 <= k < p ==> ((#[trigger] code_functions[k]).0@, code_functions[k].1@)
                    == code_function(all, all_projects()[k]),
        decreases projects.len() - p,
    {
        let project = projects[p];
        let name = concat("as_code_", project.as_str());
        let arms = code_arms_text(&named, &project);
        let body = concat(concat("match self {\n", arms.as_str()).as_str(), "    _ => None,\n}");
        code_functions.push((name, body));
        p += 1;
    }
    let names = name_arms_text(&named);
    let name_function = concat(concat("match self {\n", names.as_str()).as_str(), "}");
    let code = EnumCode { variants, code_functions, name_function };
    proof {
        assert(code.variants.deep_view() =~= Seq::new(all.len(), |i: int| all[i].variant()));
        assert(code.code_functions.deep_view() =~= Seq::new(
            all_projects().len(),
            |i: int| code_function(all, all_projects()[i]),
        ));
    }
    code
}

} // verus!
