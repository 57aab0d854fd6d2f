//! Pages of Wikipedia: what identifies a page, the two forms in which its
//! content arrives, and what is read out of them.

use crate::json::{
    first_member, json_as_array, json_as_str, json_get, json_of, json_parse,
    json_print, jsons_of, optional_json, parsed_json, printed_json, Json,
};
use crate::language::WikiLanguage;
use crate::links::{
    filtered_page, identity_of, is_identity, lemma_identity_is_normal, lemma_links_hold_targets,
    lemma_kept_candidate_is_selected, lemma_selected_excludes_filtered,
    lemma_selected_no_duplicates, links_from, scan_links, seen_before, select_links, selected,
    LinkFilter,
};
use crate::text::{
    capitalize, capitalized, chars_of, occurs_at, occurs_in, replace_char, replaced, string_of,
};
use crate::url::{
    joined_url, names_language, parsed_url, url_fault, url_origin, url_path_segments, url_relative, with_path_of,
    verify_url, LanguageInvalidError, PageUrl, UrlFault, WikipediaUrlError, WikipediaUrlType,
};
use serde_json::Value;
use vstd::prelude::*;

verus! {

/// What `url_encor::decode` makes of `text`.
pub uninterp spec fn percent_decoded(text: Seq<char>) -> Seq<char>;

/// `url_encor::decode`: percent escapes are resolved and `+` is read as a
/// space. The contract names the outcome.
#[verifier::external_body]
fn percent_decode(text: &str) -> (r: String)
    ensures
        r@ == percent_decoded(text@),
{
    url_encor::decode(text)
}

/// The body does not say which page it belongs to.
#[derive(Clone, Copy, Debug, PartialEq, Eq, Structural)]
pub struct PathinfoParseError;

/// A response that is no body of the kind asked for.
#[derive(Debug)]
pub struct DeserialisationError {
    /// What was wrong with the text.
    pub message: String,
}

/// The content of a page as the API delivers it, a JSON document in both
/// forms.
#[derive(Debug)]
pub enum WikipediaBody {
    /// The page's wikitext, from the call `action=parse&prop=wikitext`.
    WikiText(Value),
    /// The page's links, from the call `action=query&prop=links`.
    Links(Value),
}

impl Clone for WikipediaBody {
    /// A copy of the body.
    fn clone(&self) -> (r: Self)
        ensures
            r@ == self@,
    {
        match self {
            WikipediaBody::WikiText(value) => WikipediaBody::WikiText(value.clone()),
            WikipediaBody::Links(value) => WikipediaBody::Links(value.clone()),
        }
    }
}

/// What a body holds.
pub ghost enum BodyView {
    WikiText(Json),
    Links(Json),
}

impl View for WikipediaBody {
    type V = BodyView;

    open spec fn view(&self) -> BodyView {
        match self {
            WikipediaBody::WikiText(value) => BodyView::WikiText(json_of(*value)),
            WikipediaBody::Links(value) => BodyView::Links(json_of(*value)),
        }
    }
}

/// The member `key` of `json`, where there is one.
pub open spec fn member_of(json: Option<Json>, key: Seq<char>) -> Option<Json> {
    match json {
        Some(j) => j.member(key),
        None => None,
    }
}

/// The first member of `json`, where there is one.
pub open spec fn first_of(json: Option<Json>) -> Option<Json> {
    match json {
        Some(j) => j.first_member(),
        None => None,
    }
}

/// The text of `json`, where it is a string.
pub open spec fn text_of(json: Option<Json>) -> Option<Seq<char>> {
    match json {
        Some(j) => j.text(),
        None => None,
    }
}

/// The entry of a links document that describes the page: the first member of
/// `query.pages`.
pub open spec fn links_page(json: Json) -> Option<Json> {
    first_of(member_of(json.member("query"@), "pages"@))
}

/// The title that a links document gives its page.
pub open spec fn links_title(json: Json) -> Option<Seq<char>> {
    text_of(member_of(links_page(json), "title"@))
}

/// The title that a wikitext document gives its page: `parse.title`.
pub open spec fn wikitext_title(json: Json) -> Option<Seq<char>> {
    text_of(member_of(json.member("parse"@), "title"@))
}

/// The title of one entry of a list of links.
pub open spec fn item_title(item: Json) -> Option<Seq<char>> {
    text_of(item.member("title"@))
}

/// The titles of the entries of `items` that have one, each as a candidate
/// whose context is the title itself.
pub open spec fn titled(items: Seq<Json>) -> Seq<(Seq<char>, Seq<char>)>
    decreases items.len(),
{
    if items.len() == 0 {
        Seq::empty()
    } else {
        let before = titled(items.drop_last());
        match item_title(items.last()) {
            Some(title) => before.push((title, title)),
            None => before,
        }
    }
}

/// The candidates that a links document holds: the titles under `links` of
/// the page's entry. None where that list is missing.
pub open spec fn links_candidates(json: Json) -> Seq<(Seq<char>, Seq<char>)> {
    match member_of(links_page(json), "links"@) {
        Some(list) => match list.items() {
            Some(items) => titled(items),
            None => Seq::empty(),
        },
        None => Seq::empty(),
    }
}

/// The wikitext that a wikitext document holds: the first member of
/// `parse.wikitext`.
pub open spec fn wikitext_source(json: Json) -> Option<Seq<char>> {
    text_of(first_of(member_of(json.member("parse"@), "wikitext"@)))
}

/// The candidates that a wikitext document holds: the links of its wikitext.
/// None where the wikitext is missing.
pub open spec fn wikitext_candidates(json: Json) -> Seq<(Seq<char>, Seq<char>)> {
    match wikitext_source(json) {
        Some(source) => links_from(source, 0),
        None => Seq::empty(),
    }
}

impl BodyView {
    /// The document.
    pub open spec fn json(self) -> Json {
        match self {
            BodyView::WikiText(json) => json,
            BodyView::Links(json) => json,
        }
    }

    /// The identity of the page that the body says it belongs to.
    pub open spec fn identity(self) -> Option<Seq<char>> {
        let title = match self {
            BodyView::WikiText(json) => wikitext_title(json),
            BodyView::Links(json) => links_title(json),
        };
        match title {
            Some(title) => Some(identity_of(title)),
            None => None,
        }
    }

    /// The candidates for links that the body holds.
    pub open spec fn candidates(self) -> Seq<(Seq<char>, Seq<char>)> {
        match self {
            BodyView::WikiText(json) => wikitext_candidates(json),
            BodyView::Links(json) => links_candidates(json),
        }
    }

    /// The rule by which the body's candidates are held against the filtered
    /// page: a links document lists titles, wikitext holds markup.
    pub open spec fn filter(self) -> LinkFilter {
        match self {
            BodyView::WikiText(_) => LinkFilter::Markup,
            BodyView::Links(_) => LinkFilter::Title,
        }
    }

    /// The identities of the pages that the body links to, each once, in the
    /// order of its first mention. Of a links document these are the titles
    /// listed, but for the title of the filtered page. Of wikitext these are
    /// the targets of the links found, but for those whose markup names the
    /// filtered page, as target or as label.
    pub open spec fn linked(self) -> Seq<Seq<char>> {
        match self {
            BodyView::WikiText(json) => selected(wikitext_candidates(json), LinkFilter::Markup),
            BodyView::Links(json) => selected(links_candidates(json), LinkFilter::Title),
        }
    }
}

/// Each title is its own context.
pub proof fn lemma_titled_hold_targets(items: Seq<Json>)
    ensures
        forall|i: int|
            0 <= i < titled(items).len() ==> occurs_in(
                (#[trigger] titled(items)[i]).0,
                titled(items)[i].1,
            ) && titled(items)[i].0 == titled(items)[i].1,
    decreases items.len(),
{
    if items.len() > 0 {
        let before = titled(items.drop_last());
        lemma_titled_hold_targets(items.drop_last());
        assert forall|i: int| 0 <= i < titled(items).len() implies occurs_in(
            (#[trigger] titled(items)[i]).0,
            titled(items)[i].1,
        ) && titled(items)[i].0 == titled(items)[i].1 by {
            if i < before.len() {
                assert(titled(items)[i] == before[i]);
                assert(occurs_in(before[i].0, before[i].1));
            } else {
                let title = item_title(items.last()).unwrap();
                assert(titled(items)[i] == (title, title));
                assert(title.subrange(0, 0int + title.len()) =~= title);
                assert(occurs_at(title, title, 0));
            }
        }
    }
}

/// The pages that a body links to are named once each, and the filtered page
/// is not among them.
pub proof fn lemma_linked_pages_are_distinct_and_unfiltered(body: BodyView)
    ensures
        body.linked().no_duplicates(),
        !body.linked().contains(identity_of(filtered_page())),
{
    lemma_selected_no_duplicates(body.candidates(), body.filter());
    match body {
        BodyView::WikiText(json) => {
            match wikitext_source(json) {
                Some(source) => {
                    lemma_links_hold_targets(source, 0);
                },
                None => {},
            }
        },
        BodyView::Links(json) => {
            match member_of(links_page(json), "links"@) {
                Some(list) => match list.items() {
                    Some(items) => {
                        lemma_titled_hold_targets(items);
                    },
                    None => {},
                },
                None => {},
            }
        },
    }
    lemma_selected_excludes_filtered(body.candidates(), body.filter());
}

/// Of a links document every title is yielded that is no repeat of an
/// earlier one and is not the title of the filtered page, also one that only
/// holds that title.
pub proof fn lemma_links_title_is_linked(json: Json, at: int)
    requires
        0 <= at < links_candidates(json).len(),
        !seen_before(links_candidates(json), at),
        identity_of(links_candidates(json)[at].1) != identity_of(filtered_page()),
    ensures
        BodyView::Links(json).linked().contains(identity_of(links_candidates(json)[at].1)),
{
    match member_of(links_page(json), "links"@) {
        Some(list) => match list.items() {
            Some(items) => {
                lemma_titled_hold_targets(items);
            },
            None => {},
        },
        None => {},
    }
    let candidates = links_candidates(json);
    assert(candidates[at].0 == candidates[at].1);
    lemma_kept_candidate_is_selected(candidates, LinkFilter::Title, at);
}

/// What is said of a response that was asked for as the page itself.
pub open spec fn no_body_message() -> Seq<char> {
    "Can't deserialize links from the Normal Request Type"@
}

/// The body that `text` holds as the response to a request of the kind
/// `url_type`, or the message of the reader that refuses it. The response to
/// a request for the page itself is no document and is always refused.
pub open spec fn body_of_text(url_type: WikipediaUrlType, text: Seq<char>) -> Result<
    BodyView,
    Seq<char>,
> {
    match url_type {
        WikipediaUrlType::Basic => Err(no_body_message()),
        WikipediaUrlType::RawApi => match parsed_json(text) {
            Ok(json) => Ok(BodyView::WikiText(json)),
            Err(message) => Err(message),
        },
        WikipediaUrlType::LinksApi => match parsed_json(text) {
            Ok(json) => Ok(BodyView::Links(json)),
            Err(message) => Err(message),
        },
    }
}

/// What the outcome of reading a body stands for.
pub open spec fn body_outcome(r: Result<WikipediaBody, DeserialisationError>) -> Result<
    BodyView,
    Seq<char>,
> {
    match r {
        Ok(body) => Ok(body@),
        Err(e) => Err(e.message@),
    }
}

/// What the outcome of reading an identity stands for.
pub open spec fn identity_outcome(r: Result<String, PathinfoParseError>) -> Option<Seq<char>> {
    match r {
        Ok(identity) => Some(identity@),
        Err(_) => None,
    }
}

/// The identities of a list of pages.
pub open spec fn pathinfos(pages: Seq<WikipediaPage>) -> Seq<Seq<char>> {
    Seq::new(pages.len(), |i: int| pages[i]@.pathinfo)
}

/// Whether none of `pages` has a body.
pub open spec fn unloaded(pages: Seq<WikipediaPage>) -> bool {
    forall|i: int| 0 <= i < pages.len() ==> (#[trigger] pages[i])@.body is None
}

fn member<'a>(value: Option<&'a Value>, key: &str) -> (r: Option<&'a Value>)
    ensures
        optional_json(r) == member_of(optional_json(value), key@),
{
    match value {
        Some(v) => json_get(v, key),
        None => None,
    }
}

fn text<'a>(value: Option<&'a Value>) -> (r: Option<&'a str>)
    ensures
        r.deep_view() == text_of(optional_json(value)),
{
    match value {
        Some(v) => json_as_str(v),
        None => None,
    }
}

fn first<'a>(value: Option<&'a Value>) -> (r: Option<&'a Value>)
    ensures
        optional_json(r) == first_of(optional_json(value)),
{
    match value {
        Some(v) => first_member(v),
        None => None,
    }
}

fn page_entry<'a>(data: &'a Value) -> (r: Option<&'a Value>)
    ensures
        optional_json(r) == links_page(json_of(*data)),
{
    first(member(json_get(data, "query"), "pages"))
}

fn identity_string(title: &str) -> (r: String)
    ensures
        r@ == identity_of(title@),
        is_identity(r@),
{
    proof {
        lemma_identity_is_normal(title@);
    }
    string_of(&replace_char(&chars_of(title), ' ', '_'))
}

fn pages_of(identities: Vec<String>) -> (r: Vec<WikipediaPage>)
    requires
        forall|i: int| 0 <= i < identities.len() ==> is_identity(#[trigger] identities[i]@),
    ensures
        pathinfos(r@) == identities.deep_view(),
        unloaded(r@),
{
    let mut pages: Vec<WikipediaPage> = Vec::new();
    let mut i: usize = 0;
    while i < identities.len()
        invariant
            i <= identities.len(),
            pages.len() == i,
            forall|k: int| 0 <= k < identities.len() ==> is_identity(#[trigger] identities[k]@),
            forall|k: int| 0 <= k < i ==> (#[trigger] pages[k])@.pathinfo == identities[k]@,
            unloaded(pages@),
        decreases identities.len() - i,
    {
        pages.push(WikipediaPage { pathinfo: identities[i].clone(), body: None });
        i += 1;
    }
    assert(pathinfos(pages@) =~= identities.deep_view());
    pages
}

impl WikipediaBody {
    /// Reads the response of the wikitext call.
    pub fn wikitext_from_text(text: &str) -> (r: Result<WikipediaBody, DeserialisationError>)
        ensures
            body_outcome(r) == body_of_text(WikipediaUrlType::RawApi, text@),
    {
        match json_parse(text) {
            Ok(value) => Ok(WikipediaBody::WikiText(value)),
            Err(message) => Err(DeserialisationError { message }),
        }
    }

    /// Reads the response of the links call.
    pub fn links_from_text(text: &str) -> (r: Result<WikipediaBody, DeserialisationError>)
        ensures
            body_outcome(r) == body_of_text(WikipediaUrlType::LinksApi, text@),
    {
        match json_parse(text) {
            Ok(value) => Ok(WikipediaBody::Links(value)),
            Err(message) => Err(DeserialisationError { message }),
        }
    }

    /// The body printed as JSON.
    pub fn to_string(self) -> (r: String)
        ensures
            r@ == printed_json(self@.json()),
    {
        match self {
            WikipediaBody::WikiText(value) => json_print(&value),
            WikipediaBody::Links(value) => json_print(&value),
        }
    }

    /// Reads the response to a request of the kind `url_type`. The response to
    /// a request for the page itself is no document and is always refused.
    pub fn from_url_type(url_type: WikipediaUrlType, body: String) -> (r: Result<
        WikipediaBody,
        DeserialisationError,
    >)
        ensures
            body_outcome(r) == body_of_text(url_type, body@),
            url_type == WikipediaUrlType::Basic ==> r is Err,
    {
        match url_type {
            WikipediaUrlType::LinksApi => WikipediaBody::links_from_text(body.as_str()),
            WikipediaUrlType::RawApi => WikipediaBody::wikitext_from_text(body.as_str()),
            WikipediaUrlType::Basic => Err(
                DeserialisationError {
                    message: "Can't deserialize links from the Normal Request Type".to_owned(),
                },
            ),
        }
    }

    /// The identity of the page that the body says it belongs to.
    pub fn get_pathinfo(&self) -> (r: Result<String, PathinfoParseError>)
        ensures
            identity_outcome(r) == self@.identity(),
    {
        match self {
            WikipediaBody::WikiText(value) => WikipediaBody::get_pathinfo_from_wikitext(value),
            WikipediaBody::Links(value) => WikipediaBody::get_pathinfo_from_links(value),
        }
    }

    /// The identity that a links document gives its page: the title of the
    /// first entry of `query.pages`, spaces as underscores.
    pub fn get_pathinfo_from_links(data: &Value) -> (r: Result<String, PathinfoParseError>)
        ensures
            identity_outcome(r) == BodyView::Links(json_of(*data)).identity(),
    {
        match text(member(page_entry(data), "title")) {
            Some(title) => Ok(identity_string(title)),
            None => Err(PathinfoParseError),
        }
    }

    /// The identity that a wikitext document gives its page: `parse.title`,
    /// spaces as underscores.
    pub fn get_pathinfo_from_wikitext(data: &Value) -> (r: Result<String, PathinfoParseError>)
        ensures
            identity_outcome(r) == BodyView::WikiText(json_of(*data)).identity(),
    {
        match text(member(json_get(data, "parse"), "title")) {
            Some(title) => Ok(identity_string(title)),
            None => Err(PathinfoParseError),
        }
    }

    /// The pages that the body links to, without their bodies: each once, in
    /// the order of its first mention, the filtered page left out.
    pub fn get_linked_pages(&self) -> (r: Vec<WikipediaPage>)
        ensures
            pathinfos(r@) == self@.linked(),
            unloaded(r@),
    {
        match self {
            WikipediaBody::WikiText(value) => WikipediaBody::get_linked_pages_from_wikitext(value),
            WikipediaBody::Links(value) => WikipediaBody::get_linked_pages_from_links(value),
        }
    }

    /// The pages that a links document links to: the titles listed, each
    /// once, in the order of its first mention, but for the title of the
    /// filtered page.
    pub fn get_linked_pages_from_links(value: &Value) -> (r: Vec<WikipediaPage>)
        ensures
            pathinfos(r@) == selected(links_candidates(json_of(*value)), LinkFilter::Title),
            unloaded(r@),
    {
        let mut candidates: Vec<(String, String)> = Vec::new();
        match member(page_entry(value), "links") {
            Some(list) => match json_as_array(list) {
                Some(items) => {
                    let mut i: usize = 0;
                    while i < items.len()
                        invariant
                            i <= items.len(),
                            candidates.deep_view() == titled(jsons_of(items@).subrange(0, i as int)),
                        decreases items.len() - i,
                    {
                        let ghost before = candidates.deep_view();
                        proof {
                            assert(jsons_of(items@).subrange(0, i + 1).drop_last() =~= jsons_of(
                                items@,
                            ).subrange(0, i as int));
                        }
                        match text(json_get(&items[i], "title")) {
                            Some(title) => {
                                candidates.push((title.to_owned(), title.to_owned()));
                                assert(candidates.deep_view() =~= before.push((title@, title@)));
                            },
                            None => {},
                        }
                        i += 1;
                    }
                    assert(jsons_of(items@).subrange(0, items.len() as int) =~= jsons_of(items@));
                },
                None => {},
            },
            None => {},
        }
        pages_of(select_links(&candidates, LinkFilter::Title))
    }

    /// The pages that a wikitext document links to: the targets of the links
    /// found, each once, in the order of its first mention, but for those
    /// whose markup names the filtered page.
    pub fn get_linked_pages_from_wikitext(value: &Value) -> (r: Vec<WikipediaPage>)
        ensures
            pathinfos(r@) == selected(wikitext_candidates(json_of(*value)), LinkFilter::Markup),
            unloaded(r@),
    {
        let candidates = match text(first(member(json_get(value, "parse"), "wikitext"))) {
            Some(source) => scan_links(source),
            None => Vec::new(),
        };
        pages_of(select_links(&candidates, LinkFilter::Markup))
    }
}

/// A page of Wikipedia: what identifies it and, once loaded, its content.
#[derive(Debug)]
pub struct WikipediaPage {
    pathinfo: String,
    body: Option<WikipediaBody>,
}

impl Clone for WikipediaPage {
    /// A copy of the page.
    fn clone(&self) -> (r: Self)
        ensures
            r@ == self@,
    {
        proof {
            use_type_invariant(self);
        }
        WikipediaPage { pathinfo: self.pathinfo.clone(), body: self.try_get_page_body() }
    }
}

/// What a page holds.
pub ghost struct PageView {
    /// The page's identity: the part of its address behind `/wiki/`.
    pub pathinfo: Seq<char>,
    /// The page's content, if it is loaded.
    pub body: Option<BodyView>,
}

impl View for WikipediaPage {
    type V = PageView;

    closed spec fn view(&self) -> PageView {
        PageView {
            pathinfo: self.pathinfo@,
            body: match self.body {
                Some(body) => Some(body@),
                None => None,
            },
        }
    }
}

/// The address from which paths to pages are read.
pub open spec fn wiki_root() -> Seq<char> {
    "https://wikipedia.org/wiki/"@
}

/// The identity of the page that `path` leads to, read against the root of
/// the wiki: the last segment of the joined address.
pub open spec fn page_of_path(path: Seq<char>) -> Result<Seq<char>, UrlFault> {
    match parsed_url(wiki_root()) {
        Err(message) => Err(UrlFault::Url(message)),
        Ok(root) => match joined_url(root, path) {
            Err(message) => Err(UrlFault::Url(message)),
            Ok(joined) => match url_fault(joined) {
                Some(fault) => Err(fault),
                None => match url_path_segments(joined) {
                    Some(segments) => if segments.len() > 0 {
                        Ok(identity_of(segments.last()))
                    } else {
                        Err(UrlFault::Path)
                    },
                    None => Err(UrlFault::Path),
                },
            },
        }
    }
}

/// The identity of the page at the address written `url`: what leads to it
/// from `/wiki/` under the same origin.
pub open spec fn page_of_url(url: Seq<char>) -> Result<Seq<char>, UrlFault> {
    match url_fault(url) {
        Some(fault) => Err(fault),
        None => match url_origin(url) {
            None => Err(UrlFault::Path),
            Some(origin) => match parsed_url(origin) {
                Err(message) => Err(UrlFault::Url(message)),
                Ok(root) => match with_path_of(root, "/wiki/"@) {
                    None => Err(UrlFault::Path),
                    Some(base) => match url_relative(base, url) {
                        None => Err(UrlFault::Path),
                        Some(relative) => Ok(identity_of(relative)),
                    },
                },
            },
        }
    }
}

/// What the outcome of making a page stands for.
pub open spec fn page_outcome(r: Result<WikipediaPage, WikipediaUrlError>) -> Result<
    Seq<char>,
    UrlFault,
> {
    match r {
        Ok(page) => Ok(page@.pathinfo),
        Err(e) => Err(e@),
    }
}

/// The title of the page with the identity `pathinfo`: underscores read as
/// spaces, percent escapes resolved, each word begun in upper case.
pub open spec fn title_of(pathinfo: Seq<char>) -> Seq<char> {
    capitalized(percent_decoded(replaced(pathinfo, '_', ' ')))
}

impl WikipediaPage {
    /// What holds of every page: its identity is written without a space.
    #[verifier::type_invariant]
    spec fn has_identity(self) -> bool {
        is_identity(self.pathinfo@)
    }

    /// Gives the page the body `data`. Where the body names its page, the page
    /// takes that identity; otherwise it keeps its own. The page is handed
    /// back for more to be done with it.
    pub fn set_page_body(&mut self, data: WikipediaBody) -> (r: &mut Self)
        ensures
            (*r)@.body == Some(data@),
            (*r)@.pathinfo == match data@.identity() {
                Some(identity) => identity,
                None => old(self)@.pathinfo,
            },
            *final(self) == *final(r),
    {
        proof {
            use_type_invariant(&*self);
        }
        let pathinfo_new = data.get_pathinfo();
        self.body = Some(data);
        match pathinfo_new {
            Ok(pathinfo) => {
                self.pathinfo = pathinfo;
            },
            Err(_) => {},
        }
        self
    }

    /// The page with `body` in place of its own; its identity stays.
    pub fn with_body(self, body: WikipediaBody) -> (r: Self)
        ensures
            r@.pathinfo == self@.pathinfo,
            r@.body == Some(body@),
    {
        proof {
            use_type_invariant(&self);
        }
        WikipediaPage { pathinfo: self.pathinfo, body: Some(body) }
    }

    /// Whether the page's content is loaded.
    pub fn is_page_text_loaded(&self) -> (r: bool)
        ensures
            r == self@.body is Some,
    {
        self.body.is_some()
    }

    /// The page's identity, written without a space.
    pub fn pathinfo(&self) -> (r: &String)
        ensures
            r@ == self@.pathinfo,
            is_identity(r@),
    {
        proof {
            use_type_invariant(self);
        }
        &self.pathinfo
    }

    /// The address of the page in the edition of `language`.
    pub fn url_with_lang(&self, language: WikiLanguage) -> (r: Result<
        PageUrl,
        LanguageInvalidError,
    >)
        requires
            WikipediaUrlType::Basic.resolved(language.code(), self@.pathinfo) is Some,
        ensures
            r is Ok,
            Some(r.unwrap()@) == WikipediaUrlType::Basic.resolved(language.code(), self@.pathinfo),
            names_language(r.unwrap()@, language),
    {
        WikipediaUrlType::Basic.url_with(language, &self.pathinfo)
    }

    /// The address of the page as `url_with_lang` gives it, or `None` where no
    /// address can be formed from the page's identity.
    pub fn try_url_with_lang(&self, language: WikiLanguage) -> (r: Option<PageUrl>)
        ensures
            r is Some == WikipediaUrlType::Basic.resolved(language.code(), self@.pathinfo) is Some,
            r matches Some(url) ==> Some(url@) == WikipediaUrlType::Basic.resolved(
                language.code(),
                self@.pathinfo,
            ) && names_language(url@, language),
    {
        match WikipediaUrlType::Basic.try_url_with(language, &self.pathinfo) {
            Some(_) => match self.url_with_lang(language) {
                Ok(url) => Some(url),
                Err(_) => None,
            },
            None => None,
        }
    }

    /// The page with the title `title`, not loaded. Its identity is the title
    /// with underscores for spaces.
    pub fn from_title(title: &str) -> (r: Self)
        ensures
            r@.pathinfo == identity_of(title@),
            r@.body is None,
    {
        WikipediaPage { pathinfo: identity_string(title), body: None }
    }

    /// The page that `path` leads to, such as `/wiki/Waffle`, not loaded.
    pub fn try_from_path(path: &str) -> (r: Result<Self, WikipediaUrlError>)
        ensures
            page_outcome(r) == page_of_path(path@),
            r matches Ok(page) ==> page@.body is None,
    {
        let root = match PageUrl::parse("https://wikipedia.org/wiki/") {
            Ok(root) => root,
            Err(e) => {
                return Err(e);
            },
        };
        let joined = match root.join(path) {
            Ok(joined) => joined,
            Err(e) => {
                return Err(e);
            },
        };
        match verify_url(&joined) {
            Ok(_) => {},
            Err(e) => {
                return Err(e);
            },
        }
        match joined.path_segments() {
            Some(segments) => {
                if segments.len() > 0 {
                    Ok(WikipediaPage::from_title(segments[segments.len() - 1].as_str()))
                } else {
                    Err(WikipediaUrlError::InvalidPath)
                }
            },
            None => Err(WikipediaUrlError::InvalidPath),
        }
    }

    /// The page at the address `url`, such as
    /// `https://wikipedia.org/wiki/Waffle`, not loaded.
    pub fn try_from_url(url: PageUrl) -> (r: Result<Self, WikipediaUrlError>)
        ensures
            page_outcome(r) == page_of_url(url@),
            r matches Ok(page) ==> page@.body is None,
    {
        match verify_url(&url) {
            Ok(_) => {},
            Err(e) => {
                return Err(e);
            },
        }
        let origin = match url.origin_ascii() {
            Some(origin) => origin,
            None => {
                return Err(WikipediaUrlError::InvalidPath);
            },
        };
        let root = match PageUrl::parse(origin.as_str()) {
            Ok(root) => root,
            Err(e) => {
                return Err(e);
            },
        };
        let base = match root.with_path("/wiki/") {
            Some(base) => base,
            None => {
                return Err(WikipediaUrlError::InvalidPath);
            },
        };
        match base.make_relative(&url) {
            Some(relative) => Ok(WikipediaPage::from_title(relative.as_str())),
            None => Err(WikipediaUrlError::InvalidPath),
        }
    }

    /// The page's body, if it is loaded.
    pub fn try_get_body(&self) -> (r: &Option<WikipediaBody>)
        ensures
            r is Some == self@.body is Some,
            r matches Some(body) ==> self@.body == Some(body@),
    {
        &self.body
    }

    /// Drops the page's body; its identity stays. The page is handed back for
    /// more to be done with it.
    pub fn unload_body(&mut self) -> (r: &mut Self)
        ensures
            (*r)@.pathinfo == old(self)@.pathinfo,
            (*r)@.body is None,
            *final(self) == *final(r),
    {
        proof {
            use_type_invariant(&*self);
        }
        self.body = None;
        self
    }

    /// A copy of the page's body, if it is loaded.
    pub fn try_get_page_body(&self) -> (r: Option<WikipediaBody>)
        ensures
            r is Some == self@.body is Some,
            r matches Some(body) ==> self@.body == Some(body@),
    {
        match &self.body {
            Some(body) => Some(body.clone()),
            None => None,
        }
    }

    /// The page's title, as far as its identity tells it.
    pub fn title(&self) -> (r: String)
        ensures
            r@ == title_of(self@.pathinfo),
    {
        let spaced = string_of(&replace_char(&chars_of(self.pathinfo.as_str()), '_', ' '));
        capitalize(percent_decode(spaced.as_str()))
    }

    /// The pages that this page links to, if it is loaded: each once, in the
    /// order of its first mention, none of them loaded.
    pub fn try_get_linked_pages(&self) -> (r: Option<Vec<WikipediaPage>>)
        ensures
            r is Some == self@.body is Some,
            r matches Some(pages) ==> pathinfos(pages@) == self@.body.unwrap().linked()
                && unloaded(pages@),
    {
        match &self.body {
            Some(body) => Some(body.get_linked_pages()),
            None => None,
        }
    }
}

} // verus!
