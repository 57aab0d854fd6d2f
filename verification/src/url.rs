//! Addresses of Wikipedia pages and of the two API calls.
//!
//! The library decides which text is handed to the `url` crate and reads the
//! parts that come back; parsing, joining and escaping are that crate's work.
//! A URL is held as the text that the crate serialized it to, and each of the
//! crate's functions is reached by parsing that text again. What a function
//! returns is named here, one name for each, as a function of the texts that
//! go in.

use crate::language::WikiLanguage;
use crate::text::{chars_of, concat, has_suffix, result_text, same_text};
use vstd::prelude::*;

verus! {

/// What `Url::parse` makes of `input`: the URL's serialization, or the
/// error's message.
pub uninterp spec fn parsed_url(input: Seq<char>) -> Result<Seq<char>, Seq<char>>;

/// What `Url::join` makes of `reference` against the URL written `base`: the
/// serialization of the joined URL, or the message of the error (that of
/// parsing `base`, where `base` is no URL).
pub uninterp spec fn joined_url(base: Seq<char>, reference: Seq<char>) -> Result<
    Seq<char>,
    Seq<char>,
>;

/// The URL written `url` after `Url::set_query` with `query`; `None` where
/// `url` is no URL.
pub uninterp spec fn url_with_query(url: Seq<char>, query: Seq<char>) -> Option<Seq<char>>;

/// The URL written `url` after `Url::set_path` with `path`; `None` where `url`
/// is no URL.
pub uninterp spec fn url_with_path(url: Seq<char>, path: Seq<char>) -> Option<Seq<char>>;

/// `Url::host_str` of the URL written `url`; `None` also where `url` is no URL.
pub uninterp spec fn url_host(url: Seq<char>) -> Option<Seq<char>>;

/// `Url::scheme` of the URL written `url`; `None` where `url` is no URL.
pub uninterp spec fn url_scheme(url: Seq<char>) -> Option<Seq<char>>;

/// The items of `Url::path_segments` of the URL written `url`; `None` also
/// where `url` is no URL.
pub uninterp spec fn url_path_segments(url: Seq<char>) -> Option<Seq<Seq<char>>>;

/// The ASCII serialization of `Url::origin` of the URL written `url`; `None`
/// where `url` is no URL.
pub uninterp spec fn url_origin(url: Seq<char>) -> Option<Seq<char>>;

/// `Url::make_relative` from the URL written `base` to the one written `url`;
/// `None` also where one of the two is no URL.
pub uninterp spec fn url_relative(base: Seq<char>, url: Seq<char>) -> Option<Seq<char>>;

/// How long a URL and a part that is set into it may each be, in characters.
/// The `url` crate counts the bytes of a URL in 32 bits; within this limit the
/// count cannot run over, however the part is escaped.
pub const URL_LIMIT: usize = 0x800_0000;

/// Whether `url` and `part` are short enough for `part` to be set into `url`.
pub open spec fn within_limit(url: Seq<char>, part: Seq<char>) -> bool {
    url.len() <= URL_LIMIT && part.len() <= URL_LIMIT
}

/// The URL written `url` with the query `query`, where the two are within the
/// limit and `url` is a URL.
pub open spec fn with_query_of(url: Seq<char>, query: Seq<char>) -> Option<Seq<char>> {
    if within_limit(url, query) {
        url_with_query(url, query)
    } else {
        None
    }
}

/// The URL written `url` with the path `path`, where the two are within the
/// limit and `url` is a URL.
pub open spec fn with_path_of(url: Seq<char>, path: Seq<char>) -> Option<Seq<char>> {
    if within_limit(url, path) {
        url_with_path(url, path)
    } else {
        None
    }
}

/// `Url::parse`, with the URL handed back as its serialization and the error
/// as its message. The contract names the outcome.
#[verifier::external_body]
fn url_parse(input: &str) -> (r: Result<String, String>)
    ensures
        result_text(r) == parsed_url(input@),
{
    match ::url::Url::parse(input) {
        Ok(u) => Ok(String::from(u)),
        Err(e) => Err(e.to_string()),
    }
}

/// `Url::join` on the URL written `base`. The contract names the outcome.
#[verifier::external_body]
fn url_join(base: &str, reference: &str) -> (r: Result<String, String>)
    ensures
        result_text(r) == joined_url(base@, reference@),
{
    match ::url::Url::parse(base) {
        Ok(b) => match b.join(reference) {
            Ok(u) => Ok(String::from(u)),
            Err(e) => Err(e.to_string()),
        },
        Err(e) => Err(e.to_string()),
    }
}

/// `Url::set_query` on the URL written `url`, for texts within the limit. The
/// contract names the outcome.
#[verifier::external_body]
fn url_set_query(url: &str, query: &str) -> (r: Option<String>)
    requires
        within_limit(url@, query@),
    ensures
        r.deep_view() == url_with_query(url@, query@),
{
    match ::url::Url::parse(url) {
        Ok(mut u) => {
            u.set_query(Some(query));
            Some(String::from(u))
        },
        Err(_) => None,
    }
}

/// `Url::set_path` on the URL written `url`, for texts within the limit. The
/// contract names the outcome.
#[verifier::external_body]
fn url_set_path(url: &str, path: &str) -> (r: Option<String>)
    requires
        within_limit(url@, path@),
    ensures
        r.deep_view() == url_with_path(url@, path@),
{
    match ::url::Url::parse(url) {
        Ok(mut u) => {
            u.set_path(path);
            Some(String::from(u))
        },
        Err(_) => None,
    }
}

/// `Url::host_str` of the URL written `url`. The contract names the answer.
#[verifier::external_body]
fn url_host_str(url: &str) -> (r: Option<String>)
    ensures
        r.deep_view() == url_host(url@),
{
    match ::url::Url::parse(url) {
        Ok(u) => u.host_str().map(String::from),
        Err(_) => None,
    }
}

/// `Url::scheme` of the URL written `url`. The contract names the answer.
#[verifier::external_body]
fn url_scheme_str(url: &str) -> (r: Option<String>)
    ensures
        r.deep_view() == url_scheme(url@),
{
    match ::url::Url::parse(url) {
        Ok(u) => Some(String::from(u.scheme())),
        Err(_) => None,
    }
}

/// `Url::path_segments` of the URL written `url`, collected. The contract
/// names the answer.
#[verifier::external_body]
fn url_segments(url: &str) -> (r: Option<Vec<String>>)
    ensures
        r.deep_view() == url_path_segments(url@),
{
    match ::url::Url::parse(url) {
        Ok(u) => u.path_segments().map(|segments| segments.map(String::from).collect()),
        Err(_) => None,
    }
}

/// `Url::origin` of the URL written `url`, in its ASCII serialization. The
/// contract names the answer.
#[verifier::external_body]
fn url_origin_ascii(url: &str) -> (r: Option<String>)
    ensures
        r.deep_view() == url_origin(url@),
{
    match ::url::Url::parse(url) {
        Ok(u) => Some(u.origin().ascii_serialization()),
        Err(_) => None,
    }
}

/// `Url::make_relative` from the URL written `base` to the one written `url`.
/// The contract names the answer.
#[verifier::external_body]
fn url_make_relative(base: &str, url: &str) -> (r: Option<String>)
    ensures
        r.deep_view() == url_relative(base@, url@),
{
    match (::url::Url::parse(base), ::url::Url::parse(url)) {
        (Ok(b), Ok(u)) => b.make_relative(&u),
        _ => None,
    }
}

fn fits(url: &str, part: &str) -> (r: bool)
    ensures
        r == within_limit(url@, part@),
{
    url.unicode_len() <= URL_LIMIT && part.unicode_len() <= URL_LIMIT
}

/// A URL, held as the text that the `url` crate serialized it to.
#[derive(Debug)]
pub struct PageUrl {
    text: String,
}

impl Clone for PageUrl {
    /// A copy of the URL.
    fn clone(&self) -> (r: Self)
        ensures
            r@ == self@,
    {
        PageUrl { text: self.text.clone() }
    }
}

impl View for PageUrl {
    type V = Seq<char>;

    closed spec fn view(&self) -> Seq<char> {
        self.text@
    }
}

/// A language for which no address can be given.
#[derive(Clone, Copy, Debug, PartialEq, Eq, Structural)]
pub struct LanguageInvalidError;

/// Why a URL or a path does not name a Wikipedia page.
#[derive(Debug)]
pub enum WikipediaUrlError {
    /// The host is not under `wikipedia.org`, or the scheme is not HTTP(S).
    InvalidHost,
    /// The path does not lead into `/wiki/`.
    InvalidPath,
    /// The text is no URL; the message is that of the `url` crate.
    InvalidURL(String),
}

/// What a `WikipediaUrlError` says.
pub ghost enum UrlFault {
    Host,
    Path,
    Url(Seq<char>),
}

impl View for WikipediaUrlError {
    type V = UrlFault;

    open spec fn view(&self) -> UrlFault {
        match self {
            WikipediaUrlError::InvalidHost => UrlFault::Host,
            WikipediaUrlError::InvalidPath => UrlFault::Path,
            WikipediaUrlError::InvalidURL(message) => UrlFault::Url(message@),
        }
    }
}

/// The three kinds of request that the library knows an address for.
#[derive(Clone, Copy, Debug, PartialEq, Eq, Structural)]
pub enum WikipediaUrlType {
    /// The page as readers see it.
    Basic,
    /// The API call that returns the page's wikitext.
    RawApi,
    /// The API call that returns the page's links.
    LinksApi,
}

/// What keeps the URL written `url` from naming a Wikipedia page: its host
/// or scheme, else its path; `None` where it names one.
pub open spec fn url_fault(url: Seq<char>) -> Option<UrlFault> {
    let host = match url_host(url) {
        Some(h) => h,
        None => Seq::<char>::empty(),
    };
    let scheme_fits = url_scheme(url) == Some("http"@) || url_scheme(url) == Some("https"@);
    if !"wikipedia.org"@.is_suffix_of(host) || !scheme_fits {
        Some(UrlFault::Host)
    } else {
        match url_path_segments(url) {
            Some(segments) => if segments.len() > 0 && segments[0] == "wiki"@ {
                None
            } else {
                Some(UrlFault::Path)
            },
            None => Some(UrlFault::Path),
        }
    }
}

/// What the outcome of `PageUrl::parse` stands for.
pub open spec fn parse_view(r: Result<PageUrl, WikipediaUrlError>) -> Result<Seq<char>, Seq<char>> {
    match r {
        Ok(url) => Ok(url@),
        Err(WikipediaUrlError::InvalidURL(message)) => Err(message@),
        Err(_) => Err(Seq::empty()),
    }
}

impl PageUrl {
    /// Parses `input` as a URL.
    pub fn parse(input: &str) -> (r: Result<PageUrl, WikipediaUrlError>)
        ensures
            parse_view(r) == parsed_url(input@),
            r is Err ==> r->Err_0 is InvalidURL,
    {
        match url_parse(input) {
            Ok(text) => Ok(PageUrl { text }),
            Err(message) => Err(WikipediaUrlError::InvalidURL(message)),
        }
    }

    /// The URL as text.
    pub fn as_str(&self) -> (r: &str)
        ensures
            r@ == self@,
    {
        self.text.as_str()
    }

    /// The host of the URL, if it has one.
    pub fn host_str(&self) -> (r: Option<String>)
        ensures
            r.deep_view() == url_host(self@),
    {
        url_host_str(self.text.as_str())
    }

    /// The scheme of the URL.
    pub fn scheme(&self) -> (r: Option<String>)
        ensures
            r.deep_view() == url_scheme(self@),
    {
        url_scheme_str(self.text.as_str())
    }

    /// The URL that `reference` names when it is read against this one.
    pub fn join(&self, reference: &str) -> (r: Result<PageUrl, WikipediaUrlError>)
        ensures
            parse_view(r) == joined_url(self@, reference@),
            r is Err ==> r->Err_0 is InvalidURL,
    {
        match url_join(self.text.as_str(), reference) {
            Ok(text) => Ok(PageUrl { text }),
            Err(message) => Err(WikipediaUrlError::InvalidURL(message)),
        }
    }

    /// The URL with its query replaced by `query`; `None` where this is no URL
    /// or the two are beyond the limit.
    pub fn with_query(&self, query: &str) -> (r: Option<PageUrl>)
        ensures
            r is Some == with_query_of(self@, query@) is Some,
            r matches Some(url) ==> Some(url@) == with_query_of(self@, query@),
    {
        if !fits(self.text.as_str(), query) {
            return None;
        }
        match url_set_query(self.text.as_str(), query) {
            Some(text) => Some(PageUrl { text }),
            None => None,
        }
    }

    /// The URL as text, given away.
    pub fn into_string(self) -> (r: String)
        ensures
            r@ == self@,
    {
        self.text
    }

    /// The URL with its path replaced by `path`; `None` where this is no URL
    /// or the two are beyond the limit.
    pub fn with_path(&self, path: &str) -> (r: Option<PageUrl>)
        ensures
            r is Some == with_path_of(self@, path@) is Some,
            r matches Some(url) ==> Some(url@) == with_path_of(self@, path@),
    {
        if !fits(self.text.as_str(), path) {
            return None;
        }
        match url_set_path(self.text.as_str(), path) {
            Some(text) => Some(PageUrl { text }),
            None => None,
        }
    }

    /// The origin of the URL, in its ASCII serialization; `None` where this is
    /// no URL.
    pub fn origin_ascii(&self) -> (r: Option<String>)
        ensures
            r.deep_view() == url_origin(self@),
    {
        url_origin_ascii(self.text.as_str())
    }

    /// The reference that leads from this URL to `url`, if there is one.
    pub fn make_relative(&self, url: &PageUrl) -> (r: Option<String>)
        ensures
            r.deep_view() == url_relative(self@, url@),
    {
        url_make_relative(self.text.as_str(), url.text.as_str())
    }

    /// The segments of the URL's path, if it has a path of segments.
    pub fn path_segments(&self) -> (r: Option<Vec<String>>)
        ensures
            r.deep_view() == url_path_segments(self@),
    {
        url_segments(self.text.as_str())
    }
}

/// Checks that `url` names a page of Wikipedia: an HTTP(S) URL whose host ends
/// with `wikipedia.org` and whose path begins with `wiki`.
pub fn verify_url(url: &PageUrl) -> (r: Result<(), WikipediaUrlError>)
    ensures
        match r {
            Ok(_) => url_fault(url@) is None,
            Err(e) => url_fault(url@) == Some(e@),
        },
{
    let host = match url.host_str() {
        Some(h) => h,
        None => String::new(),
    };
    let host_fits = has_suffix(&chars_of(host.as_str()), &chars_of("wikipedia.org"));
    let scheme_fits = match url.scheme() {
        Some(s) => same_text(s.as_str(), "http") || same_text(s.as_str(), "https"),
        None => false,
    };
    if !host_fits || !scheme_fits {
        return Err(WikipediaUrlError::InvalidHost);
    }
    match url.path_segments() {
        Some(segments) => {
            if segments.len() > 0 && same_text(segments[0].as_str(), "wiki") {
                Ok(())
            } else {
                Err(WikipediaUrlError::InvalidPath)
            }
        },
        None => Err(WikipediaUrlError::InvalidPath),
    }
}

impl WikipediaUrlType {
    /// The text that stands for the root of this kind of request in the
    /// edition with the code `code`.
    pub open spec fn base_text(self, code: Seq<char>) -> Seq<char> {
        match self {
            WikipediaUrlType::Basic => "https://"@ + code + ".wikipedia.org/wiki/"@,
            _ => "https://"@ + code + ".wikipedia.org/w/api.php"@,
        }
    }

    /// The query that asks this kind of API call about `pathinfo`.
    pub open spec fn query_text(self, pathinfo: Seq<char>) -> Seq<char> {
        match self {
            WikipediaUrlType::Basic => Seq::<char>::empty(),
            WikipediaUrlType::RawApi => "origin=*&action=parse&prop=wikitext&format=json&page="@
                + pathinfo,
            WikipediaUrlType::LinksApi =>
                "action=query&format=json&prop=links&pllimit=500&origin=*&titles="@ + pathinfo,
        }
    }

    /// The root of this kind of request as the `url` crate reads it, where it
    /// reads it as an HTTPS address on the host of the edition.
    pub open spec fn base(self, code: Seq<char>) -> Option<Seq<char>> {
        match parsed_url(self.base_text(code)) {
            Ok(url) => kept_on_host(Some(url), code),
            Err(_) => None,
        }
    }

    /// What the `url` crate forms for `pathinfo` and this kind of request: for
    /// a page, what it reads in the root's text followed by `pathinfo`; for an
    /// API call, the root with the query that names `pathinfo`.
    pub open spec fn formed(self, code: Seq<char>, pathinfo: Seq<char>) -> Option<Seq<char>> {
        match self {
            WikipediaUrlType::Basic => match parsed_url(self.base_text(code) + pathinfo) {
                Ok(url) => Some(url),
                Err(_) => None,
            },
            _ => match self.base(code) {
                Some(base) => with_query_of(base, self.query_text(pathinfo)),
                None => None,
            },
        }
    }

    /// The address of `pathinfo` for this kind of request: what the `url`
    /// crate forms, where that is an HTTPS address on the host of the edition.
    pub open spec fn resolved(self, code: Seq<char>, pathinfo: Seq<char>) -> Option<Seq<char>> {
        kept_on_host(self.formed(code, pathinfo), code)
    }

    fn base_string(&self, code: &str) -> (r: String)
        ensures
            r@ == self.base_text(code@),
    {
        let head = concat("https://", code);
        match self {
            WikipediaUrlType::Basic => concat(head.as_str(), ".wikipedia.org/wiki/"),
            _ => concat(head.as_str(), ".wikipedia.org/w/api.php"),
        }
    }

    fn query_string(&self, pathinfo: &str) -> (r: String)
        ensures
            r@ == self.query_text(pathinfo@),
    {
        match self {
            WikipediaUrlType::Basic => String::new(),
            WikipediaUrlType::RawApi => concat(
                "origin=*&action=parse&prop=wikitext&format=json&page=",
                pathinfo,
            ),
            WikipediaUrlType::LinksApi => concat(
                "action=query&format=json&prop=links&pllimit=500&origin=*&titles=",
                pathinfo,
            ),
        }
    }

    /// The root of this kind of request in the edition of `language`, an
    /// HTTPS address on the host of the edition.
    pub fn base_url(&self, language: WikiLanguage) -> (r: Result<PageUrl, LanguageInvalidError>)
        requires
            self.base(language.code()) is Some,
        ensures
            r is Ok,
            Some(r.unwrap()@) == self.base(language.code()),
            names_language(r.unwrap()@, language),
    {
        proof {
            lemma_base_names_host_of_language(*self, language);
        }
        let code = match language.as_code_wiki() {
            Some(code) => code,
            None => {
                return Err(LanguageInvalidError);
            },
        };
        let text = self.base_string(code);
        match url_parse(text.as_str()) {
            Ok(text) => Ok(PageUrl { text }),
            Err(_) => Err(LanguageInvalidError),
        }
    }

    /// The root as `base_url` gives it, or `None` where the `url` crate does
    /// not read the root's text as an HTTPS address on the host of the
    /// edition.
    pub fn try_base_url(&self, language: WikiLanguage) -> (r: Option<PageUrl>)
        ensures
            r is Some == self.base(language.code()) is Some,
            r matches Some(url) ==> Some(url@) == self.base(language.code()) && names_language(
                url@,
                language,
            ),
    {
        let code = match language.as_code_wiki() {
            Some(code) => code,
            None => {
                return None;
            },
        };
        let text = self.base_string(code);
        let usable = match url_parse(text.as_str()) {
            Ok(url) => is_on_host(url.as_str(), code),
            Err(_) => false,
        };
        if usable {
            match self.base_url(language) {
                Ok(url) => Some(url),
                Err(_) => None,
            }
        } else {
            None
        }
    }

    /// The address of `pathinfo` for this kind of request in the edition of
    /// `language`, an HTTPS address on the host of the edition.
    pub fn url_with(&self, language: WikiLanguage, pathinfo: &String) -> (r: Result<
        PageUrl,
        LanguageInvalidError,
    >)
        requires
            self.resolved(language.code(), pathinfo@) is Some,
        ensures
            r is Ok,
            Some(r.unwrap()@) == self.resolved(language.code(), pathinfo@),
            names_language(r.unwrap()@, language),
    {
        proof {
            lemma_base_names_host_of_language(*self, language);
        }
        match self {
            WikipediaUrlType::Basic => {
                let code = match language.as_code_wiki() {
                    Some(code) => code,
                    None => {
                        return Err(LanguageInvalidError);
                    },
                };
                let text = concat(self.base_string(code).as_str(), pathinfo.as_str());
                match url_parse(text.as_str()) {
                    Ok(text) => Ok(PageUrl { text }),
                    Err(_) => Err(LanguageInvalidError),
                }
            },
            _ => {
                let base = match self.base_url(language) {
                    Ok(base) => base,
                    Err(e) => {
                        return Err(e);
                    },
                };
                let query = self.query_string(pathinfo.as_str());
                match url_set_query(base.as_str(), query.as_str()) {
                    Some(text) => Ok(PageUrl { text }),
                    None => Err(LanguageInvalidError),
                }
            },
        }
    }

    /// The address of `pathinfo` as `url_with` gives it, or `None` where the
    /// `url` crate forms none from the two, or none on the host of the
    /// edition.
    pub fn try_url_with(&self, language: WikiLanguage, pathinfo: &String) -> (r: Option<PageUrl>)
        ensures
            r is Some == self.resolved(language.code(), pathinfo@) is Some,
            r matches Some(url) ==> Some(url@) == self.resolved(language.code(), pathinfo@)
                && names_language(url@, language),
    {
        let code = match language.as_code_wiki() {
            Some(code) => code,
            None => {
                return None;
            },
        };
        let formed = match self {
            WikipediaUrlType::Basic => {
                let text = concat(self.base_string(code).as_str(), pathinfo.as_str());
                match url_parse(text.as_str()) {
                    Ok(url) => Some(url),
                    Err(_) => None,
                }
            },
            _ => {
                let base = match self.try_base_url(language) {
                    Some(base) => base,
                    None => {
                        return None;
                    },
                };
                let query = self.query_string(pathinfo.as_str());
                if fits(base.as_str(), query.as_str()) {
                    url_set_query(base.as_str(), query.as_str())
                } else {
                    None
                }
            },
        };
        let usable = match formed {
            Some(url) => is_on_host(url.as_str(), code),
            None => false,
        };
        if usable {
            match self.url_with(language, pathinfo) {
                Ok(url) => Some(url),
                Err(_) => None,
            }
        } else {
            None
        }
    }
}

/// Whether the URL written `url` is an HTTPS address on the host of the
/// edition with the code `code`.
pub open spec fn on_host(url: Seq<char>, code: Seq<char>) -> bool {
    url_scheme(url) == Some("https"@) && url_host(url) == Some(base_host(code))
}

/// Whether the URL written `url` is an HTTPS address whose host begins with
/// the code of `language` and ends with `wikipedia.org`.
pub open spec fn names_language(url: Seq<char>, language: WikiLanguage) -> bool {
    &&& url_scheme(url) == Some("https"@)
    &&& url_host(url) is Some
    &&& language.code().is_prefix_of(url_host(url).unwrap())
    &&& "wikipedia.org"@.is_suffix_of(url_host(url).unwrap())
}

/// `url`, where it is an HTTPS address on the host of the edition with the
/// code `code`.
pub open spec fn kept_on_host(url: Option<Seq<char>>, code: Seq<char>) -> Option<Seq<char>> {
    match url {
        Some(address) => if on_host(address, code) {
            Some(address)
        } else {
            None
        },
        None => None,
    }
}

fn is_on_host(url: &str, code: &str) -> (r: bool)
    ensures
        r == on_host(url@, code@),
{
    let scheme_fits = match url_scheme_str(url) {
        Some(scheme) => same_text(scheme.as_str(), "https"),
        None => false,
    };
    let host_fits = match url_host_str(url) {
        Some(host) => same_text(host.as_str(), concat(code, ".wikipedia.org").as_str()),
        None => false,
    };
    scheme_fits && host_fits
}

/// Every address that the library resolves is an HTTPS address whose host
/// begins with the code of the language and ends with `wikipedia.org`; so is
/// every root.
pub proof fn lemma_resolved_host_is_of_language(
    kind: WikipediaUrlType,
    language: WikiLanguage,
    pathinfo: Seq<char>,
    url: Seq<char>,
)
    requires
        kind.resolved(language.code(), pathinfo) == Some(url) || kind.base(language.code())
            == Some(url),
    ensures
        names_language(url, language),
{
    lemma_base_names_host_of_language(kind, language);
}

/// The host that the root of a request names in the edition with the code
/// `code`.
pub open spec fn base_host(code: Seq<char>) -> Seq<char> {
    code + ".wikipedia.org"@
}

/// The path that the root of a request of the kind `kind` names.
pub open spec fn base_path(kind: WikipediaUrlType) -> Seq<char> {
    match kind {
        WikipediaUrlType::Basic => "/wiki/"@,
        _ => "/w/api.php"@,
    }
}

/// For every language of the table, the root that is handed to the `url`
/// crate reads `https://`, then a host, then a path. The host holds no sign
/// that would end it early, begins with the language's code and ends with
/// `wikipedia.org`.
pub proof fn lemma_base_names_host_of_language(kind: WikipediaUrlType, language: WikiLanguage)
    ensures
        kind.base_text(language.code()) == "https://"@ + base_host(language.code()) + base_path(
            kind,
        ),
        base_path(kind).len() > 0 && base_path(kind)[0] == '/',
        forall|i: int|
            0 <= i < base_host(language.code()).len() ==> {
                let c = #[trigger] base_host(language.code())[i];
                ('a' <= c && c <= 'z') || c == '.'
            },
        language.code().is_prefix_of(base_host(language.code())),
        "wikipedia.org"@.is_suffix_of(base_host(language.code())),
{
    let code = language.code();
    crate::language::lemma_code_is_two_letters(language);
    reveal_strlit("https://");
    reveal_strlit(".wikipedia.org");
    reveal_strlit("wikipedia.org");
    reveal_strlit(".wikipedia.org/wiki/");
    reveal_strlit(".wikipedia.org/w/api.php");
    reveal_strlit("/wiki/");
    reveal_strlit("/w/api.php");
    assert(".wikipedia.org/wiki/"@ =~= ".wikipedia.org"@ + "/wiki/"@);
    assert(".wikipedia.org/w/api.php"@ =~= ".wikipedia.org"@ + "/w/api.php"@);
    assert(kind.base_text(code) =~= "https://"@ + base_host(code) + base_path(kind));
    assert(base_host(code).subrange(0, code.len() as int) =~= code);
    assert(base_host(code).subrange(
        base_host(code).len() - "wikipedia.org"@.len(),
        base_host(code).len() as int,
    ) =~= "wikipedia.org"@);
    assert forall|i: int| 0 <= i < base_host(code).len() implies {
        let c = #[trigger] base_host(code)[i];
        ('a' <= c && c <= 'z') || c == '.'
    } by {
        if i < code.len() {
            assert(base_host(code)[i] == code[i]);
        } else {
            assert(base_host(code)[i] == ".wikipedia.org"@[i - code.len()]);
        }
    }
}

/// The query of every API call names `origin=*`, whatever the page.
pub proof fn lemma_api_query_names_origin(kind: WikipediaUrlType, pathinfo: Seq<char>)
    requires
        kind != WikipediaUrlType::Basic,
    ensures
        crate::text::occurs_in(kind.query_text(pathinfo), "origin=*"@),
{
    reveal_strlit("origin=*");
    reveal_strlit("origin=*&action=parse&prop=wikitext&format=json&page=");
    reveal_strlit("action=query&format=json&prop=links&pllimit=500&origin=*&titles=");
    let query = kind.query_text(pathinfo);
    let at: int = match kind {
        WikipediaUrlType::RawApi => 0,
        _ => 48,
    };
    assert(query.subrange(at, at + "origin=*"@.len()) =~= "origin=*"@);
    assert(crate::text::occurs_at(query, "origin=*"@, at));
}

} // verus!
