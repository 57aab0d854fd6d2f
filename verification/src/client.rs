//! The client: which request a page takes, and what a finished fetch means.
//!
//! Nothing is sent from here. A request is described, with the fetch that
//! judges what comes back; whoever holds the transport runs it and hands the
//! outcome in again to be read.

use crate::config::{
    default_headers, header_entries, header_map_pairs, header_single, lists_headers,
    printable_headers, WikipediaClientConfig, DEFAULT_TIMEOUT_MILLIS,
};
use crate::fetch::{FetchState, FetchView, HttpError, HttpFault, CLIENT_REDIRECTS};
use crate::json::{json_as_array, json_as_str, json_get, json_parse, parsed_json, Json};
use crate::language::WikiLanguage;
use crate::links::identity_of;
use crate::page::{body_of_text, member_of, text_of, BodyView, WikipediaBody, WikipediaPage};
use crate::url::{with_query_of, PageUrl, WikipediaUrlType};
use http::{HeaderMap, HeaderValue};
use vstd::prelude::*;

verus! {

/// A client for one edition of Wikipedia.
pub struct WikipediaClient {
    language: WikiLanguage,
    headers: HeaderMap<HeaderValue>,
    url_type: WikipediaUrlType,
    timeout_millis: Option<u64>,
}

/// What a client holds.
pub ghost struct ClientView {
    /// The edition that requests go to.
    pub language: WikiLanguage,
    /// The headers that each request carries, by name.
    pub headers: Map<Seq<char>, Seq<char>>,
    /// The kind of request that `get` makes.
    pub url_type: WikipediaUrlType,
    /// How long a response is waited for, in milliseconds; `None` for ever.
    pub timeout_millis: Option<u64>,
}

/// A request: the address and the headers to send.
#[derive(Debug)]
pub struct PageRequest {
    /// The address.
    pub url: String,
    /// The headers, each as name and value.
    pub headers: Vec<(String, String)>,
}

/// A request together with the fetch that judges what comes back for it.
#[derive(Debug)]
pub struct PendingFetch {
    /// The fetch, at its start.
    pub state: FetchState,
    /// The first request of the fetch.
    pub request: PageRequest,
}

/// The query that asks for one random page.
pub open spec fn random_query() -> Seq<char> {
    "action=query&format=json&list=random&rnnamespace=0&rnlimit=1&origin=*"@
}

/// The address that is asked to see whether Wikipedia answers at all.
pub open spec fn api_base() -> Seq<char> {
    "https://en.wikipedia.org/w/api.php?origin=*"@
}

/// The title that the response to the random-page call names: the title of
/// the first entry of `query.random`.
pub open spec fn random_title(json: Json) -> Option<Seq<char>> {
    match member_of(json.member("query"@), "random"@) {
        Some(list) => match list.items() {
            Some(items) => if items.len() > 0 {
                text_of(items[0].member("title"@))
            } else {
                None
            },
            None => None,
        },
        None => None,
    }
}

/// What a finished fetch of the random-page call means: the page named, or
/// why there is none.
pub open spec fn random_page_outcome(outcome: Result<Seq<char>, HttpFault>) -> Result<
    Seq<char>,
    HttpFault,
> {
    match outcome {
        Err(fault) => Err(fault),
        Ok(text) => match parsed_json(text) {
            Err(message) => Err(HttpFault::DeserialisationError(message)),
            Ok(json) => match random_title(json) {
                Some(title) => Ok(identity_of(title)),
                None => Err(HttpFault::NoPageBody),
            },
        },
    }
}

/// What a finished fetch for a request of the kind `url_type` means: the body
/// that the text holds, the failure of the fetch, or the message of the reader
/// that refused the text. The page as readers see it is always refused.
pub open spec fn body_of_outcome(
    url_type: WikipediaUrlType,
    outcome: Result<Seq<char>, HttpFault>,
) -> Result<BodyView, HttpFault> {
    match outcome {
        Err(fault) => Err(fault),
        Ok(text) => match body_of_text(url_type, text) {
            Ok(body) => Ok(body),
            Err(message) => Err(HttpFault::DeserialisationError(message)),
        },
    }
}

/// What a body or the reason for its absence stands for.
pub open spec fn fetched_body(r: Result<WikipediaBody, HttpError>) -> Result<BodyView, HttpFault> {
    match r {
        Ok(body) => Ok(body@),
        Err(e) => Err(e@),
    }
}

/// What the outcome of a fetch stands for.
pub open spec fn text_outcome(outcome: Result<String, HttpError>) -> Result<Seq<char>, HttpFault> {
    match outcome {
        Ok(text) => Ok(text@),
        Err(e) => Err(e@),
    }
}

/// What a page or the reason for its absence stands for.
pub open spec fn fetched_page(r: Result<WikipediaPage, HttpError>) -> Result<Seq<char>, HttpFault> {
    match r {
        Ok(page) => Ok(page@.pathinfo),
        Err(e) => Err(e@),
    }
}

impl WikipediaClient {
    /// What the client holds.
    pub closed spec fn view(&self) -> ClientView {
        ClientView {
            language: self.language,
            headers: header_entries(self.headers),
            url_type: self.url_type,
            timeout_millis: self.timeout_millis,
        }
    }

    /// What holds of every client: its headers have one value each, and each
    /// value can be sent as it is written.
    #[verifier::type_invariant]
    spec fn has_sendable_headers(self) -> bool {
        &&& header_single(self.headers)
        &&& printable_headers(header_entries(self.headers))
    }

    /// The client that `config` describes.
    pub fn from_config(config: WikipediaClientConfig) -> (r: Self)
        ensures
            r@ == (ClientView {
                language: config@.language,
                headers: config@.headers,
                url_type: config@.url_type,
                timeout_millis: config@.timeout_millis,
            }),
    {
        WikipediaClient {
            language: config.get_language(),
            headers: config.clone_headers(),
            url_type: config.get_url_type(),
            timeout_millis: config.get_timeout(),
        }
    }

    /// The edition that requests go to.
    pub fn language(&self) -> (r: WikiLanguage)
        ensures
            r == self@.language,
    {
        self.language
    }

    /// The headers that each request carries.
    pub fn headers(&self) -> (r: &HeaderMap<HeaderValue>)
        ensures
            header_entries(*r) == self@.headers,
    {
        &self.headers
    }

    fn copy_headers(&self) -> (r: Vec<(String, String)>)
        ensures
            lists_headers(r.deep_view(), self@.headers),
    {
        proof {
            use_type_invariant(self);
        }
        header_map_pairs(&self.headers)
    }

    /// The address of `pathinfo` for a request of the kind `url_type`.
    pub fn url_from_pathinfo(&self, pathinfo: &str, url_type: WikipediaUrlType) -> (r: Option<
        PageUrl,
    >)
        ensures
            r is Some == url_type.resolved(self@.language.code(), pathinfo@) is Some,
            r matches Some(url) ==> Some(url@) == url_type.resolved(
                self@.language.code(),
                pathinfo@,
            ),
    {
        let pathinfo = pathinfo.to_owned();
        url_type.try_url_with(self.language, &pathinfo)
    }

    /// The request for `pathinfo` of the kind `url_type`, with the client's
    /// headers; `None` where no address can be formed for `pathinfo`.
    pub fn request_from_pathinfo(&self, pathinfo: &str, url_type: WikipediaUrlType) -> (r: Option<
        PageRequest,
    >)
        ensures
            r is Some == url_type.resolved(self@.language.code(), pathinfo@) is Some,
            r matches Some(request) ==> Some(request.url@) == url_type.resolved(
                self@.language.code(),
                pathinfo@,
            ) && lists_headers(request.headers.deep_view(), self@.headers),
    {
        match self.url_from_pathinfo(pathinfo, url_type) {
            Some(url) => Some(PageRequest { url: url.into_string(), headers: self.copy_headers() }),
            None => None,
        }
    }

    fn pending(&self, url: String) -> (r: PendingFetch)
        ensures
            self.begins(r, url@),
    {
        PendingFetch {
            state: FetchState::start(url.clone(), CLIENT_REDIRECTS, self.timeout_millis),
            request: PageRequest { url, headers: self.copy_headers() },
        }
    }

    /// Whether `pending` is the start of a fetch of `url` by this client: the
    /// request goes to `url` with the client's headers, and the fetch has the
    /// whole budget of redirects and the client's time.
    pub open spec fn begins(&self, pending: PendingFetch, url: Seq<char>) -> bool {
        &&& pending.request.url@ == url
        &&& lists_headers(pending.request.headers.deep_view(), self@.headers)
        &&& pending.state@ == (FetchView {
            url: url,
            redirects_left: CLIENT_REDIRECTS,
            timeout_millis: self@.timeout_millis,
            done: false,
        })
    }

    /// Begins the fetch of the page `pathinfo`, by the kind of request that
    /// the client is set up for. Where no address can be formed for
    /// `pathinfo`, that is the error, and it names `pathinfo`.
    pub fn get(&self, pathinfo: &str) -> (r: Result<PendingFetch, HttpError>)
        ensures
            match self@.url_type.resolved(self@.language.code(), pathinfo@) {
                Some(url) => r is Ok && self.begins(r.unwrap(), url),
                None => r is Err && r->Err_0@ == HttpFault::UrlParseError(pathinfo@),
            },
    {
        match self.url_from_pathinfo(pathinfo, self.url_type) {
            Some(url) => Ok(self.pending(url.into_string())),
            None => Err(HttpError::UrlParseError(pathinfo.to_owned())),
        }
    }

    /// Reads the outcome of a fetch that `get` began: the body of the kind
    /// asked for, the failure of the fetch, or the message of the reader that
    /// refused the text.
    pub fn finish_get(&self, outcome: Result<String, HttpError>) -> (r: Result<
        WikipediaBody,
        HttpError,
    >)
        ensures
            fetched_body(r) == body_of_outcome(self@.url_type, text_outcome(outcome)),
    {
        match outcome {
            Err(e) => Err(e),
            Ok(text) => match WikipediaBody::from_url_type(self.url_type, text) {
                Ok(body) => Ok(body),
                Err(e) => Err(HttpError::DeserialisationError(e.message)),
            },
        }
    }

    /// Begins the fetch that asks the API for one random page. `None` where no
    /// address can be formed for the client's language.
    pub fn random_page(&self) -> (r: Option<PendingFetch>)
        ensures
            match WikipediaUrlType::LinksApi.base(self@.language.code()) {
                Some(base) => match with_query_of(base, random_query()) {
                    Some(url) => r is Some && self.begins(r.unwrap(), url),
                    None => r is None,
                },
                None => r is None,
            },
    {
        let base = match WikipediaUrlType::LinksApi.try_base_url(self.language) {
            Some(base) => base,
            None => {
                return None;
            },
        };
        match base.with_query(
            "action=query&format=json&list=random&rnnamespace=0&rnlimit=1&origin=*",
        ) {
            Some(url) => Some(self.pending(url.into_string())),
            None => None,
        }
    }

    /// Reads the outcome of a fetch that `random_page` began: the page named,
    /// not loaded.
    pub fn finish_random_page(outcome: Result<String, HttpError>) -> (r: Result<
        WikipediaPage,
        HttpError,
    >)
        ensures
            fetched_page(r) == random_page_outcome(text_outcome(outcome)),
            r matches Ok(page) ==> page@.body is None,
    {
        let text = match outcome {
            Ok(text) => text,
            Err(e) => {
                return Err(e);
            },
        };
        let value = match json_parse(text.as_str()) {
            Ok(value) => value,
            Err(message) => {
                return Err(HttpError::DeserialisationError(message));
            },
        };
        let list = match json_get(&value, "query") {
            Some(query) => json_get(query, "random"),
            None => None,
        };
        let title = match list {
            Some(list) => match json_as_array(list) {
                Some(items) => {
                    if items.len() > 0 {
                        match json_get(&items[0], "title") {
                            Some(title) => json_as_str(title),
                            None => None,
                        }
                    } else {
                        None
                    }
                },
                None => None,
            },
            None => None,
        };
        match title {
            Some(title) => Ok(WikipediaPage::from_title(title)),
            None => Err(HttpError::NoPageBody),
        }
    }

    /// Begins the fetch that shows whether Wikipedia answers at all.
    pub fn get_api_base(&self) -> (r: PendingFetch)
        ensures
            self.begins(r, api_base()),
    {
        self.pending("https://en.wikipedia.org/w/api.php?origin=*".to_owned())
    }

    /// Reads the outcome of a fetch that `get_api_base` began: only whether it
    /// succeeded counts.
    pub fn finish_api_base(outcome: Result<String, HttpError>) -> (r: Result<(), HttpError>)
        ensures
            outcome is Ok ==> r is Ok,
            outcome matches Err(e) ==> r is Err && r->Err_0@ == e@,
    {
        match outcome {
            Ok(_) => Ok(()),
            Err(e) => Err(e),
        }
    }
}

impl WikipediaPage {
    /// Begins the fetch that asks `client` for one random page.
    pub fn random(client: &WikipediaClient) -> (r: Option<PendingFetch>)
        ensures
            match WikipediaUrlType::LinksApi.base(client@.language.code()) {
                Some(base) => match with_query_of(base, random_query()) {
                    Some(url) => r is Some && client.begins(r.unwrap(), url),
                    None => r is None,
                },
                None => r is None,
            },
    {
        client.random_page()
    }

    /// Begins the fetch of this page's content by `client`.
    pub fn load_page_text(&self, client: &WikipediaClient) -> (r: Result<PendingFetch, HttpError>)
        ensures
            match client@.url_type.resolved(client@.language.code(), self@.pathinfo) {
                Some(url) => r is Ok && client.begins(r.unwrap(), url),
                None => r is Err && r->Err_0@ == HttpFault::UrlParseError(self@.pathinfo),
            },
    {
        client.get(self.pathinfo().as_str())
    }

    /// Reads the outcome of a fetch that `load_page_text` began: this page
    /// with the body that arrived, under the identity that the body gives it,
    /// or under its own where the body gives none.
    pub fn finish_load_page_text(
        &self,
        client: &WikipediaClient,
        outcome: Result<String, HttpError>,
    ) -> (r: Result<WikipediaPage, HttpError>)
        ensures
            match body_of_outcome(client@.url_type, text_outcome(outcome)) {
                Ok(body) => r is Ok && r.unwrap()@.body == Some(body) && r.unwrap()@.pathinfo
                    == match body.identity() {
                    Some(identity) => identity,
                    None => self@.pathinfo,
                },
                Err(fault) => r is Err && r->Err_0@ == fault,
            },
    {
        match client.finish_get(outcome) {
            Ok(body) => {
                let mut page = self.clone();
                page.set_page_body(body);
                Ok(page)
            },
            Err(e) => Err(e),
        }
    }
}

impl Default for WikipediaClient {
    /// The client of the default configuration.
    fn default() -> (r: Self)
        ensures
            r@ == (ClientView {
                language: WikiLanguage::English,
                headers: default_headers(),
                url_type: WikipediaUrlType::RawApi,
                timeout_millis: Some(DEFAULT_TIMEOUT_MILLIS),
            }),
    {
        WikipediaClient::from_config(WikipediaClientConfig::default())
    }
}

} // verus!
