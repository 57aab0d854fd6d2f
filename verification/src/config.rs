//! What a client is set up with: the language, the kind of request, the time
//! it waits and the headers it sends.
//!
//! The headers stay in a `HeaderMap` of the `http` crate. What that map holds
//! is named by `header_entries`, and each of the crate's functions that the
//! library calls is stated over that name.

use crate::language::WikiLanguage;
use crate::text::chars_of;
use crate::url::WikipediaUrlType;
use http::{HeaderMap, HeaderValue};
use vstd::prelude::*;

verus! {

/// `http::HeaderMap`, the headers of a request.
#[verifier::external_type_specification]
#[verifier::external_body]
#[verifier::reject_recursive_types(T)]
pub struct ExHeaderMap<T>(HeaderMap<T>);

/// `http::HeaderValue`, the value of one header.
#[verifier::external_type_specification]
#[verifier::external_body]
pub struct ExHeaderValue(HeaderValue);

/// The headers that `map` holds: under each name, as the map writes it, the
/// first of its values.
pub uninterp spec fn header_entries(map: HeaderMap<HeaderValue>) -> Map<Seq<char>, Seq<char>>;

/// Whether each name of `map` has one value and no more. A `HeaderMap` can
/// hold several values under one name; the library never lets it.
pub uninterp spec fn header_single(map: HeaderMap<HeaderValue>) -> bool;

/// How many names a map must hold before the `http` crate may refuse one
/// more. It refuses where its table would have to grow beyond `1 << 15`
/// slots. It asks a table to double only when the names fill three quarters
/// of it or, where they crowd, a fifth; so a table that cannot double has more
/// than `1 << 14` slots and at least a fifth as many names.
pub const HEADER_ROOM: usize = 3277;

/// The form in which `HeaderName::from_str` writes `name`; `None` where it
/// refuses `name`.
pub uninterp spec fn header_name(name: Seq<char>) -> Option<Seq<char>>;

/// The characters that `HeaderValue::from_str` accepts: everything from the
/// space on but DEL, and the tab.
pub open spec fn accepted_char(c: char) -> bool {
    (c >= ' ' && c != '\u{7f}') || c == '\t'
}

/// The characters that a header value is printed with: visible ASCII, the
/// space and the tab.
pub open spec fn printable_char(c: char) -> bool {
    (' ' <= c && c <= '~') || c == '\t'
}

/// Whether `HeaderValue::from_str` accepts `value`.
pub open spec fn accepted_value(value: Seq<char>) -> bool {
    forall|i: int| 0 <= i < value.len() ==> accepted_char(#[trigger] value[i])
}

/// Whether `value` can be sent as it is written.
pub open spec fn printable_value(value: Seq<char>) -> bool {
    forall|i: int| 0 <= i < value.len() ==> printable_char(#[trigger] value[i])
}

/// `HeaderMap::new`: a map without headers.
#[verifier::external_body]
fn header_map_new() -> (r: HeaderMap<HeaderValue>)
    ensures
        header_entries(r) == (Map::<Seq<char>, Seq<char>>::empty()),
        header_single(r),
{
    HeaderMap::new()
}

/// `HeaderName::from_str`, the name handed back as the crate writes it (in
/// lower case). The contract names the outcome.
#[verifier::external_body]
fn header_name_of(name: &str) -> (r: Option<String>)
    ensures
        r.deep_view() == header_name(name@),
{
    match name.parse::<http::HeaderName>() {
        Ok(parsed) => Some(parsed.as_str().to_owned()),
        Err(_) => None,
    }
}

/// `HeaderValue::from_str`, of which only the verdict is kept: it refuses a
/// value that holds a control character other than the tab.
#[verifier::external_body]
fn header_value_accepted(value: &str) -> (r: bool)
    ensures
        r == accepted_value(value@),
{
    HeaderValue::from_str(value).is_ok()
}

/// `HeaderMap::try_insert` of `value` under `name`. Where it succeeds, the map
/// holds `value` under the name as the crate writes it, in place of every
/// value that stood there; where the map is full, it is left as it was. A map
/// of fewer than `HEADER_ROOM` names has room; beyond that the crate decides.
/// Names that had one value each still have.
#[verifier::external_body]
fn header_map_insert(map: &mut HeaderMap<HeaderValue>, name: &str, value: &str) -> (r: bool)
    requires
        header_name(name@) is Some,
        accepted_value(value@),
    ensures
        r ==> header_entries(*final(map)) == header_entries(*old(map)).insert(
            header_name(name@).unwrap(),
            value@,
        ),
        !r ==> header_entries(*final(map)) == header_entries(*old(map)),
        header_entries(*old(map)).dom().finite() && header_entries(*old(map)).dom().len()
            < HEADER_ROOM ==> r,
        header_single(*old(map)) ==> header_single(*final(map)),
{
    match (name.parse::<http::HeaderName>(), HeaderValue::from_str(value)) {
        (Ok(n), Ok(v)) => map.try_insert(n, v).is_ok(),
        _ => false,
    }
}

/// `http::header::USER_AGENT`, the name of the header that tells the server
/// who asks, as text. `HeaderName::from_str` reads that text as this very
/// name.
#[verifier::external_body]
fn user_agent_header() -> (r: String)
    ensures
        r@ == user_agent_name(),
        header_name(r@) == Some(r@),
{
    http::header::USER_AGENT.as_str().to_owned()
}

/// `HeaderMap::clone`: the copy holds what the map holds, value for value.
#[verifier::external_body]
fn header_map_clone(map: &HeaderMap<HeaderValue>) -> (r: HeaderMap<HeaderValue>)
    ensures
        header_entries(r) == header_entries(*map),
        header_single(r) == header_single(*map),
{
    map.clone()
}

/// `HeaderMap::iter`, each header handed out as name and value, the value
/// through `HeaderValue::to_str`. The iterator hands a name out once for each
/// of its values; in a map whose names have one value each, every header
/// comes once.
#[verifier::external_body]
pub(crate) fn header_map_pairs(map: &HeaderMap<HeaderValue>) -> (r: Vec<(String, String)>)
    requires
        header_single(*map),
        forall|name: Seq<char>| #[trigger]
            header_entries(*map).contains_key(name) ==> printable_value(header_entries(*map)[name]),
    ensures
        lists_headers(r.deep_view(), header_entries(*map)),
{
    map.iter().map(|(n, v)| (n.as_str().to_owned(), v.to_str().unwrap_or("").to_owned())).collect()
}

/// Whether `pairs` lists the headers of `entries`: each once, nothing else.
pub open spec fn lists_headers(
    pairs: Seq<(Seq<char>, Seq<char>)>,
    entries: Map<Seq<char>, Seq<char>>,
) -> bool {
    &&& forall|i: int|
        0 <= i < pairs.len() ==> entries.contains_key((#[trigger] pairs[i]).0) && entries[pairs[i].0]
            == pairs[i].1
    &&& forall|name: Seq<char>| #[trigger]
        entries.contains_key(name) ==> exists|i: int|
            0 <= i < pairs.len() && (#[trigger] pairs[i]).0 == name
    &&& forall|i: int, j: int|
        0 <= i < j < pairs.len() ==> (#[trigger] pairs[i]).0 != (#[trigger] pairs[j]).0
}

/// Why a header was not taken.
#[derive(Clone, Copy, Debug, PartialEq, Eq, Structural)]
pub enum HeaderError {
    /// The name is no header name.
    InvalidHeaderName,
    /// The value holds a character that no header value can be sent with.
    InvalidHeaderValue,
    /// The map of headers is full.
    HeaderMapMaxSizeReached,
}

/// The time that a client waits for a response unless it is told otherwise,
/// in milliseconds.
pub const DEFAULT_TIMEOUT_MILLIS: u64 = 5000;

/// What a client is set up with.
pub struct WikipediaClientConfig {
    headers: HeaderMap<HeaderValue>,
    language: WikiLanguage,
    url_type: WikipediaUrlType,
    timeout_millis: Option<u64>,
}

/// What a configuration holds.
pub ghost struct ConfigView {
    /// The headers, by name.
    pub headers: Map<Seq<char>, Seq<char>>,
    /// The edition that requests go to.
    pub language: WikiLanguage,
    /// The kind of request that `get` makes.
    pub url_type: WikipediaUrlType,
    /// How long a response is waited for, in milliseconds; `None` for ever.
    pub timeout_millis: Option<u64>,
}

/// Whether every value of `headers` can be sent as it is written.
pub open spec fn printable_headers(headers: Map<Seq<char>, Seq<char>>) -> bool {
    forall|name: Seq<char>| #[trigger] headers.contains_key(name) ==> printable_value(headers[name])
}

/// The first of `headers` that is not taken, with the reason; `None` where
/// each has a name and a value that fit.
pub open spec fn first_fault(headers: Seq<(Seq<char>, Seq<char>)>) -> Option<HeaderError>
    decreases headers.len(),
{
    if headers.len() == 0 {
        None
    } else if header_name(headers[0].0) is None {
        Some(HeaderError::InvalidHeaderName)
    } else if !printable_value(headers[0].1) {
        Some(HeaderError::InvalidHeaderValue)
    } else {
        first_fault(headers.drop_first())
    }
}

/// The first fault among `headers` is the first fault among the first `k` of
/// them, or else the first among the rest.
pub proof fn lemma_first_fault_split(headers: Seq<(Seq<char>, Seq<char>)>, k: int)
    requires
        0 <= k <= headers.len(),
    ensures
        first_fault(headers) == match first_fault(headers.subrange(0, k)) {
            Some(e) => Some(e),
            None => first_fault(headers.subrange(k, headers.len() as int)),
        },
    decreases k,
{
    if k == 0 {
        assert(headers.subrange(0, headers.len() as int) =~= headers);
    } else {
        let tail = headers.drop_first();
        lemma_first_fault_split(tail, k - 1);
        assert(headers.subrange(0, k).drop_first() =~= tail.subrange(0, k - 1));
        assert(headers.subrange(k, headers.len() as int) =~= tail.subrange(k - 1, tail.len() as int));
        assert(headers.subrange(0, k)[0] == headers[0]);
    }
}

/// `entries` after each of `headers` was set in turn, a later one replacing an
/// earlier one of the same name.
pub open spec fn with_headers(
    entries: Map<Seq<char>, Seq<char>>,
    headers: Seq<(Seq<char>, Seq<char>)>,
) -> Map<Seq<char>, Seq<char>>
    decreases headers.len(),
{
    if headers.len() == 0 {
        entries
    } else {
        with_headers(
            entries.insert(header_name(headers[0].0).unwrap(), headers[0].1),
            headers.drop_first(),
        )
    }
}

/// The name of the header that tells the server who asks.
pub open spec fn user_agent_name() -> Seq<char> {
    "user-agent"@
}

/// The value of that header unless another is set.
pub open spec fn default_user_agent() -> Seq<char> {
    "wikipedia-graph/0.1.0"@
}

fn is_printable(value: &str) -> (r: bool)
    ensures
        r == printable_value(value@),
        r ==> accepted_value(value@),
{
    let chars = chars_of(value);
    let mut i: usize = 0;
    while i < chars.len()
        invariant
            i <= chars.len(),
            chars@ == value@,
            forall|k: int| 0 <= k < i ==> printable_char(#[trigger] chars@[k]),
        decreases chars.len() - i,
    {
        let c = chars[i];
        if !((' ' <= c && c <= '~') || c == '\t') {
            return false;
        }
        i += 1;
    }
    assert forall|k: int| 0 <= k < value@.len() implies accepted_char(#[trigger] value@[k]) by {
        assert(printable_char(chars@[k]));
    }
    true
}

impl WikipediaClientConfig {
    /// What the configuration holds.
    pub closed spec fn view(&self) -> ConfigView {
        ConfigView {
            headers: header_entries(self.headers),
            language: self.language,
            url_type: self.url_type,
            timeout_millis: self.timeout_millis,
        }
    }

    /// What holds of every configuration: its names are finitely many and
    /// have one value each, and each value can be sent as it is written.
    #[verifier::type_invariant]
    spec fn has_sendable_headers(self) -> bool {
        &&& header_entries(self.headers).dom().finite()
        &&& header_single(self.headers)
        &&& printable_headers(header_entries(self.headers))
    }

    /// A configuration without headers: requests for wikitext to the English
    /// edition, each waited for during the default time.
    pub fn empty() -> (r: Self)
        ensures
            r@.headers == Map::<Seq<char>, Seq<char>>::empty(),
            r@.headers.dom().finite(),
            r@.language == WikiLanguage::English,
            r@.url_type == WikipediaUrlType::RawApi,
            r@.timeout_millis == Some(DEFAULT_TIMEOUT_MILLIS),
    {
        WikipediaClientConfig {
            headers: header_map_new(),
            language: WikiLanguage::English,
            url_type: WikipediaUrlType::RawApi,
            timeout_millis: Some(DEFAULT_TIMEOUT_MILLIS),
        }
    }

    /// The default configuration with the language `language` and with each of
    /// `headers` set in turn. The headers come as a list: its order decides
    /// which value a name keeps that is set twice, and which fault is found
    /// first. The first header that does not fit is reported.
    /// A list that fits is taken whole if, with the user agent, it has fewer
    /// than `HEADER_ROOM` headers; a longer one may be refused by the map of
    /// headers at a header from that number on, if all before it fit.
    pub fn new(headers: &Vec<(String, String)>, language: WikiLanguage) -> (r: Result<
        Self,
        HeaderError,
    >)
        ensures
            match r {
                Ok(config) => first_fault(headers.deep_view()) is None && config@ == (ConfigView {
                    headers: with_headers(default_headers(), headers.deep_view()),
                    language: language,
                    url_type: WikipediaUrlType::RawApi,
                    timeout_millis: Some(DEFAULT_TIMEOUT_MILLIS),
                }),
                Err(e) => if e == HeaderError::HeaderMapMaxSizeReached {
                    exists|i: int|
                        HEADER_ROOM <= i + 1 && i < headers.len() && first_fault(
                            #[trigger] headers.deep_view().subrange(0, i + 1),
                        ) is None
                } else {
                    first_fault(headers.deep_view()) == Some(e)
                },
            },
            first_fault(headers.deep_view()) is None && headers.len() + 1 < HEADER_ROOM ==> r is Ok,
    {
        let ghost all = headers.deep_view();
        let mut config = WikipediaClientConfig::default().language(language);
        let mut i: usize = 0;
        proof {
            assert(all.subrange(0, headers.len() as int) =~= all);
            assert(all.subrange(0, 0) =~= Seq::<(Seq<char>, Seq<char>)>::empty());
            assert(default_headers().dom() =~= Set::<Seq<char>>::empty().insert(user_agent_name()));
        }
        while i < headers.len()
            invariant
                i <= headers.len(),
                all == headers.deep_view(),
                config@.language == language,
                config@.url_type == WikipediaUrlType::RawApi,
                config@.timeout_millis == Some(DEFAULT_TIMEOUT_MILLIS),
                config@.headers.dom().finite(),
                config@.headers.dom().len() <= i + 1,
                first_fault(all.subrange(0, i as int)) is None,
                with_headers(default_headers(), all) == with_headers(
                    config@.headers,
                    all.subrange(i as int, headers.len() as int),
                ),
            decreases headers.len() - i,
        {
            let ghost rest = all.subrange(i as int, headers.len() as int);
            let ghost upto = all.subrange(0, i + 1);
            proof {
                assert(rest[0] == (headers[i as int].0@, headers[i as int].1@));
                assert(rest.drop_first() =~= all.subrange(i + 1, headers.len() as int));
                lemma_first_fault_split(all, i as int);
                lemma_first_fault_split(upto, i as int);
                assert(upto.subrange(0, i as int) =~= all.subrange(0, i as int));
                assert(upto.subrange(i as int, i + 1) =~= seq![all[i as int]]);
                assert(seq![all[i as int]].drop_first() =~= Seq::<(Seq<char>, Seq<char>)>::empty());
                assert(rest.drop_first().len() == headers.len() - i - 1);
            }
            let ghost one = upto.subrange(i as int, i + 1);
            proof {
                assert(one[0] == all[i as int]);
                assert(first_fault(one.drop_first()) is None);
            }
            match config.add_header(headers[i].0.as_str(), headers[i].1.as_str()) {
                Ok(next) => {
                    proof {
                        assert(first_fault(one) is None);
                    }
                    config = next;
                },
                Err(e) => {
                    proof {
                        if e == HeaderError::HeaderMapMaxSizeReached {
                            assert(first_fault(one) is None);
                            assert(first_fault(all.subrange(0, i + 1)) is None);
                        }
                    }
                    return Err(e);
                },
            }
            i += 1;
        }
        proof {
            lemma_first_fault_split(all, headers.len() as int);
            assert(all.subrange(headers.len() as int, headers.len() as int).len() == 0);
        }
        Ok(config)
    }

    /// Sets the header that tells the server who asks.
    pub fn user_agent(self, user_agent: &str) -> (r: Result<Self, HeaderError>)
        ensures
            self.adds(user_agent_name(), user_agent@, r),
            self@.headers.dom().finite(),
            header_name(user_agent_name()) == Some(user_agent_name()),
    {
        let name = user_agent_header();
        self.add_header(name.as_str(), user_agent)
    }

    /// Sets the edition that requests go to.
    pub fn language(self, language: WikiLanguage) -> (r: Self)
        ensures
            r@ == (ConfigView { language: language, ..self@ }),
    {
        proof {
            use_type_invariant(&self);
        }
        WikipediaClientConfig { language, ..self }
    }

    /// Sets the kind of request that `get` makes.
    pub fn url_type(self, url_type: WikipediaUrlType) -> (r: Self)
        ensures
            r@ == (ConfigView { url_type: url_type, ..self@ }),
    {
        proof {
            use_type_invariant(&self);
        }
        WikipediaClientConfig { url_type, ..self }
    }

    /// Sets how long a response is waited for, in milliseconds; `None` for
    /// ever.
    pub fn timeout(self, timeout_millis: Option<u64>) -> (r: Self)
        ensures
            r@ == (ConfigView { timeout_millis: timeout_millis, ..self@ }),
    {
        proof {
            use_type_invariant(&self);
        }
        WikipediaClientConfig { timeout_millis, ..self }
    }

    /// What `add_header` owes for the header `name` with the value `value`: a
    /// name that is none is reported, then a value that does not fit; what is
    /// left is set in place of an earlier value of that name. Only a map that
    /// holds `HEADER_ROOM` names or more may refuse it for want of room.
    pub open spec fn adds(
        self,
        name: Seq<char>,
        value: Seq<char>,
        r: Result<Self, HeaderError>,
    ) -> bool {
        if header_name(name) is None {
            r == Err::<Self, HeaderError>(HeaderError::InvalidHeaderName)
        } else if !printable_value(value) {
            r == Err::<Self, HeaderError>(HeaderError::InvalidHeaderValue)
        } else {
            match r {
                Ok(config) => config@ == (ConfigView {
                    headers: self@.headers.insert(header_name(name).unwrap(), value),
                    ..self@
                }),
                Err(e) => e == HeaderError::HeaderMapMaxSizeReached && self@.headers.dom().len()
                    >= HEADER_ROOM,
            }
        }
    }

    /// Sets the header `name` to `value`.
    pub fn add_header(self, name: &str, value: &str) -> (r: Result<Self, HeaderError>)
        ensures
            self.adds(name@, value@, r),
            self@.headers.dom().finite(),
    {
        proof {
            use_type_invariant(&self);
        }
        if header_name_of(name).is_none() {
            return Err(HeaderError::InvalidHeaderName);
        }
        if !header_value_accepted(value) || !is_printable(value) {
            return Err(HeaderError::InvalidHeaderValue);
        }
        let WikipediaClientConfig { mut headers, language, url_type, timeout_millis } = self;
        if header_map_insert(&mut headers, name, value) {
            Ok(WikipediaClientConfig { headers, language, url_type, timeout_millis })
        } else {
            Err(HeaderError::HeaderMapMaxSizeReached)
        }
    }

    /// The headers: finitely many names with one value each.
    pub fn headers(&self) -> (r: &HeaderMap<HeaderValue>)
        ensures
            header_entries(*r) == self@.headers,
            header_single(*r),
            self@.headers.dom().finite(),
    {
        proof {
            use_type_invariant(self);
        }
        &self.headers
    }

    /// The headers, each as name and value, every one once. Each value can be
    /// sent as it is written.
    pub fn header_pairs(&self) -> (r: Vec<(String, String)>)
        ensures
            lists_headers(r.deep_view(), self@.headers),
            printable_headers(self@.headers),
    {
        proof {
            use_type_invariant(self);
        }
        header_map_pairs(&self.headers)
    }

    /// The edition that requests go to.
    pub fn get_language(&self) -> (r: WikiLanguage)
        ensures
            r == self@.language,
    {
        self.language
    }

    /// The kind of request that `get` makes.
    pub fn get_url_type(&self) -> (r: WikipediaUrlType)
        ensures
            r == self@.url_type,
    {
        self.url_type
    }

    /// How long a response is waited for, in milliseconds; `None` for ever.
    pub fn get_timeout(&self) -> (r: Option<u64>)
        ensures
            r == self@.timeout_millis,
    {
        self.timeout_millis
    }

    /// A copy of the headers.
    pub fn clone_headers(&self) -> (r: HeaderMap<HeaderValue>)
        ensures
            header_entries(r) == self@.headers,
            header_single(r),
            printable_headers(self@.headers),
            self@.headers.dom().finite(),
    {
        proof {
            use_type_invariant(self);
        }
        header_map_clone(&self.headers)
    }
}

/// The headers of the default configuration: the default user agent alone.
pub open spec fn default_headers() -> Map<Seq<char>, Seq<char>> {
    Map::<Seq<char>, Seq<char>>::empty().insert(user_agent_name(), default_user_agent())
}

impl Default for WikipediaClientConfig {
    /// Requests for wikitext to the English edition, each waited for during
    /// the default time, sent with the default user agent.
    fn default() -> (r: Self)
        ensures
            r@.headers == default_headers(),
            r@.headers.dom().finite(),
            r@.language == WikiLanguage::English,
            r@.url_type == WikipediaUrlType::RawApi,
            r@.timeout_millis == Some(DEFAULT_TIMEOUT_MILLIS),
    {
        proof {
            reveal_strlit("wikipedia-graph/0.1.0");
            assert(printable_value("wikipedia-graph/0.1.0"@));
            assert(default_headers().dom() =~= Set::<Seq<char>>::empty().insert(user_agent_name()));
        }
        match WikipediaClientConfig::empty().user_agent("wikipedia-graph/0.1.0") {
            Ok(config) => config,
            Err(_) => WikipediaClientConfig::empty(),
        }
    }
}

} // verus!
