use wikipedia_graph::fetch::parse_status_code;
use wikipedia_graph::{
    FetchAction, FetchEvent, FetchResponse, FetchState, HeaderError, HttpError, WikiLanguage,
    WikipediaBody, WikipediaClient, WikipediaClientConfig, WikipediaUrlType, CLIENT_REDIRECTS,
};

fn response(status: u16, location: Option<&str>, text: Option<&str>) -> FetchEvent {
    FetchEvent::Response(FetchResponse {
        status,
        location: location.map(str::to_string),
        text: text.map(str::to_string),
    })
}

fn sorted(mut pairs: Vec<(String, String)>) -> Vec<(String, String)> {
    pairs.sort();
    pairs
}

fn pair(name: &str, value: &str) -> (String, String) {
    (name.to_string(), value.to_string())
}

#[test]
fn default_configuration() {
    let config = WikipediaClientConfig::default();
    assert_eq!(config.get_language(), WikiLanguage::English);
    assert_eq!(config.get_url_type(), WikipediaUrlType::RawApi);
    assert_eq!(config.get_timeout(), Some(5000));
    assert_eq!(config.header_pairs(), vec![pair("user-agent", "wikipedia-graph/0.1.0")]);
    assert_eq!(config.headers().len(), 1);
    assert_eq!(config.headers().get("User-Agent").unwrap(), "wikipedia-graph/0.1.0");
    assert!(WikipediaClientConfig::empty().header_pairs().is_empty());
    assert_eq!(CLIENT_REDIRECTS, 2);
}

#[test]
fn a_header_is_set_under_its_name_in_lower_case() {
    let config = WikipediaClientConfig::empty()
        .add_header("X-Requested-With", "tests")
        .unwrap()
        .add_header("Accept", "text/html\tq=1")
        .unwrap();
    assert_eq!(
        sorted(config.header_pairs()),
        vec![pair("accept", "text/html\tq=1"), pair("x-requested-with", "tests")]
    );
    assert_eq!(config.headers().get("accept").unwrap(), "text/html\tq=1");
}

#[test]
fn a_header_set_twice_holds_the_later_value() {
    let config = WikipediaClientConfig::default()
        .user_agent("tests/1")
        .unwrap()
        .add_header("USER-AGENT", "tests/2")
        .unwrap();
    assert_eq!(config.header_pairs(), vec![pair("user-agent", "tests/2")]);
    assert_eq!(config.clone_headers().len(), 1);
}

#[test]
fn a_header_that_does_not_fit_is_refused() {
    for name in ["", "bad name", "bad\nname", "näme", "a:b", "(a)"] {
        assert_eq!(
            WikipediaClientConfig::empty().add_header(name, "value").err(),
            Some(HeaderError::InvalidHeaderName),
            "{:?}",
            name
        );
    }
    for value in ["line\nbreak", "\r", "\u{7f}", "\0", "é", "日本語", "a\u{80}"] {
        assert_eq!(
            WikipediaClientConfig::empty().add_header("x-test", value).err(),
            Some(HeaderError::InvalidHeaderValue),
            "{:?}",
            value
        );
    }
    // The name is judged first.
    assert_eq!(
        WikipediaClientConfig::empty().add_header("bad name", "\n").err(),
        Some(HeaderError::InvalidHeaderName)
    );
    for value in ["", " ", "~", "\t", "a b", "!\"#$%&'()*+,-./:;<=>?@[\\]^_`{|}"] {
        assert!(WikipediaClientConfig::empty().add_header("x-test", value).is_ok(), "{:?}", value);
    }
    assert!(WikipediaClientConfig::empty().user_agent("é").is_err());
}

#[test]
fn every_single_character_is_judged_as_the_http_crate_judges_it() {
    for code in 0u32..0x250 {
        let Some(c) = char::from_u32(code) else { continue };
        let value = c.to_string();
        let fits = (' '..='~').contains(&c) || c == '\t';
        assert_eq!(
            WikipediaClientConfig::empty().add_header("x-test", &value).is_ok(),
            fits,
            "{:?}",
            c
        );
        let accepted = http::HeaderValue::from_str(&value);
        assert_eq!(fits, accepted.map(|v| v.to_str().is_ok()).unwrap_or(false), "{:?}", c);
        let name = http::HeaderName::from_bytes(value.as_bytes());
        assert_eq!(
            WikipediaClientConfig::empty().add_header(&value, "v").is_ok(),
            name.is_ok(),
            "{:?}",
            c
        );
    }
}

#[test]
fn a_configuration_with_headers() {
    let headers = vec![pair("Accept", "a"), pair("X-One", "1"), pair("accept", "b")];
    let config = WikipediaClientConfig::new(&headers, WikiLanguage::German).unwrap();
    assert_eq!(config.get_language(), WikiLanguage::German);
    assert_eq!(config.get_url_type(), WikipediaUrlType::RawApi);
    assert_eq!(
        sorted(config.header_pairs()),
        vec![pair("accept", "b"), pair("user-agent", "wikipedia-graph/0.1.0"), pair("x-one", "1")]
    );
    let broken = vec![pair("Accept", "a"), pair("X-One", "\n"), pair("bad name", "b")];
    assert_eq!(
        WikipediaClientConfig::new(&broken, WikiLanguage::German).err(),
        Some(HeaderError::InvalidHeaderValue)
    );
    let broken = vec![pair("bad name", "b"), pair("X-One", "\n")];
    assert_eq!(
        WikipediaClientConfig::new(&broken, WikiLanguage::German).err(),
        Some(HeaderError::InvalidHeaderName)
    );
    assert!(WikipediaClientConfig::new(&Vec::new(), WikiLanguage::Korean).is_ok());
}

#[test]
fn the_settings_of_a_configuration() {
    let config = WikipediaClientConfig::default()
        .language(WikiLanguage::Icelandic)
        .url_type(WikipediaUrlType::LinksApi)
        .timeout(None);
    assert_eq!(config.get_language(), WikiLanguage::Icelandic);
    assert_eq!(config.get_url_type(), WikipediaUrlType::LinksApi);
    assert_eq!(config.get_timeout(), None);
    assert_eq!(config.header_pairs().len(), 1);
    let client = WikipediaClient::from_config(config);
    assert_eq!(client.language(), WikiLanguage::Icelandic);
    assert_eq!(client.headers().len(), 1);
    let default = WikipediaClient::default();
    assert_eq!(default.language(), WikiLanguage::English);
}

#[test]
fn a_status_is_judged() {
    let verdict = |status: u16, location: Option<&str>| {
        parse_status_code(status, location.map(str::to_string))
    };
    for status in [200, 201, 204, 299] {
        assert!(verdict(status, None).is_ok());
        assert!(verdict(status, Some("elsewhere")).is_ok());
    }
    for status in [300, 301, 302, 307, 308, 399] {
        assert!(matches!(verdict(status, Some("X")), Err(HttpError::Redirect(target)) if target == "X"));
        assert!(matches!(verdict(status, None), Err(HttpError::Unknown(code)) if code == status));
    }
    assert!(matches!(verdict(404, None), Err(HttpError::PageNotFound)));
    assert!(matches!(verdict(404, Some("X")), Err(HttpError::PageNotFound)));
    for status in [0, 1, 99, 100, 101, 199, 400, 403, 405, 418, 500, 503, 999, 1000, 65535] {
        assert!(matches!(verdict(status, None), Err(HttpError::Unknown(code)) if code == status));
        assert!(matches!(verdict(status, Some("X")), Err(HttpError::Unknown(code)) if code == status));
    }
}

#[test]
fn every_status_is_judged_as_the_http_crate_judges_it() {
    for status in 0..=u16::MAX {
        let verdict = parse_status_code(status, Some("X".to_string()));
        match http::StatusCode::from_u16(status) {
            Err(_) => assert!(matches!(verdict, Err(HttpError::Unknown(code)) if code == status)),
            Ok(code) if code.is_redirection() => assert!(matches!(verdict, Err(HttpError::Redirect(_)))),
            Ok(code) if code.as_u16() == 404 => assert!(matches!(verdict, Err(HttpError::PageNotFound))),
            Ok(code) if code.is_success() => assert!(verdict.is_ok()),
            Ok(_) => assert!(matches!(verdict, Err(HttpError::Unknown(code)) if code == status)),
        }
    }
}

#[test]
fn a_redirect_then_a_success() {
    let mut fetch = FetchState::start("https://en.wikipedia.org/wiki/A".to_string(), 2, Some(5000));
    assert_eq!(fetch.url(), "https://en.wikipedia.org/wiki/A");
    assert_eq!(fetch.redirects_left(), 2);
    assert!(!fetch.is_done());
    match fetch.step(response(301, Some("https://en.wikipedia.org/wiki/X"), None)) {
        FetchAction::Request(url) => assert_eq!(url, "https://en.wikipedia.org/wiki/X"),
        other => panic!("the redirect was not followed: {:?}", other),
    }
    assert_eq!(fetch.url(), "https://en.wikipedia.org/wiki/X");
    assert_eq!(fetch.redirects_left(), 1);
    assert!(!fetch.is_done());
    match fetch.step(response(200, None, Some("the body of X"))) {
        FetchAction::Complete(Ok(text)) => assert_eq!(text, "the body of X"),
        other => panic!("the fetch did not succeed: {:?}", other),
    }
    assert_eq!(fetch.redirects_left(), 1);
    assert!(fetch.is_done());
}

#[test]
fn redirects_without_end() {
    for budget in [0u32, 1, 2, 5] {
        let mut fetch = FetchState::start("start".to_string(), budget, None);
        for hop in 0..budget {
            match fetch.step(response(301, Some(&format!("hop {hop}")), Some(""))) {
                FetchAction::Request(url) => assert_eq!(url, format!("hop {hop}")),
                other => panic!("the redirect was not followed: {:?}", other),
            }
            assert_eq!(fetch.redirects_left(), budget - hop - 1);
        }
        assert!(matches!(
            fetch.step(response(301, Some("one too many"), Some(""))),
            FetchAction::Complete(Err(HttpError::TooManyRedirects))
        ));
        assert!(fetch.is_done());
        assert!(matches!(fetch.step(response(200, None, Some("late"))), FetchAction::Wait));
    }
}

#[test]
fn the_ways_a_fetch_ends() {
    let fetch = || FetchState::start("start".to_string(), CLIENT_REDIRECTS, Some(1000));
    assert!(matches!(
        fetch().step(response(404, None, Some("not here"))),
        FetchAction::Complete(Err(HttpError::PageNotFound))
    ));
    assert!(matches!(
        fetch().step(response(500, None, Some("down"))),
        FetchAction::Complete(Err(HttpError::Unknown(500)))
    ));
    assert!(matches!(
        fetch().step(response(302, None, Some("nowhere"))),
        FetchAction::Complete(Err(HttpError::Unknown(302)))
    ));
    assert!(matches!(
        fetch().step(response(42, None, Some("odd"))),
        FetchAction::Complete(Err(HttpError::Unknown(42)))
    ));
    assert!(matches!(
        fetch().step(response(200, None, None)),
        FetchAction::Complete(Err(HttpError::NoPageBody))
    ));
    assert!(matches!(
        fetch().step(response(200, None, Some(""))),
        FetchAction::Complete(Ok(text)) if text.is_empty()
    ));
    assert!(matches!(
        fetch().step(FetchEvent::Failure("connection refused".to_string())),
        FetchAction::Complete(Err(HttpError::Backend(message))) if message == "connection refused"
    ));
}

#[test]
fn a_fetch_that_takes_too_long() {
    let mut fetch = FetchState::start("start".to_string(), 2, Some(1000));
    assert!(matches!(fetch.step(FetchEvent::Elapsed(0)), FetchAction::Wait));
    assert!(matches!(fetch.step(FetchEvent::Elapsed(999)), FetchAction::Wait));
    assert!(!fetch.is_done());
    assert!(matches!(
        fetch.step(FetchEvent::Elapsed(1000)),
        FetchAction::Complete(Err(HttpError::Timeout))
    ));
    assert!(fetch.is_done());
    // What arrives afterwards is not looked at.
    assert!(matches!(fetch.step(response(200, None, Some("late"))), FetchAction::Wait));
    assert!(matches!(fetch.step(FetchEvent::Elapsed(5000)), FetchAction::Wait));
    assert!(matches!(fetch.step(FetchEvent::Failure("late".to_string())), FetchAction::Wait));
    assert!(matches!(fetch.step(response(301, Some("X"), None)), FetchAction::Wait));
    assert_eq!(fetch.url(), "start");
    assert_eq!(fetch.redirects_left(), 2);

    let mut patient = FetchState::start("start".to_string(), 2, None);
    assert!(matches!(patient.step(FetchEvent::Elapsed(u64::MAX)), FetchAction::Wait));
    assert!(!patient.is_done());
    let mut hasty = FetchState::start("start".to_string(), 2, Some(0));
    assert!(matches!(
        hasty.step(FetchEvent::Elapsed(0)),
        FetchAction::Complete(Err(HttpError::Timeout))
    ));
}

#[test]
fn the_request_for_a_page() {
    let client = WikipediaClient::from_config(
        WikipediaClientConfig::default()
            .language(WikiLanguage::Danish)
            .add_header("X-Test", "yes")
            .unwrap()
            .timeout(Some(250)),
    );
    let pending = client.get("Multekrem").unwrap();
    assert_eq!(
        pending.request.url,
        "https://da.wikipedia.org/w/api.php?origin=*&action=parse&prop=wikitext&format=json&page=Multekrem"
    );
    assert_eq!(
        sorted(pending.request.headers),
        vec![pair("user-agent", "wikipedia-graph/0.1.0"), pair("x-test", "yes")]
    );
    assert_eq!(pending.state.url(), &pending.request.url);
    assert_eq!(pending.state.redirects_left(), 2);
    assert!(!pending.state.is_done());
    let mut state = pending.state;
    assert!(matches!(state.step(FetchEvent::Elapsed(249)), FetchAction::Wait));
    assert!(matches!(
        state.step(FetchEvent::Elapsed(250)),
        FetchAction::Complete(Err(HttpError::Timeout))
    ));

    let request = client.request_from_pathinfo("Multekrem", WikipediaUrlType::Basic).unwrap();
    assert_eq!(request.url, "https://da.wikipedia.org/wiki/Multekrem");
    assert_eq!(request.headers.len(), 2);
    assert_eq!(
        client.url_from_pathinfo("Multekrem", WikipediaUrlType::LinksApi).unwrap().as_str(),
        "https://da.wikipedia.org/w/api.php?action=query&format=json&prop=links&pllimit=500&origin=*&titles=Multekrem"
    );
}

#[test]
fn a_page_as_readers_see_it_is_asked_for_under_its_name() {
    let client = WikipediaClient::from_config(
        WikipediaClientConfig::default().url_type(WikipediaUrlType::Basic),
    );
    assert_eq!(
        client.get("Special:Random").unwrap().request.url,
        "https://en.wikipedia.org/wiki/Special:Random"
    );
    assert_eq!(
        client.request_from_pathinfo("Rubus chamaemorus", WikipediaUrlType::Basic).unwrap().url,
        "https://en.wikipedia.org/wiki/Rubus%20chamaemorus"
    );
    assert!(client.url_from_pathinfo("http://[::1", WikipediaUrlType::Basic).is_some());
}

#[test]
fn the_outcome_of_a_fetch_is_read_by_the_kind_of_request() {
    let client = |kind| WikipediaClient::from_config(WikipediaClientConfig::default().url_type(kind));
    let text = r#"{"parse":{"title":"Waffle","wikitext":{"*":"[[Dessert]]"}}}"#.to_string();
    assert!(matches!(
        client(WikipediaUrlType::RawApi).finish_get(Ok(text.clone())),
        Ok(WikipediaBody::WikiText(_))
    ));
    assert!(matches!(
        client(WikipediaUrlType::LinksApi).finish_get(Ok(text.clone())),
        Ok(WikipediaBody::Links(_))
    ));
    assert!(matches!(
        client(WikipediaUrlType::Basic).finish_get(Ok(text)),
        Err(HttpError::DeserialisationError(message))
            if message == "Can't deserialize links from the Normal Request Type"
    ));
    assert!(matches!(
        client(WikipediaUrlType::RawApi).finish_get(Ok("<html>".to_string())),
        Err(HttpError::DeserialisationError(message)) if message == "expected value at line 1 column 1"
    ));
    assert!(matches!(
        client(WikipediaUrlType::RawApi).finish_get(Err(HttpError::PageNotFound)),
        Err(HttpError::PageNotFound)
    ));
    assert!(matches!(
        client(WikipediaUrlType::Basic).finish_get(Err(HttpError::Timeout)),
        Err(HttpError::Timeout)
    ));
}

#[test]
fn a_random_page() {
    let client = WikipediaClient::from_config(
        WikipediaClientConfig::default().language(WikiLanguage::Latin),
    );
    let pending = client.random_page().unwrap();
    assert_eq!(
        pending.request.url,
        "https://la.wikipedia.org/w/api.php?action=query&format=json&list=random&rnnamespace=0&rnlimit=1&origin=*"
    );
    assert_eq!(pending.request.headers, vec![pair("user-agent", "wikipedia-graph/0.1.0")]);

    let text = r#"{"batchcomplete":"","query":{"random":[{"id":1,"ns":0,"title":"Whipped cream"},{"id":2,"ns":0,"title":"Other"}]}}"#;
    let page = WikipediaClient::finish_random_page(Ok(text.to_string())).unwrap();
    assert_eq!(page.pathinfo(), "Whipped_cream");
    assert!(!page.is_page_text_loaded());
    for text in [
        "{}",
        r#"{"query":{}}"#,
        r#"{"query":{"random":[]}}"#,
        r#"{"query":{"random":{"title":"A"}}}"#,
        r#"{"query":{"random":[{"id":1}]}}"#,
        r#"{"query":{"random":[{"title":1}]}}"#,
    ] {
        assert!(matches!(
            WikipediaClient::finish_random_page(Ok(text.to_string())),
            Err(HttpError::NoPageBody)
        ));
    }
    assert!(matches!(
        WikipediaClient::finish_random_page(Ok("not json".to_string())),
        Err(HttpError::DeserialisationError(message)) if message == "expected ident at line 1 column 2"
    ));
    assert!(matches!(
        WikipediaClient::finish_random_page(Err(HttpError::Unknown(500))),
        Err(HttpError::Unknown(500))
    ));
}

#[test]
fn the_test_of_the_network() {
    let pending = WikipediaClient::default().get_api_base();
    assert_eq!(pending.request.url, "https://en.wikipedia.org/w/api.php?origin=*");
    assert_eq!(pending.state.redirects_left(), 2);
    assert!(WikipediaClient::finish_api_base(Ok("anything".to_string())).is_ok());
    assert!(matches!(
        WikipediaClient::finish_api_base(Err(HttpError::Backend("offline".to_string()))),
        Err(HttpError::Backend(message)) if message == "offline"
    ));
}

#[test]
fn a_full_map_of_headers_takes_no_more() {
    let mut config = WikipediaClientConfig::empty();
    let mut taken = 0usize;
    let refused = loop {
        match config.add_header(&format!("x-header-{taken}"), "value") {
            Ok(next) => {
                config = next;
                taken += 1;
                assert!(taken <= 1 << 15, "the map of headers never fills");
            }
            Err(e) => break e,
        }
    };
    assert_eq!(refused, HeaderError::HeaderMapMaxSizeReached);
    assert!(taken >= wikipedia_graph::config::HEADER_ROOM);
}

#[test]
fn a_map_with_room_takes_every_header_that_fits() {
    let room = wikipedia_graph::config::HEADER_ROOM;
    assert_eq!(room, 3277);
    let headers: Vec<(String, String)> =
        (0..room - 2).map(|i| (format!("X-Header-{i}"), format!("value {i}"))).collect();
    let config = WikipediaClientConfig::new(&headers, WikiLanguage::Greek).unwrap();
    let pairs = sorted(config.header_pairs());
    assert_eq!(pairs.len(), room - 1);
    assert!(pairs.contains(&pair("user-agent", "wikipedia-graph/0.1.0")));
    assert!(pairs.contains(&pair("x-header-0", "value 0")));
    assert!(pairs.contains(&pair(&format!("x-header-{}", room - 3), &format!("value {}", room - 3))));
    let mut names: Vec<&String> = pairs.iter().map(|(name, _)| name).collect();
    names.dedup();
    assert_eq!(names.len(), pairs.len());

    // Names that crowd one another are taken as well.
    let mut config = WikipediaClientConfig::empty();
    for i in 0..room - 200 {
        config = config.add_header(&format!("a{}", "a".repeat(i % 97)), &i.to_string()).unwrap();
        config = config.add_header(&format!("h-{i}"), "v").unwrap_or_else(|_| panic!("{i}"));
    }
}

#[test]
fn a_page_is_loaded_by_a_fetch() {
    let client = WikipediaClient::from_config(
        WikipediaClientConfig::default().url_type(WikipediaUrlType::LinksApi),
    );
    let page = wikipedia_graph::WikipediaPage::from_title("Special:Random");
    let pending = page.load_page_text(&client).unwrap();
    assert_eq!(
        pending.request.url,
        "https://en.wikipedia.org/w/api.php?action=query&format=json&prop=links&pllimit=500&origin=*&titles=Special:Random"
    );
    let text = r#"{"query":{"pages":{"1":{"title":"Whipped cream","links":[{"title":"Cream"}]}}}}"#;
    let loaded = page.finish_load_page_text(&client, Ok(text.to_string())).unwrap();
    assert_eq!(loaded.pathinfo(), "Whipped_cream");
    assert!(loaded.is_page_text_loaded());
    assert!(!page.is_page_text_loaded());
    let untitled = page.finish_load_page_text(&client, Ok("{}".to_string())).unwrap();
    assert_eq!(untitled.pathinfo(), "Special:Random");
    assert!(untitled.is_page_text_loaded());
    assert!(matches!(
        page.finish_load_page_text(&client, Err(HttpError::TooManyRedirects)),
        Err(HttpError::TooManyRedirects)
    ));
    assert!(matches!(
        page.finish_load_page_text(&client, Ok("{".to_string())),
        Err(HttpError::DeserialisationError(_))
    ));
    assert_eq!(
        wikipedia_graph::WikipediaPage::random(&client).unwrap().request.url,
        client.random_page().unwrap().request.url
    );
}

#[test]
fn what_a_viewer_sets_at_first() {
    assert_eq!(wikipedia_graph::NodeEditor::default().page_title, "");
    assert!(wikipedia_graph::StyleSettings::default().labels);
}
