use wikipedia_graph::{
    PageUrl, WikiLanguage, WikipediaBody, WikipediaPage, WikipediaUrlError, WikipediaUrlType,
};

const MULTEKREM_LINKS: &str = r#"{"batchcomplete":"","query":{"pages":{"29195243":{"pageid":29195243,"ns":0,"title":"Multekrem","links":[{"ns":0,"title":"Norway"},{"ns":0,"title":"Dessert"},{"ns":0,"title":"Rubus chamaemorus"},{"ns":0,"title":"Whipped cream"},{"ns":0,"title":"Sugar"},{"ns":0,"title":"Norwegian cuisine"},{"ns":0,"title":"Dessert"},{"ns":0,"title":"Krumkake"},{"ns":0,"title":"Kransekake"},{"ns":0,"title":"List of Norwegian desserts"}]}}}}"#;

const LINKED_MULTEKREM_PAGES: [&str; 9] = [
    "https://wikipedia.org/wiki/Norway",
    "https://wikipedia.org/wiki/Dessert",
    "https://wikipedia.org/wiki/Rubus_chamaemorus",
    "https://wikipedia.org/wiki/Whipped_cream",
    "https://wikipedia.org/wiki/Sugar",
    "https://wikipedia.org/wiki/Norwegian_cuisine",
    "https://wikipedia.org/wiki/Krumkake",
    "https://wikipedia.org/wiki/Kransekake",
    "https://wikipedia.org/wiki/List_of_Norwegian_desserts",
];

fn multekrem_page() -> WikipediaPage {
    let mut page = WikipediaPage::from_title("Multekrem");
    assert!(!MULTEKREM_LINKS.is_empty(), "Failed to load multekrem page");
    page.set_page_body(
        WikipediaBody::links_from_text(MULTEKREM_LINKS).expect("Failed to parse multekrem page"),
    );
    page
}

fn multekrem_pages() -> Vec<WikipediaPage> {
    LINKED_MULTEKREM_PAGES
        .into_iter()
        .map(|url| WikipediaPage::try_from_url(PageUrl::parse(url).unwrap()).unwrap())
        .collect()
}

fn pathinfos(pages: &[WikipediaPage]) -> Vec<String> {
    pages.iter().map(|page| page.pathinfo().clone()).collect()
}

fn wikitext_body(wikitext: &str) -> WikipediaBody {
    let text = serde_json::Value::String(wikitext.to_string()).to_string();
    let document = format!(
        r#"{{"parse":{{"title":"Some page","pageid":1,"wikitext":{{"*":{}}}}}}}"#,
        text
    );
    WikipediaBody::wikitext_from_text(&document).unwrap()
}

#[test]
fn page_creation() {
    let url = PageUrl::parse("https://wikipedia.org/wiki/Waffle").unwrap();
    let page_1 = WikipediaPage::try_from_url(url).unwrap();
    let page_2 = WikipediaPage::try_from_path("/wiki/Waffle").unwrap();
    let page_3 = WikipediaPage::from_title("Waffle");
    assert_eq!(page_1.pathinfo(), page_2.pathinfo());
    assert_eq!(page_2.pathinfo(), page_3.pathinfo());
    assert_eq!(page_3.pathinfo(), "Waffle");
}

#[test]
fn linked_pages() {
    let page = multekrem_page();

    let linked_pages = page
        .try_get_linked_pages()
        .expect("Body failed to load (for some reason)");

    let multekrem_linked_pages = multekrem_pages();

    assert_eq!(linked_pages.len(), multekrem_linked_pages.len());
    linked_pages
        .into_iter()
        .zip(multekrem_linked_pages)
        .for_each(|(linked, known_linked)| {
            assert_eq!(
                linked.pathinfo().to_lowercase(),
                known_linked.pathinfo().to_lowercase()
            )
        });
}

#[test]
fn get_title() {
    let page = multekrem_page();

    assert_eq!(page.title().as_str(), "Multekrem")
}

#[test]
fn get_url() {
    let page = multekrem_page();

    assert_eq!(
        page.url_with_lang(WikiLanguage::from_code("en").expect("Language code 'en' is invalid"))
            .expect("Multekrem URL is invalid")
            .as_str(),
        "https://en.wikipedia.org/wiki/Multekrem"
    );
}

#[test]
fn page_is_loaded() {
    let mut page = multekrem_page();

    assert!(page.is_page_text_loaded());

    page.unload_body();

    assert!(!page.is_page_text_loaded());
    assert_eq!(page.pathinfo(), "Multekrem");
}

#[test]
fn links_payload_is_deduplicated_in_order_of_first_mention() {
    let linked = pathinfos(&multekrem_page().try_get_linked_pages().unwrap());
    assert_eq!(
        linked,
        vec![
            "Norway",
            "Dessert",
            "Rubus_chamaemorus",
            "Whipped_cream",
            "Sugar",
            "Norwegian_cuisine",
            "Krumkake",
            "Kransekake",
            "List_of_Norwegian_desserts",
        ]
    );
}

#[test]
fn links_payload_leaves_the_filtered_page_out() {
    let text = r#"{"query":{"pages":{"1":{"title":"A","links":[{"title":"Wayback Machine"},{"title":"B"},{"title":"Wayback_Machine"},{"ns":0},{"title":7},{"title":"B"}]}}}}"#;
    let body = WikipediaBody::links_from_text(text).unwrap();
    let linked = pathinfos(&body.get_linked_pages());
    assert_eq!(linked, vec!["B"]);
    assert!(body.get_linked_pages().iter().all(|page| !page.is_page_text_loaded()));
}

#[test]
fn links_payload_keeps_a_title_that_only_holds_the_filtered_title() {
    let text = r#"{"query":{"pages":{"1":{"title":"A","links":[{"title":"Wayback Machine X"},{"title":"Wayback Machine"},{"title":"History of the Wayback Machine"},{"title":"Wayback Machine (band)"},{"title":"Wayback Machine X"},{"title":"Internet Archive"}]}}}}"#;
    let body = WikipediaBody::links_from_text(text).unwrap();
    assert_eq!(
        pathinfos(&body.get_linked_pages()),
        vec![
            "Wayback_Machine_X",
            "History_of_the_Wayback_Machine",
            "Wayback_Machine_(band)",
            "Internet_Archive",
        ]
    );
    let value: serde_json::Value = serde_json::from_str(text).unwrap();
    assert_eq!(
        pathinfos(&WikipediaBody::get_linked_pages_from_links(&value)),
        pathinfos(&body.get_linked_pages())
    );
    // The same names as markup go, all but the one that does not hold the phrase.
    let wikitext = wikitext_body(
        "[[Wayback Machine X]] [[Wayback Machine]] [[History of the Wayback Machine]] \
         [[Wayback Machine (band)]] [[Internet Archive]] [[Sugar|the Wayback Machine]]",
    );
    assert_eq!(pathinfos(&wikitext.get_linked_pages()), vec!["Internet_Archive"]);
}

#[test]
fn linked_pages_are_empty_where_the_list_is_missing() {
    for text in [
        "{}",
        "[]",
        r#"{"query":{}}"#,
        r#"{"query":{"pages":{}}}"#,
        r#"{"query":{"pages":{"1":{"title":"A"}}}}"#,
        r#"{"query":{"pages":{"1":{"title":"A","links":"none"}}}}"#,
    ] {
        let links = WikipediaBody::links_from_text(text).unwrap();
        assert!(links.get_linked_pages().is_empty());
        let wikitext = WikipediaBody::wikitext_from_text(text).unwrap();
        assert!(wikitext.get_linked_pages().is_empty());
    }
    assert!(WikipediaPage::from_title("A").try_get_linked_pages().is_none());
}

#[test]
fn wikitext_links_are_found_deduplicated_and_filtered() {
    let body = wikitext_body(
        "'''Multekrem''' is a [[Norway|Norwegian]] [[dessert]] of [[Rubus chamaemorus]] and \
         [[whipped cream]]. See [[Norway]] and [[Dessert (course)|desserts]].<ref>[[Wayback \
         Machine]]</ref> [[Sugar|Wayback Machine]] [[Krumkake]] [[not a link]",
    );
    assert_eq!(
        pathinfos(&body.get_linked_pages()),
        vec![
            "Norway",
            "dessert",
            "Rubus_chamaemorus",
            "whipped_cream",
            "Dessert_(course)",
            "Krumkake",
        ]
    );
}

#[test]
fn a_filtered_first_mention_hides_later_mentions() {
    let body = wikitext_body("[[Sugar|Wayback Machine]] and [[Sugar]] and [[Salt]]");
    assert_eq!(pathinfos(&body.get_linked_pages()), vec!["Salt"]);
}

#[test]
fn title_is_title_case() {
    let page = WikipediaPage::from_title("list_of_norwegian_desserts");
    assert_eq!(page.pathinfo(), "list_of_norwegian_desserts");
    assert_eq!(page.title(), "List Of Norwegian Desserts");
}

#[test]
fn title_keeps_the_rest_of_each_word() {
    assert_eq!(WikipediaPage::from_title("rubus chamaemorus").title(), "Rubus Chamaemorus");
    assert_eq!(WikipediaPage::from_title("iPhone_(1st generation)").title(), "IPhone (1st Generation)");
    assert_eq!(WikipediaPage::from_title("McDonald's").title(), "McDonald's");
    assert_eq!(WikipediaPage::from_title("a*b").title(), "A*b");
    assert_eq!(WikipediaPage::from_title("").title(), "");
}

#[test]
fn title_resolves_escapes_and_trims() {
    assert_eq!(WikipediaPage::from_title("Cr%C3%A8me_br%C3%BBl%C3%A9e").title(), "Crème Brûlée");
    assert_eq!(WikipediaPage::from_title("ice+cream").title(), "Ice Cream");
    assert_eq!(WikipediaPage::from_title("__waffle__").title(), "Waffle");
    assert_eq!(WikipediaPage::from_title("a%5Fb").title(), "A B");
    assert_eq!(WikipediaPage::from_title("a__b").title(), "A B");
    assert_eq!(WikipediaPage::from_title("a%09%09b").title(), "A\tB");
    assert_eq!(WikipediaPage::from_title("%C3%A9clair").title(), "Éclair");
    assert_eq!(WikipediaPage::from_title("stra%C3%9Fe_%C3%9F").title(), "Straße S");
}

#[test]
fn from_title_writes_spaces_as_underscores() {
    let page = WikipediaPage::from_title("List of Norwegian desserts");
    assert_eq!(page.pathinfo(), "List_of_Norwegian_desserts");
    assert!(!page.is_page_text_loaded());
    assert!(page.try_get_body().is_none());
    assert!(page.try_get_page_body().is_none());
}

#[test]
fn path_must_lead_to_a_wiki() {
    assert_eq!(WikipediaPage::try_from_path("Waffle").unwrap().pathinfo(), "Waffle");
    assert_eq!(WikipediaPage::try_from_path("/wiki/Whipped cream").unwrap().pathinfo(), "Whipped%20cream");
    assert!(matches!(
        WikipediaPage::try_from_path("/w/Waffle"),
        Err(WikipediaUrlError::InvalidPath)
    ));
    assert!(matches!(
        WikipediaPage::try_from_path("https://example.org/wiki/Waffle"),
        Err(WikipediaUrlError::InvalidHost)
    ));
    assert!(matches!(
        WikipediaPage::try_from_path("ftp://wikipedia.org/wiki/Waffle"),
        Err(WikipediaUrlError::InvalidHost)
    ));
    assert!(matches!(
        WikipediaPage::try_from_path("http://[::1"),
        Err(WikipediaUrlError::InvalidURL(_))
    ));
}

#[test]
fn url_must_lead_to_a_wiki() {
    let page = |url: &str| WikipediaPage::try_from_url(PageUrl::parse(url).unwrap());
    assert_eq!(page("https://en.wikipedia.org/wiki/Waffle").unwrap().pathinfo(), "Waffle");
    assert_eq!(page("http://de.wikipedia.org/wiki/Waffel").unwrap().pathinfo(), "Waffel");
    assert_eq!(page("https://en.wikipedia.org/wiki/A/B").unwrap().pathinfo(), "A/B");
    assert!(matches!(page("https://example.org/wiki/Waffle"), Err(WikipediaUrlError::InvalidHost)));
    assert!(matches!(page("ftp://wikipedia.org/wiki/Waffle"), Err(WikipediaUrlError::InvalidHost)));
    assert!(matches!(page("mailto:someone@wikipedia.org"), Err(WikipediaUrlError::InvalidHost)));
    assert!(matches!(page("https://wikipedia.org/w/index.php"), Err(WikipediaUrlError::InvalidPath)));
    assert!(matches!(page("https://wikipedia.org"), Err(WikipediaUrlError::InvalidPath)));
    match PageUrl::parse("no url") {
        Err(WikipediaUrlError::InvalidURL(message)) => {
            assert_eq!(message, "relative URL without a base")
        }
        _ => panic!("a text without a scheme was read as a URL"),
    }
}

#[test]
fn body_gives_the_page_its_identity() {
    let mut page = WikipediaPage::from_title("Special:Random");
    page.set_page_body(WikipediaBody::links_from_text(MULTEKREM_LINKS).unwrap());
    assert_eq!(page.pathinfo(), "Multekrem");
    assert!(page.is_page_text_loaded());

    let mut page = WikipediaPage::from_title("Special:Random");
    page.set_page_body(
        WikipediaBody::wikitext_from_text(r#"{"parse":{"title":"Whipped cream","wikitext":{"*":""}}}"#)
            .unwrap(),
    );
    assert_eq!(page.pathinfo(), "Whipped_cream");
}

#[test]
fn body_without_title_leaves_the_identity() {
    let mut page = WikipediaPage::from_title("Waffle");
    page.set_page_body(WikipediaBody::links_from_text(r#"{"error":{"code":"missingtitle"}}"#).unwrap());
    assert_eq!(page.pathinfo(), "Waffle");
    assert!(page.is_page_text_loaded());

    let page = WikipediaPage::from_title("Waffle")
        .with_body(WikipediaBody::links_from_text(MULTEKREM_LINKS).unwrap());
    assert_eq!(page.pathinfo(), "Waffle");
    assert!(page.is_page_text_loaded());
}

#[test]
fn identity_is_read_from_both_forms() {
    let links = WikipediaBody::links_from_text(MULTEKREM_LINKS).unwrap();
    assert_eq!(links.get_pathinfo().unwrap(), "Multekrem");
    let wikitext = wikitext_body("");
    assert_eq!(wikitext.get_pathinfo().unwrap(), "Some_page");
    let value: serde_json::Value =
        serde_json::from_str(r#"{"query":{"pages":{"7":{"title":"Z z"},"3":{"title":"A a"}}}}"#).unwrap();
    assert_eq!(WikipediaBody::get_pathinfo_from_links(&value).unwrap(), "A_a");
    assert!(WikipediaBody::get_pathinfo_from_wikitext(&value).is_err());
    for text in ["{}", "[1,2]", r#"{"query":{"pages":[]}}"#, r#"{"query":{"pages":{"1":{"title":5}}}}"#, r#""text""#] {
        assert!(WikipediaBody::links_from_text(text).unwrap().get_pathinfo().is_err());
        assert!(WikipediaBody::wikitext_from_text(text).unwrap().get_pathinfo().is_err());
    }
}

#[test]
fn a_page_as_readers_see_it_is_no_body() {
    for text in ["", "{}", "<html></html>", MULTEKREM_LINKS, "null", "[[Waffle]]"] {
        let error = WikipediaBody::from_url_type(WikipediaUrlType::Basic, text.to_string())
            .expect_err("a page was read as a body");
        assert_eq!(error.message, "Can't deserialize links from the Normal Request Type");
    }
}

#[test]
fn a_response_is_read_by_its_kind() {
    let links = WikipediaBody::from_url_type(WikipediaUrlType::LinksApi, MULTEKREM_LINKS.to_string());
    assert!(matches!(links, Ok(WikipediaBody::Links(_))));
    let wikitext = WikipediaBody::from_url_type(WikipediaUrlType::RawApi, MULTEKREM_LINKS.to_string());
    assert!(matches!(wikitext, Ok(WikipediaBody::WikiText(_))));
    for kind in [WikipediaUrlType::LinksApi, WikipediaUrlType::RawApi] {
        let error = WikipediaBody::from_url_type(kind, "{\"query\":".to_string()).unwrap_err();
        assert_eq!(error.message, "EOF while parsing a value at line 1 column 9");
    }
    assert!(WikipediaBody::links_from_text("<html>").is_err());
    assert!(WikipediaBody::wikitext_from_text("").is_err());
}

#[test]
fn body_is_printed_as_json() {
    let body = WikipediaBody::links_from_text(r#" { "query" : { "pages" : [ 1 , 2.5 , "x" , null , true ] } } "#).unwrap();
    let copy = body.clone();
    assert_eq!(body.to_string(), r#"{"query":{"pages":[1,2.5,"x",null,true]}}"#);
    assert_eq!(copy.to_string(), r#"{"query":{"pages":[1,2.5,"x",null,true]}}"#);
}

#[test]
fn copies_of_a_page_hold_the_same() {
    let page = multekrem_page();
    let copy = page.clone();
    assert_eq!(copy.pathinfo(), page.pathinfo());
    assert_eq!(
        copy.try_get_page_body().unwrap().to_string(),
        page.try_get_body().as_ref().unwrap().clone().to_string()
    );
    assert_eq!(pathinfos(&copy.try_get_linked_pages().unwrap()).len(), 9);
}
