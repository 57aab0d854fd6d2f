use regex::Regex;
use wikipedia_graph::links::{scan_links, select_links, LinkFilter};

const PAGE_TEXT_PATTERN: &str = r#"\[\[([a-zA-Z0-9 \(\)]+)(?:[|][a-zA-Z0-9 \(\)]+)?\]\]"#;

fn by_pattern(text: &str) -> Vec<(String, String)> {
    Regex::new(PAGE_TEXT_PATTERN)
        .unwrap()
        .captures_iter(text)
        .map(|capture| capture.extract::<1>())
        .map(|(whole, [target])| (whole.to_string(), target.to_string()))
        .collect()
}

fn found_as_by_pattern(text: &str) {
    assert_eq!(scan_links(text), by_pattern(text), "in {:?}", text);
}

fn pair(whole: &str, target: &str) -> (String, String) {
    (whole.to_string(), target.to_string())
}

#[test]
fn plain_and_labelled_links_are_found() {
    assert_eq!(
        scan_links("a [[Waffle]] and a [[Whipped cream|cream]] on [[Norway (country)]]."),
        vec![
            pair("[[Waffle]]", "Waffle"),
            pair("[[Whipped cream|cream]]", "Whipped cream"),
            pair("[[Norway (country)]]", "Norway (country)"),
        ]
    );
}

#[test]
fn what_is_no_link_is_passed_over() {
    assert_eq!(scan_links(""), vec![]);
    assert_eq!(scan_links("no links here"), vec![]);
    assert_eq!(scan_links("[[]]"), vec![]);
    assert_eq!(scan_links("[[A|]]"), vec![]);
    assert_eq!(scan_links("[[|A]]"), vec![]);
    assert_eq!(scan_links("[[A]"), vec![]);
    assert_eq!(scan_links("[[A|B|C]]"), vec![]);
    assert_eq!(scan_links("[[File:A.png]]"), vec![]);
    assert_eq!(scan_links("[[Crème]]"), vec![]);
    assert_eq!(scan_links("[[A_B]]"), vec![]);
    assert_eq!(scan_links("[[A\nB]]"), vec![]);
    assert_eq!(scan_links("[[A"), vec![]);
    assert_eq!(scan_links("[["), vec![]);
    assert_eq!(scan_links("["), vec![]);
}

#[test]
fn the_leftmost_link_is_taken_first() {
    assert_eq!(scan_links("[[[[A]]]]"), vec![pair("[[A]]", "A")]);
    assert_eq!(scan_links("[[[A]]"), vec![pair("[[A]]", "A")]);
    assert_eq!(scan_links("[[A]][[B]]"), vec![pair("[[A]]", "A"), pair("[[B]]", "B")]);
    assert_eq!(scan_links("[[A|[[B]]"), vec![pair("[[B]]", "B")]);
    assert_eq!(scan_links("[[A[[B|c]]]]"), vec![pair("[[B|c]]", "B")]);
    assert_eq!(scan_links("é[[A]]é"), vec![pair("[[A]]", "A")]);
    assert_eq!(scan_links("[[ ]]"), vec![pair("[[ ]]", " ")]);
    assert_eq!(scan_links("[[)(|)(]]"), vec![pair("[[)(|)(]]", ")(")]);
}

#[test]
fn the_scanner_finds_what_the_pattern_finds() {
    let alphabet = ['[', ']', '|', 'a', 'Z', '0', ' ', '(', ')', '_', 'é', '\n'];
    let mut state: u64 = 0x2545F4914F6CDD1D;
    for round in 0..4000 {
        let mut text = String::new();
        let length = round % 24;
        for _ in 0..length {
            state ^= state << 13;
            state ^= state >> 7;
            state ^= state << 17;
            let pick = (state % 24) as usize;
            // The brackets and the bar come more often than the rest.
            let c = match pick {
                0..=5 => '[',
                6..=11 => ']',
                12..=13 => '|',
                _ => alphabet[pick % alphabet.len()],
            };
            text.push(c);
        }
        found_as_by_pattern(&text);
    }
    for text in [
        "[[a]]",
        "[[a|b]]",
        "[[a]] [[a|b]] [[c]]",
        "x[[a|b]]y[[c|d]]z",
        "[[a|b]]]]",
        "[[a]]|b]]",
        "[[a|b|c]] [[d]]",
        "[[[[a|b]]",
        "[[a [[b]] c]]",
        "[[Wayback Machine|archive]]",
    ] {
        found_as_by_pattern(text);
    }
}

#[test]
fn of_equal_targets_the_first_is_kept() {
    let candidates = vec![
        pair("[[A b]]", "A b"),
        pair("[[C]]", "C"),
        pair("[[A b|again]]", "A b"),
        pair("[[A_b]]", "A_b"),
        pair("[[D]]", "D"),
        pair("[[C|c]]", "C"),
    ];
    assert_eq!(select_links(&candidates, LinkFilter::Markup), vec!["A_b", "C", "D"]);
    assert_eq!(select_links(&candidates, LinkFilter::Title), vec!["A_b", "C", "D"]);
    assert_eq!(select_links(&Vec::new(), LinkFilter::Markup), Vec::<String>::new());
    assert_eq!(select_links(&Vec::new(), LinkFilter::Title), Vec::<String>::new());
}

#[test]
fn a_context_that_names_the_filtered_page_is_dropped() {
    let candidates = vec![
        pair("[[Wayback Machine]]", "Wayback Machine"),
        pair("[[A|Wayback Machine]]", "A"),
        pair("[[B]]", "B"),
        pair("[[A]]", "A"),
        pair("Wayback_Machine", "Wayback_Machine"),
        pair("[[The Wayback Machine (film)]]", "The Wayback Machine (film)"),
        pair("[[Wayback machine]]", "Wayback machine"),
    ];
    assert_eq!(select_links(&candidates, LinkFilter::Markup), vec!["B", "Wayback_machine"]);
}

#[test]
fn a_title_goes_only_where_it_is_the_filtered_page() {
    let title = |title: &str| pair(title, title);
    let candidates = vec![
        title("Wayback Machine X"),
        title("Wayback Machine"),
        title("The Wayback Machine (film)"),
        title("B"),
        title("Wayback_Machine"),
        title("Wayback Machine X"),
        title("Wayback machine"),
        title("Wayback  Machine"),
        title(" Wayback Machine"),
    ];
    assert_eq!(
        select_links(&candidates, LinkFilter::Title),
        vec![
            "Wayback_Machine_X",
            "The_Wayback_Machine_(film)",
            "B",
            "Wayback_machine",
            "Wayback__Machine",
            "_Wayback_Machine",
        ]
    );
    assert_eq!(select_links(&candidates, LinkFilter::Markup), vec!["B", "Wayback_machine", "Wayback__Machine"]);
    assert_eq!(select_links(&vec![title("Wayback Machine")], LinkFilter::Title), Vec::<String>::new());
    assert_eq!(select_links(&vec![title("Wayback Machine X")], LinkFilter::Title), vec!["Wayback_Machine_X"]);
}
