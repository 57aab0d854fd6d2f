use wikipedia_graph::{
    new_graph, update_nodes_from_store, ExpansionError, HttpError, NodeAction, PageGraph, PageUrl,
    WikipediaBody, WikipediaGraph, WikipediaPage,
};

const MULTEKREM_LINKS: &str = r#"{"batchcomplete":"","query":{"pages":{"29195243":{"pageid":29195243,"ns":0,"title":"Multekrem","links":[{"ns":0,"title":"Norway"},{"ns":0,"title":"Dessert"},{"ns":0,"title":"Rubus chamaemorus"},{"ns":0,"title":"Whipped cream"},{"ns":0,"title":"Sugar"},{"ns":0,"title":"Norwegian cuisine"},{"ns":0,"title":"Dessert"},{"ns":0,"title":"Krumkake"},{"ns":0,"title":"Kransekake"},{"ns":0,"title":"List of Norwegian desserts"}]}}}}"#;

const LINKED_MULTEKREM_PAGES: [&str; 9] = [
    "https://wikipedia.org/wiki/Norway",
    "https://wikipedia.org/wiki/Dessert",
    "https://wikipedia.org/wiki/Rubus_chamaemorus",
    "https://wikipedia.org/wiki/Whipped_cream",
    "https://wikipedia.org/wiki/Sugar",
    "https://wikipedia.org/wiki/Norwegian_cuisine",
    "https://wikipedia.org/wiki/Krumkake",
    "https://wikipedia.org/wiki/Kransekake",
    "https://wikipedia.org/wiki/List_of_Norwegian_desserts",
];

fn multekrem_page() -> WikipediaPage {
    let mut page = WikipediaPage::from_title("Multekrem");
    page.set_page_body(
        WikipediaBody::links_from_text(MULTEKREM_LINKS).expect("Failed to parse multekrem page"),
    );
    page
}

fn multekrem_pages() -> Vec<WikipediaPage> {
    LINKED_MULTEKREM_PAGES
        .into_iter()
        .map(|url| WikipediaPage::try_from_url(PageUrl::parse(url).unwrap()).unwrap())
        .collect()
}

fn page_linking_to(title: &str, links: &[&str]) -> WikipediaPage {
    let links: Vec<String> = links
        .iter()
        .map(|link| format!(r#"{{"ns":0,"title":{}}}"#, serde_json::Value::String(link.to_string())))
        .collect();
    let text = format!(
        r#"{{"query":{{"pages":{{"1":{{"title":{},"links":[{}]}}}}}}}}"#,
        serde_json::Value::String(title.to_string()),
        links.join(",")
    );
    let mut page = WikipediaPage::from_title(title);
    page.set_page_body(WikipediaBody::links_from_text(&text).unwrap());
    page
}

fn pathinfos(graph: &PageGraph) -> Vec<String> {
    graph.node_weights().map(|page| page.pathinfo().clone()).collect()
}

fn edges(graph: &PageGraph) -> Vec<(usize, usize)> {
    let mut edges: Vec<(usize, usize)> = graph
        .edge_indices()
        .map(|edge| graph.edge_endpoints(edge).unwrap())
        .map(|(from, to)| (from.index(), to.index()))
        .collect();
    edges.sort();
    edges
}

#[test]
fn expand_nodes() {
    let mut graph: PageGraph = petgraph::stable_graph::StableGraph::default();

    let multekrem_index = graph.add_node(multekrem_page()).index();

    let connected = graph
        .try_expand_node(multekrem_index)
        .expect("Multekrem node does not exist");

    assert_eq!(connected.len(), multekrem_pages().len());
    connected
        .iter()
        .map(|idx| {
            WikipediaGraph::node_weight(&graph, *idx)
                .expect("Page expansion returned and invalid index")
        })
        .zip(multekrem_pages())
        .for_each(|(known, node)| assert_eq!(known.pathinfo(), node.pathinfo()));
}

#[test]
fn double_expand_nodes() {
    let mut graph_1: PageGraph = petgraph::stable_graph::StableGraph::default();

    let multekrem_index = graph_1.add_node(multekrem_page()).index();

    let connected_1 = graph_1
        .try_expand_node(multekrem_index)
        .expect("Multekrem node does not exist");

    let mut graph_2 = graph_1.clone();

    let connected_2 = graph_2
        .try_expand_node(multekrem_index)
        .expect("Multekrem node does not exist");

    assert_eq!(connected_1.len(), 9);
    assert_eq!(connected_2, Vec::<usize>::new());

    assert!(graph_1.edge_weights().eq(graph_2.edge_weights()));
    assert_eq!(graph_1.edge_count(), graph_2.edge_count());
    assert_eq!(edges(&graph_1), edges(&graph_2));
    assert!(
        graph_1
            .node_weights()
            .map(|weight| weight.pathinfo())
            .eq(graph_2.node_weights().map(|wieght| wieght.pathinfo()))
    )
}

#[test]
fn expansion_makes_a_node_and_an_edge_for_each_link() {
    let mut graph = new_graph();
    let root = WikipediaGraph::add_node(&mut graph, multekrem_page());
    assert_eq!(root, 0);
    let new = graph.try_expand_node(root).unwrap();
    assert_eq!(new, vec![1, 2, 3, 4, 5, 6, 7, 8, 9]);
    assert_eq!(
        pathinfos(&graph),
        vec![
            "Multekrem",
            "Norway",
            "Dessert",
            "Rubus_chamaemorus",
            "Whipped_cream",
            "Sugar",
            "Norwegian_cuisine",
            "Krumkake",
            "Kransekake",
            "List_of_Norwegian_desserts",
        ]
    );
    assert_eq!(edges(&graph), (1..=9).map(|to| (0, to)).collect::<Vec<_>>());
    assert!(new.iter().all(|index| !WikipediaGraph::node_weight(&graph, *index).unwrap().is_page_text_loaded()));
    for to in 1..=9 {
        assert!(graph.edge_exists(0, to));
        assert!(!graph.edge_exists(to, 0));
    }
    assert!(!graph.edge_exists(0, 0));
    assert!(!graph.edge_exists(0, 10));
}

#[test]
fn expansion_needs_a_node_with_a_loaded_page() {
    let mut graph = new_graph();
    assert_eq!(graph.try_expand_node(0), Err(ExpansionError::NodeNotFound));
    let unloaded = WikipediaGraph::add_node(&mut graph, WikipediaPage::from_title("Waffle"));
    assert_eq!(graph.try_expand_node(unloaded), Err(ExpansionError::PageNotLoaded));
    assert_eq!(graph.try_expand_node(unloaded + 1), Err(ExpansionError::NodeNotFound));
    assert_eq!(graph.try_expand_node(usize::MAX), Err(ExpansionError::NodeNotFound));
    assert_eq!(graph.node_count(), 1);
    assert_eq!(graph.edge_count(), 0);
}

#[test]
fn a_link_to_a_page_of_the_graph_makes_no_node() {
    let mut graph = new_graph();
    let sugar = WikipediaGraph::add_node(&mut graph, WikipediaPage::from_title("Sugar"));
    let root = WikipediaGraph::add_node(&mut graph, page_linking_to("Waffle", &["Sugar", "Butter", "Sugar"]));
    let double = WikipediaGraph::add_node(&mut graph, WikipediaPage::from_title("Sugar"));
    let new = graph.try_expand_node(root).unwrap();
    assert_eq!(new.len(), 1);
    assert_eq!(WikipediaGraph::node_weight(&graph, new[0]).unwrap().pathinfo(), "Butter");
    assert_eq!(edges(&graph), vec![(root, sugar), (root, new[0])]);
    assert!(!graph.edge_exists(root, double));
    assert_eq!(graph.node_count(), 4);
}

#[test]
fn an_edge_that_is_there_is_not_added_again() {
    let mut graph = new_graph();
    let sugar = WikipediaGraph::add_node(&mut graph, WikipediaPage::from_title("Sugar"));
    let root = WikipediaGraph::add_node(&mut graph, page_linking_to("Waffle", &["Sugar"]));
    WikipediaGraph::add_edge(&mut graph, root, sugar);
    WikipediaGraph::add_edge(&mut graph, root, sugar);
    WikipediaGraph::add_edge(&mut graph, sugar, root);
    assert_eq!(graph.try_expand_node(root).unwrap(), Vec::<usize>::new());
    assert_eq!(edges(&graph), vec![(sugar, root), (root, sugar), (root, sugar)]);
}

#[test]
fn a_page_that_links_to_itself_gets_no_edge_to_itself() {
    let mut graph = new_graph();
    let root = WikipediaGraph::add_node(&mut graph, page_linking_to("Waffle", &["Waffle", "Sugar"]));
    let new = graph.try_expand_node(root).unwrap();
    assert_eq!(new.len(), 1);
    assert_eq!(edges(&graph), vec![(root, new[0])]);
    assert!(!graph.edge_exists(root, root));
    assert_eq!(graph.try_expand_node(root).unwrap(), Vec::<usize>::new());
    assert_eq!(edges(&graph), vec![(root, new[0])]);
}

#[test]
fn nodes_are_listed_by_rising_index_and_found_by_identity() {
    let mut graph = new_graph();
    let a = WikipediaGraph::add_node(&mut graph, WikipediaPage::from_title("A"));
    let b = WikipediaGraph::add_node(&mut graph, WikipediaPage::from_title("B"));
    let c = WikipediaGraph::add_node(&mut graph, WikipediaPage::from_title("A"));
    graph.remove_node(petgraph::stable_graph::NodeIndex::new(a));
    let d = WikipediaGraph::add_node(&mut graph, WikipediaPage::from_title("D"));
    assert_eq!(d, a);
    let listed: Vec<(String, usize)> = graph
        .node_indicies()
        .into_iter()
        .map(|(page, index)| (page.pathinfo().clone(), index))
        .collect();
    assert_eq!(
        listed,
        vec![("D".to_string(), a), ("B".to_string(), b), ("A".to_string(), c)]
    );
    let owned: Vec<(String, usize)> = graph
        .node_indicies_owned()
        .into_iter()
        .map(|(page, index)| (page.pathinfo().clone(), index))
        .collect();
    assert_eq!(owned, listed);
    let weights: Vec<String> =
        WikipediaGraph::node_weights(&graph).into_iter().map(|page| page.pathinfo().clone()).collect();
    assert_eq!(weights, vec!["D", "B", "A"]);
    assert_eq!(graph.node_exists_with_value(&WikipediaPage::from_title("A")), Some(c));
    assert_eq!(graph.node_exists_with_value(&WikipediaPage::from_title("a")), None);
    let twin = WikipediaGraph::add_node(&mut graph, WikipediaPage::from_title("B"));
    assert!(twin > b);
    assert_eq!(graph.node_exists_with_value(&WikipediaPage::from_title("B")), Some(b));
    assert!(WikipediaGraph::node_weight(&graph, 99).is_none());
}

#[test]
fn a_page_is_changed_in_place() {
    let mut graph = new_graph();
    let index = WikipediaGraph::add_node(&mut graph, WikipediaPage::from_title("Special:Random"));
    WikipediaGraph::node_weight_mut(&mut graph, index)
        .unwrap()
        .set_page_body(WikipediaBody::links_from_text(MULTEKREM_LINKS).unwrap());
    assert_eq!(WikipediaGraph::node_weight(&graph, index).unwrap().pathinfo(), "Multekrem");
    assert!(WikipediaGraph::node_weight_mut(&mut graph, index + 1).is_none());
    assert!(wikipedia_graph::graph::replace_page(&mut graph, index, WikipediaPage::from_title("Waffle")));
    assert!(!wikipedia_graph::graph::replace_page(&mut graph, index + 1, WikipediaPage::from_title("Waffle")));
    assert_eq!(pathinfos(&graph), vec!["Waffle"]);
}

#[test]
fn stored_outcomes_are_put_into_the_graph_in_turn() {
    let mut graph = new_graph();
    let waffle = WikipediaGraph::add_node(&mut graph, WikipediaPage::from_title("Waffle"));
    let sugar = WikipediaGraph::add_node(&mut graph, WikipediaPage::from_title("Sugar"));
    let salt = WikipediaGraph::add_node(&mut graph, WikipediaPage::from_title("Salt"));
    let store = vec![
        (sugar, Ok(page_linking_to("Sugar", &["Salt", "Sugarcane"])), NodeAction::Nothing),
        (waffle, Err(HttpError::Timeout), NodeAction::Expand),
        (99, Ok(page_linking_to("Lost", &["Gone"])), NodeAction::Expand),
        (waffle, Ok(page_linking_to("Waffle", &["Sugar", "Butter", "Waffle"])), NodeAction::Expand),
        (salt, Ok(WikipediaPage::from_title("Salt")), NodeAction::Expand),
        (sugar, Ok(page_linking_to("Sugar", &["Salt", "Butter"])), NodeAction::Expand),
    ];
    let made = update_nodes_from_store(&mut graph, store);
    let butter = 3;
    assert_eq!(made, vec![(waffle, vec![butter]), (sugar, vec![])]);
    assert_eq!(pathinfos(&graph), vec!["Waffle", "Sugar", "Salt", "Butter"]);
    assert_eq!(edges(&graph), vec![(waffle, sugar), (waffle, butter), (sugar, salt), (sugar, butter)]);
    assert!(WikipediaGraph::node_weight(&graph, waffle).unwrap().is_page_text_loaded());
    assert!(WikipediaGraph::node_weight(&graph, sugar).unwrap().is_page_text_loaded());
    assert!(!WikipediaGraph::node_weight(&graph, salt).unwrap().is_page_text_loaded());
    assert!(update_nodes_from_store(&mut graph, Vec::new()).is_empty());
}

#[test]
fn a_node_is_found_or_made_for_a_page() {
    let mut graph = new_graph();
    assert_eq!(graph.find_or_add_node(WikipediaPage::from_title("Waffle")), (0, true));
    assert_eq!(graph.find_or_add_node(WikipediaPage::from_title("Sugar")), (1, true));
    assert_eq!(graph.find_or_add_node(WikipediaPage::from_title("Waffle")), (0, false));
    assert_eq!(graph.find_or_add_node(multekrem_page()), (2, true));
    assert_eq!(graph.find_or_add_node(WikipediaPage::from_title("Multekrem")), (2, false));
    assert!(WikipediaGraph::node_weight(&graph, 2).unwrap().is_page_text_loaded());
    assert_eq!(pathinfos(&graph), vec!["Waffle", "Sugar", "Multekrem"]);
    assert_eq!(graph.edge_count(), 0);
}

#[test]
fn the_neighbours_of_a_node() {
    let mut graph = new_graph();
    let a = WikipediaGraph::add_node(&mut graph, WikipediaPage::from_title("A"));
    let b = WikipediaGraph::add_node(&mut graph, WikipediaPage::from_title("B"));
    let c = WikipediaGraph::add_node(&mut graph, WikipediaPage::from_title("C"));
    let d = WikipediaGraph::add_node(&mut graph, WikipediaPage::from_title("D"));
    WikipediaGraph::add_edge(&mut graph, a, d);
    WikipediaGraph::add_edge(&mut graph, a, b);
    WikipediaGraph::add_edge(&mut graph, a, b);
    WikipediaGraph::add_edge(&mut graph, c, a);
    WikipediaGraph::add_edge(&mut graph, a, a);
    assert_eq!(graph.connected_nodes(a, false), vec![a, b, d]);
    assert_eq!(graph.connected_nodes(a, true), vec![a, c]);
    assert_eq!(graph.connected_nodes(b, false), Vec::<usize>::new());
    assert_eq!(graph.connected_nodes(b, true), vec![a]);
    assert_eq!(graph.connected_nodes(99, false), Vec::<usize>::new());
}

#[test]
fn a_new_node_has_no_edges_even_under_an_index_used_before() {
    let mut graph = new_graph();
    let a = WikipediaGraph::add_node(&mut graph, WikipediaPage::from_title("A"));
    let b = WikipediaGraph::add_node(&mut graph, WikipediaPage::from_title("B"));
    let c = WikipediaGraph::add_node(&mut graph, WikipediaPage::from_title("C"));
    WikipediaGraph::add_edge(&mut graph, a, b);
    WikipediaGraph::add_edge(&mut graph, b, c);
    WikipediaGraph::add_edge(&mut graph, b, b);
    WikipediaGraph::add_edge(&mut graph, c, b);
    graph.remove_node(petgraph::stable_graph::NodeIndex::new(b));
    assert_eq!(edges(&graph), vec![]);
    let again = WikipediaGraph::add_node(&mut graph, page_linking_to("B", &["A", "C", "D"]));
    assert_eq!(again, b);
    for other in 0..5 {
        assert!(!graph.edge_exists(again, other));
        assert!(!graph.edge_exists(other, again));
    }
    let new = graph.try_expand_node(again).unwrap();
    assert_eq!(new.len(), 1);
    assert_eq!(edges(&graph), vec![(again, a), (again, c), (again, new[0])]);
}
