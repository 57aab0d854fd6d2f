//! The graph of pages, and how a page's links become nodes and edges of it.
//!
//! The graph is any store of pages that offers the operations of
//! `WikipediaGraph`; the library has them for the `StableGraph` of the
//! `petgraph` crate. What such a graph holds is named by `graph_pages` and
//! `graph_edges`, and each of the crate's functions that the library calls is
//! stated over those two names.

use crate::page::{
    lemma_linked_pages_are_distinct_and_unfiltered, pathinfos, unloaded, PageView, WikipediaPage,
};
use petgraph::stable_graph::{NodeIndex, StableGraph};
use petgraph::Directed;
use vstd::multiset::Multiset;
use vstd::prelude::*;

verus! {

/// `petgraph::stable_graph::StableGraph`, a graph whose indices stay as they
/// are when nodes are removed.
#[verifier::external_type_specification]
#[verifier::external_body]
#[verifier::reject_recursive_types(N)]
#[verifier::reject_recursive_types(E)]
#[verifier::reject_recursive_types(Ty)]
#[verifier::reject_recursive_types(Ix)]
pub struct ExStableGraph<N, E, Ty, Ix>(StableGraph<N, E, Ty, Ix>);

/// `petgraph::Directed`, the mark of a graph whose edges have a direction.
#[verifier::external_type_specification]
#[verifier::external_body]
pub struct ExDirected(Directed);

/// The type by which the nodes of a graph are told apart.
pub type DefaultIndexType = usize;

/// A directed graph of pages with nodes numbered by `usize`: with such indices
/// the graph never runs out of them.
pub type PageGraph = StableGraph<WikipediaPage, (), Directed, usize>;

/// The nodes of `graph`: under each index that is in use, what its page holds.
pub uninterp spec fn graph_pages(graph: PageGraph) -> Map<usize, PageView>;

/// The edges of `graph`, each as often as it was added: from the first index
/// to the second.
pub uninterp spec fn graph_edges(graph: PageGraph) -> Multiset<(usize, usize)>;

/// Whether `nodes` lists the nodes of `pages`: each once, by rising index.
pub open spec fn lists_nodes(nodes: Seq<(&WikipediaPage, usize)>, pages: Map<usize, PageView>) -> bool {
    &&& forall|k: int|
        0 <= k < nodes.len() ==> pages.contains_key((#[trigger] nodes[k]).1) && nodes[k].0@
            == pages[nodes[k].1]
    &&& forall|i: int, j: int| 0 <= i < j < nodes.len() ==> (#[trigger] nodes[i]).1 < (#[trigger] nodes[j]).1
    &&& forall|index: usize| #[trigger]
        pages.contains_key(index) ==> exists|k: int| 0 <= k < nodes.len() && (#[trigger] nodes[k]).1 == index
}

/// `StableGraph::default`: a graph without nodes and edges.
#[verifier::external_body]
fn stable_new() -> (r: PageGraph)
    ensures
        graph_pages(r) == (Map::<usize, PageView>::empty()),
        graph_edges(r) == (Multiset::<(usize, usize)>::empty()),
{
    StableGraph::default()
}

/// `StableGraph::add_node`: the page becomes a node under an index that was
/// not in use, so that no edge leads to it or from it; nothing else changes.
#[verifier::external_body]
fn stable_add_node(graph: &mut PageGraph, page: WikipediaPage) -> (index: usize)
    ensures
        !graph_pages(*old(graph)).contains_key(index),
        untouched(graph_edges(*old(graph)), index),
        graph_pages(*final(graph)) == graph_pages(*old(graph)).insert(index, page@),
        graph_edges(*final(graph)) == graph_edges(*old(graph)),
{
    graph.add_node(page).index()
}

/// `StableGraph::add_edge` between two nodes of the graph: one more edge from
/// the first to the second; nothing else changes.
#[verifier::external_body]
fn stable_add_edge(graph: &mut PageGraph, from: usize, to: usize)
    requires
        graph_pages(*old(graph)).contains_key(from),
        graph_pages(*old(graph)).contains_key(to),
    ensures
        graph_pages(*final(graph)) == graph_pages(*old(graph)),
        graph_edges(*final(graph)) == graph_edges(*old(graph)).insert((from, to)),
{
    graph.add_edge(NodeIndex::new(from), NodeIndex::new(to), ());
}

/// `StableGraph::node_weight`: the page under `index`, if that index is in use.
#[verifier::external_body]
fn stable_node_weight(graph: &PageGraph, index: usize) -> (r: Option<&WikipediaPage>)
    ensures
        r is Some == graph_pages(*graph).contains_key(index),
        r is Some ==> r.unwrap()@ == graph_pages(*graph)[index],
{
    graph.node_weight(NodeIndex::new(index))
}

/// `StableGraph::node_weight_mut`: the page under `index` to be changed in
/// place, if that index is in use. The node holds whatever the page is left
/// as; nothing else changes.
#[verifier::external_body]
fn stable_node_weight_mut(graph: &mut PageGraph, index: usize) -> (r: Option<&mut WikipediaPage>)
    ensures
        r is Some == graph_pages(*old(graph)).contains_key(index),
        r matches Some(page) ==> (*page)@ == graph_pages(*old(graph))[index] && graph_pages(
            *final(graph),
        ) == graph_pages(*old(graph)).insert(index, (*final(page))@),
        r is None ==> graph_pages(*final(graph)) == graph_pages(*old(graph)),
        graph_edges(*final(graph)) == graph_edges(*old(graph)),
{
    graph.node_weight_mut(NodeIndex::new(index))
}

/// `StableGraph::node_weights` beside `StableGraph::node_indices`: every node
/// with its index, by rising index.
#[verifier::external_body]
fn stable_node_indicies(graph: &PageGraph) -> (r: Vec<(&WikipediaPage, usize)>)
    ensures
        lists_nodes(r@, graph_pages(*graph)),
{
    graph.node_weights().zip(graph.node_indices().map(|index| index.index())).collect()
}

/// `StableGraph::contains_edge`: whether an edge leads from `from` to `to`.
#[verifier::external_body]
fn stable_contains_edge(graph: &PageGraph, from: usize, to: usize) -> (r: bool)
    ensures
        r == (graph_edges(*graph).count((from, to)) > 0),
{
    graph.contains_edge(NodeIndex::new(from), NodeIndex::new(to))
}

/// Whether no edge of `edges` begins or ends at `index`.
pub open spec fn untouched(edges: Multiset<(usize, usize)>, index: usize) -> bool {
    forall|other: usize|
        #![trigger edges.count((index, other))]
        #![trigger edges.count((other, index))]
        edges.count((index, other)) == 0 && edges.count((other, index)) == 0
}

/// Whether an edge joins `index` and `node`: from `index` to `node`, or, with
/// `incoming`, from `node` to `index`.
pub open spec fn connects(
    edges: Multiset<(usize, usize)>,
    index: usize,
    node: usize,
    incoming: bool,
) -> bool {
    if incoming {
        edges.count((node, index)) > 0
    } else {
        edges.count((index, node)) > 0
    }
}

/// Whether a node of `pages` has the identity `pathinfo`.
pub open spec fn has_identity(pages: Map<usize, PageView>, pathinfo: Seq<char>) -> bool {
    exists|index: usize| #[trigger] pages.contains_key(index) && pages[index].pathinfo == pathinfo
}

/// Whether `index` is the first node of `pages` with the identity `pathinfo`.
pub open spec fn is_first_with(pages: Map<usize, PageView>, pathinfo: Seq<char>, index: usize) -> bool {
    &&& pages.contains_key(index)
    &&& pages[index].pathinfo == pathinfo
    &&& forall|other: usize| #[trigger]
        pages.contains_key(other) && pages[other].pathinfo == pathinfo ==> index <= other
}

/// Why a node was not expanded.
#[derive(Clone, Copy, Debug, PartialEq, Eq, Structural)]
pub enum ExpansionError {
    /// No node has the index.
    NodeNotFound,
    /// The node's page has no body to take links from.
    PageNotLoaded,
}

/// The identities among `links` that no node of `pages` has, in their order.
pub open spec fn absent(pages: Map<usize, PageView>, links: Seq<Seq<char>>) -> Seq<Seq<char>>
    decreases links.len(),
{
    if links.len() == 0 {
        Seq::empty()
    } else {
        let before = absent(pages, links.drop_last());
        if has_identity(pages, links.last()) {
            before
        } else {
            before.push(links.last())
        }
    }
}

/// What a page that is not loaded holds.
pub open spec fn unloaded_page(pathinfo: Seq<char>) -> PageView {
    PageView { pathinfo: pathinfo, body: None }
}

/// Whether `after` is `before` with one new node for each of `titles`, not
/// loaded, and `new` lists the indices of those nodes in the order of
/// `titles`.
pub open spec fn grown(
    before: Map<usize, PageView>,
    titles: Seq<Seq<char>>,
    new: Seq<usize>,
    after: Map<usize, PageView>,
) -> bool {
    &&& new.len() == titles.len()
    &&& forall|a: int, b: int| 0 <= a < b < new.len() ==> new[a] != new[b]
    &&& forall|k: int|
        0 <= k < new.len() ==> !before.contains_key(#[trigger] new[k]) && after.contains_key(
            new[k],
        ) && after[new[k]] == unloaded_page(titles[k])
    &&& forall|index: usize| #[trigger]
        before.contains_key(index) ==> after.contains_key(index) && after[index] == before[index]
    &&& forall|index: usize| #[trigger]
        after.contains_key(index) ==> before.contains_key(index) || new.contains(index)
}

/// Whether one of `links` leads to the node `target`: the first node with
/// that link's identity.
pub open spec fn linked_to(pages: Map<usize, PageView>, links: Seq<Seq<char>>, target: usize) -> bool {
    exists|k: int| 0 <= k < links.len() && is_first_with(pages, #[trigger] links[k], target)
}

/// How many edges lead from `from` to `to` once the node `index` is expanded
/// by `links`: one where `index` had no edge to the node that a link leads to,
/// unless that node is `index` itself; otherwise as many as before.
pub open spec fn expected_edges(
    edges: Multiset<(usize, usize)>,
    index: usize,
    pages_after: Map<usize, PageView>,
    links: Seq<Seq<char>>,
    from: usize,
    to: usize,
) -> nat {
    if from == index && to != index && edges.count((from, to)) == 0 && linked_to(
        pages_after,
        links,
        to,
    ) {
        1
    } else {
        edges.count((from, to))
    }
}

/// Whether a graph of `pages` and `edges` became one of `pages_after` and
/// `edges_after` by the expansion of the node `index` by `links`, with `new`
/// as the nodes made: each link that no node stood for got a node, and
/// `index` an edge to the node of each link where it had none.
pub open spec fn expanded(
    pages: Map<usize, PageView>,
    edges: Multiset<(usize, usize)>,
    index: usize,
    links: Seq<Seq<char>>,
    new: Seq<usize>,
    pages_after: Map<usize, PageView>,
    edges_after: Multiset<(usize, usize)>,
) -> bool {
    &&& grown(pages, absent(pages, links), new, pages_after)
    &&& forall|from: usize, to: usize| #[trigger]
        edges_after.count((from, to)) == expected_edges(edges, index, pages_after, links, from, to)
}

/// Each absent identity is one of the links, and no node has it.
pub proof fn lemma_absent_members(pages: Map<usize, PageView>, links: Seq<Seq<char>>)
    ensures
        forall|j: int|
            0 <= j < absent(pages, links).len() ==> links.contains(
                #[trigger] absent(pages, links)[j],
            ) && !has_identity(pages, absent(pages, links)[j]),
        forall|k: int|
            0 <= k < links.len() && !has_identity(pages, #[trigger] links[k]) ==> absent(
                pages,
                links,
            ).contains(links[k]),
    decreases links.len(),
{
    if links.len() > 0 {
        let init = links.drop_last();
        lemma_absent_members(pages, init);
        assert forall|j: int| 0 <= j < absent(pages, links).len() implies links.contains(
            #[trigger] absent(pages, links)[j],
        ) && !has_identity(pages, absent(pages, links)[j]) by {
            if j < absent(pages, init).len() {
                let found = absent(pages, init)[j];
                assert(init.contains(found));
                let m = choose|m: int| 0 <= m < init.len() && init[m] == found;
                assert(links[m] == found);
            } else {
                assert(links[links.len() - 1] == links.last());
            }
        }
        assert forall|k: int|
            0 <= k < links.len() && !has_identity(pages, #[trigger] links[k]) implies absent(
            pages,
            links,
        ).contains(links[k]) by {
            if k < init.len() {
                assert(init[k] == links[k]);
                assert(absent(pages, init).contains(links[k]));
                let j = choose|j: int|
                    0 <= j < absent(pages, init).len() && absent(pages, init)[j] == links[k];
                assert(absent(pages, links)[j] == links[k]);
            } else {
                assert(absent(pages, links).last() == links[k]);
            }
        }
    }
}

/// The first node with an identity is one node.
pub proof fn lemma_first_is_one(
    pages: Map<usize, PageView>,
    pathinfo: Seq<char>,
    a: usize,
    b: usize,
)
    requires
        is_first_with(pages, pathinfo, a),
        is_first_with(pages, pathinfo, b),
    ensures
        a == b,
{
}

/// Which nodes the links lead to, once one more link is counted that leads to
/// `target`, in a graph that stayed as it was.
pub proof fn lemma_linked_with_known(
    pages: Map<usize, PageView>,
    links: Seq<Seq<char>>,
    k: int,
    target: usize,
)
    requires
        0 <= k < links.len(),
        is_first_with(pages, links[k], target),
    ensures
        forall|to: usize|
            linked_to(pages, links.subrange(0, k + 1), to) <==> (to == target || linked_to(
                pages,
                links.subrange(0, k),
                to,
            )),
{
    let shorter = links.subrange(0, k);
    let longer = links.subrange(0, k + 1);
    assert forall|to: usize| linked_to(pages, longer, to) <==> (to == target || linked_to(
        pages,
        shorter,
        to,
    )) by {
        if linked_to(pages, longer, to) {
            let m = choose|m: int| 0 <= m < longer.len() && is_first_with(pages, #[trigger] longer[m], to);
            if m == k {
                lemma_first_is_one(pages, links[k], target, to);
            } else {
                assert(shorter[m] == longer[m]);
            }
        }
        if to == target {
            assert(longer[k] == links[k]);
        }
        if linked_to(pages, shorter, to) {
            let m = choose|m: int| 0 <= m < shorter.len() && is_first_with(pages, #[trigger] shorter[m], to);
            assert(longer[m] == shorter[m]);
        }
    }
}

/// Which nodes the links lead to, once one more link is counted for which the
/// node `target` was made.
pub proof fn lemma_linked_with_new(
    pages: Map<usize, PageView>,
    links: Seq<Seq<char>>,
    k: int,
    target: usize,
)
    requires
        0 <= k < links.len(),
        links.no_duplicates(),
        !pages.contains_key(target),
        !has_identity(pages, links[k]),
    ensures
        is_first_with(pages.insert(target, unloaded_page(links[k])), links[k], target),
        forall|to: usize|
            linked_to(pages.insert(target, unloaded_page(links[k])), links.subrange(0, k + 1), to)
                <==> (to == target || linked_to(pages, links.subrange(0, k), to)),
{
    let after = pages.insert(target, unloaded_page(links[k]));
    let shorter = links.subrange(0, k);
    let longer = links.subrange(0, k + 1);
    assert(is_first_with(after, links[k], target)) by {
        assert forall|other: usize| #[trigger]
            after.contains_key(other) && after[other].pathinfo == links[k] implies target
            <= other by {
            if other != target {
                assert(pages.contains_key(other) && pages[other].pathinfo == links[k]);
            }
        }
    }
    assert forall|to: usize| linked_to(after, longer, to) <==> (to == target || linked_to(
        pages,
        shorter,
        to,
    )) by {
        if linked_to(after, longer, to) {
            let m = choose|m: int| 0 <= m < longer.len() && is_first_with(after, #[trigger] longer[m], to);
            if m == k {
                lemma_first_is_one(after, links[k], target, to);
            } else {
                assert(longer[m] == links[m]);
                assert(links[m] != links[k]);
                assert(to != target);
                assert(is_first_with(pages, links[m], to)) by {
                    assert forall|other: usize| #[trigger]
                        pages.contains_key(other) && pages[other].pathinfo == links[m] implies to
                        <= other by {
                        assert(after.contains_key(other) && after[other].pathinfo == links[m]);
                    }
                }
                assert(shorter[m] == links[m]);
            }
        }
        if to == target {
            assert(longer[k] == links[k]);
        }
        if linked_to(pages, shorter, to) {
            let m = choose|m: int| 0 <= m < shorter.len() && is_first_with(pages, #[trigger] shorter[m], to);
            assert(shorter[m] == links[m]);
            assert(links[m] != links[k]);
            assert(is_first_with(after, links[m], to)) by {
                assert forall|other: usize| #[trigger]
                    after.contains_key(other) && after[other].pathinfo == links[m] implies to
                    <= other by {
                    assert(other != target);
                    assert(pages.contains_key(other) && pages[other].pathinfo == links[m]);
                }
            }
            assert(longer[m] == links[m]);
        }
    }
}

/// To expand a node once more, in a graph that has not changed since, makes
/// no node and adds no edge.
pub proof fn lemma_expansion_is_idempotent(
    pages: Map<usize, PageView>,
    edges: Multiset<(usize, usize)>,
    index: usize,
    links: Seq<Seq<char>>,
    new: Seq<usize>,
    pages_after: Map<usize, PageView>,
    edges_after: Multiset<(usize, usize)>,
    new_again: Seq<usize>,
    pages_again: Map<usize, PageView>,
    edges_again: Multiset<(usize, usize)>,
)
    requires
        expanded(pages, edges, index, links, new, pages_after, edges_after),
        expanded(pages_after, edges_after, index, links, new_again, pages_again, edges_again),
    ensures
        new_again.len() == 0,
        pages_again == pages_after,
        edges_again == edges_after,
{
    lemma_absent_members(pages, links);
    lemma_absent_members(pages_after, links);
    if absent(pages_after, links).len() > 0 {
        let missing = absent(pages_after, links)[0];
        assert(links.contains(missing) && !has_identity(pages_after, missing));
        let k = choose|k: int| 0 <= k < links.len() && links[k] == missing;
        if has_identity(pages, missing) {
            let at = choose|at: usize| #[trigger]
                pages.contains_key(at) && pages[at].pathinfo == missing;
            assert(pages_after.contains_key(at) && pages_after[at].pathinfo == missing);
        } else {
            assert(absent(pages, links).contains(links[k]));
            let j = choose|j: int|
                0 <= j < absent(pages, links).len() && absent(pages, links)[j] == missing;
            assert(pages_after.contains_key(new[j]) && pages_after[new[j]].pathinfo == missing);
        }
    }
    assert(pages_again =~= pages_after) by {
        assert forall|at: usize| #[trigger] pages_again.contains_key(at) implies pages_after.contains_key(at) by {
            if !pages_after.contains_key(at) {
                assert(new_again.contains(at));
            }
        }
    }
    assert(edges_again =~= edges_after) by {
        assert forall|pair: (usize, usize)| edges_again.count(pair) == edges_after.count(pair) by {
            let (from, to) = pair;
            assert(edges_again.count((from, to)) == expected_edges(
                edges_after,
                index,
                pages_again,
                links,
                from,
                to,
            ));
            assert(edges_after.count((from, to)) == expected_edges(
                edges,
                index,
                pages_after,
                links,
                from,
                to,
            ));
        }
    }
}

/// Whether no two nodes of `pages` have the same identity.
pub open spec fn distinct_identities(pages: Map<usize, PageView>) -> bool {
    forall|a: usize, b: usize|
        #![trigger pages.contains_key(a), pages.contains_key(b)]
        pages.contains_key(a) && pages.contains_key(b) && pages[a].pathinfo == pages[b].pathinfo
            ==> a == b
}

/// The absent identities have their places among the links in rising order.
pub proof fn lemma_absent_in_order(pages: Map<usize, PageView>, links: Seq<Seq<char>>) -> (origin:
    Seq<int>)
    ensures
        origin.len() == absent(pages, links).len(),
        forall|j: int|
            0 <= j < origin.len() ==> 0 <= #[trigger] origin[j] < links.len() && links[origin[j]]
                == absent(pages, links)[j],
        forall|a: int, b: int| 0 <= a < b < origin.len() ==> origin[a] < origin[b],
    decreases links.len(),
{
    if links.len() == 0 {
        Seq::empty()
    } else {
        let before = lemma_absent_in_order(pages, links.drop_last());
        if has_identity(pages, links.last()) {
            before
        } else {
            before.push(links.len() - 1)
        }
    }
}

/// An expansion gives no identity a second node: in a graph whose nodes have
/// identities of their own, they still have after the expansion of a node by
/// the links of its body.
pub proof fn lemma_expansion_keeps_identities_distinct(
    pages: Map<usize, PageView>,
    edges: Multiset<(usize, usize)>,
    index: usize,
    new: Seq<usize>,
    pages_after: Map<usize, PageView>,
    edges_after: Multiset<(usize, usize)>,
)
    requires
        pages.contains_key(index),
        pages[index].body is Some,
        distinct_identities(pages),
        expanded(
            pages,
            edges,
            index,
            pages[index].body.unwrap().linked(),
            new,
            pages_after,
            edges_after,
        ),
    ensures
        distinct_identities(pages_after),
{
    let links = pages[index].body.unwrap().linked();
    let titles = absent(pages, links);
    lemma_linked_pages_are_distinct_and_unfiltered(pages[index].body.unwrap());
    lemma_absent_members(pages, links);
    let origin = lemma_absent_in_order(pages, links);
    assert forall|a: usize, b: usize|
        pages_after.contains_key(a) && pages_after.contains_key(b) && pages_after[a].pathinfo
            == pages_after[b].pathinfo implies a == b by {
        if pages.contains_key(a) && pages.contains_key(b) {
            assert(pages_after[a] == pages[a] && pages_after[b] == pages[b]);
        } else if pages.contains_key(a) {
            assert(new.contains(b));
            let k = choose|k: int| 0 <= k < new.len() && new[k] == b;
            assert(pages_after[a] == pages[a]);
            assert(!has_identity(pages, titles[k]));
        } else if pages.contains_key(b) {
            assert(new.contains(a));
            let k = choose|k: int| 0 <= k < new.len() && new[k] == a;
            assert(pages_after[b] == pages[b]);
            assert(!has_identity(pages, titles[k]));
        } else {
            assert(new.contains(a) && new.contains(b));
            let j = choose|j: int| 0 <= j < new.len() && new[j] == a;
            let k = choose|k: int| 0 <= k < new.len() && new[k] == b;
            if j != k {
                assert(titles[j] == titles[k]);
                assert(links[origin[j]] == links[origin[k]]);
                if j < k {
                    assert(origin[j] < origin[k]);
                } else {
                    assert(origin[k] < origin[j]);
                }
            }
        }
    }
}

/// An expansion adds no edge from a node to itself.
pub proof fn lemma_expansion_adds_no_loop(
    pages: Map<usize, PageView>,
    edges: Multiset<(usize, usize)>,
    index: usize,
    links: Seq<Seq<char>>,
    new: Seq<usize>,
    pages_after: Map<usize, PageView>,
    edges_after: Multiset<(usize, usize)>,
    node: usize,
)
    requires
        expanded(pages, edges, index, links, new, pages_after, edges_after),
    ensures
        edges_after.count((node, node)) == edges.count((node, node)),
{
    assert(edges_after.count((node, node)) == expected_edges(
        edges,
        index,
        pages_after,
        links,
        node,
        node,
    ));
}

/// A store of pages with directed edges between them.
pub trait WikipediaGraph {
    /// The nodes: under each index that is in use, what its page holds.
    spec fn pages(&self) -> Map<usize, PageView>;

    /// The edges, each as often as it was added.
    spec fn edge_pairs(&self) -> Multiset<(usize, usize)>;

    /// Adds `page` as a node and hands back its index, one that was not in
    /// use and that no edge touches.
    fn add_node(&mut self, page: WikipediaPage) -> (index: usize)
        ensures
            !old(self).pages().contains_key(index),
            untouched(old(self).edge_pairs(), index),
            final(self).pages() == old(self).pages().insert(index, page@),
            final(self).edge_pairs() == old(self).edge_pairs(),
    ;

    /// Adds an edge between two nodes of the graph.
    fn add_edge(&mut self, from: usize, to: usize)
        requires
            old(self).pages().contains_key(from),
            old(self).pages().contains_key(to),
        ensures
            final(self).pages() == old(self).pages(),
            final(self).edge_pairs() == old(self).edge_pairs().insert((from, to)),
    ;

    /// The page under `index`, if that index is in use.
    fn node_weight(&self, index: usize) -> (r: Option<&WikipediaPage>)
        ensures
            r is Some == self.pages().contains_key(index),
            r is Some ==> r.unwrap()@ == self.pages()[index],
    ;

    /// The page under `index` to be changed in place, if that index is in
    /// use.
    fn node_weight_mut(&mut self, index: usize) -> (r: Option<&mut WikipediaPage>)
        ensures
            r is Some == old(self).pages().contains_key(index),
            r matches Some(page) ==> (*page)@ == old(self).pages()[index] && final(self).pages()
                == old(self).pages().insert(index, (*final(page))@),
            r is None ==> final(self).pages() == old(self).pages(),
            final(self).edge_pairs() == old(self).edge_pairs(),
    ;

    /// Every node with its index, by rising index.
    fn node_indicies(&self) -> (r: Vec<(&WikipediaPage, usize)>)
        ensures
            lists_nodes(r@, self.pages()),
    ;

    /// Whether an edge leads from `lhs` to `rhs`.
    fn edge_exists(&self, lhs: usize, rhs: usize) -> (r: bool)
        ensures
            r == (self.edge_pairs().count((lhs, rhs)) > 0),
    ;

    /// The pages of all nodes, by rising index.
    fn node_weights(&self) -> (r: Vec<&WikipediaPage>)
        ensures
            r.len() == node_list_of(self.pages()).len(),
            forall|k: int| 0 <= k < r.len() ==> (#[trigger] r[k])@ == node_list_of(self.pages())[k].1,
    {
        let nodes = self.node_indicies();
        proof {
            lemma_node_list(self.pages(), nodes@);
        }
        let mut weights: Vec<&WikipediaPage> = Vec::new();
        let mut k: usize = 0;
        while k < nodes.len()
            invariant
                k <= nodes.len(),
                weights.len() == k,
                forall|j: int| 0 <= j < k ==> (#[trigger] weights[j])@ == nodes[j].0@,
                node_list_of(self.pages()).len() == nodes.len(),
                forall|j: int|
                    0 <= j < nodes.len() ==> (#[trigger] node_list_of(self.pages())[j]) == (
                        nodes[j].1,
                        nodes[j].0@,
                    ),
            decreases nodes.len() - k,
        {
            weights.push(nodes[k].0);
            k += 1;
        }
        weights
    }

    /// Every node with its index, by rising index, the pages copied.
    fn node_indicies_owned(&self) -> (r: Vec<(WikipediaPage, usize)>)
        ensures
            r.len() == node_list_of(self.pages()).len(),
            forall|k: int|
                0 <= k < r.len() ==> (#[trigger] r[k]).0@ == node_list_of(self.pages())[k].1 && r[k].1
                    == node_list_of(self.pages())[k].0,
    {
        let nodes = self.node_indicies();
        proof {
            lemma_node_list(self.pages(), nodes@);
        }
        let mut owned: Vec<(WikipediaPage, usize)> = Vec::new();
        let mut k: usize = 0;
        while k < nodes.len()
            invariant
                k <= nodes.len(),
                owned.len() == k,
                forall|j: int|
                    0 <= j < k ==> (#[trigger] owned[j]).0@ == nodes[j].0@ && owned[j].1 == nodes[j].1,
                node_list_of(self.pages()).len() == nodes.len(),
                forall|j: int|
                    0 <= j < nodes.len() ==> (#[trigger] node_list_of(self.pages())[j]) == (
                        nodes[j].1,
                        nodes[j].0@,
                    ),
            decreases nodes.len() - k,
        {
            owned.push((nodes[k].0.clone(), nodes[k].1));
            k += 1;
        }
        owned
    }

    /// Puts the pages that the node `index` links to into the graph and hands
    /// back the nodes that were made for them. A link to a page that the
    /// graph has a node for makes no node; the node `index` gets an edge to
    /// the node of each link unless it has one, and none to itself. The page
    /// of the node must be loaded: nothing is fetched.
    fn try_expand_node(&mut self, index: usize) -> (r: Result<Vec<usize>, ExpansionError>)
        ensures
            match r {
                Ok(new) => old(self).pages().contains_key(index) && old(self).pages()[index].body
                    is Some && expanded(
                    old(self).pages(),
                    old(self).edge_pairs(),
                    index,
                    old(self).pages()[index].body.unwrap().linked(),
                    new@,
                    final(self).pages(),
                    final(self).edge_pairs(),
                ),
                Err(e) => final(self).pages() == old(self).pages() && final(self).edge_pairs()
                    == old(self).edge_pairs() && match e {
                    ExpansionError::NodeNotFound => !old(self).pages().contains_key(index),
                    ExpansionError::PageNotLoaded => old(self).pages().contains_key(index) && old(
                        self,
                    ).pages()[index].body is None,
                },
            },
    {
        let ghost pages = self.pages();
        let ghost edges = self.edge_pairs();
        let links = match self.node_weight(index) {
            Some(page) => match page.try_get_linked_pages() {
                Some(links) => links,
                None => {
                    return Err(ExpansionError::PageNotLoaded);
                },
            },
            None => {
                return Err(ExpansionError::NodeNotFound);
            },
        };
        let ghost all = pathinfos(links@);
        proof {
            lemma_linked_pages_are_distinct_and_unfiltered(pages[index].body.unwrap());
            assert(all.subrange(0, 0) =~= Seq::<Seq<char>>::empty());
        }
        let mut new: Vec<usize> = Vec::new();
        let mut k: usize = 0;
        while k < links.len()
            invariant
                k <= links.len(),
                all == pathinfos(links@),
                all.no_duplicates(),
                unloaded(links@),
                pages.contains_key(index),
                grown(pages, absent(pages, all.subrange(0, k as int)), new@, self.pages()),
                forall|from: usize, to: usize| #[trigger]
                    self.edge_pairs().count((from, to)) == expected_edges(
                        edges,
                        index,
                        self.pages(),
                        all.subrange(0, k as int),
                        from,
                        to,
                    ),
            decreases links.len() - k,
        {
            let ghost now = self.pages();
            let ghost now_edges = self.edge_pairs();
            let ghost seen = all.subrange(0, k as int);
            let ghost next = all.subrange(0, k + 1);
            let ghost link = all[k as int];
            proof {
                assert(next.drop_last() =~= seen);
                assert(next.last() == link);
                assert(links[k as int]@ == unloaded_page(link));
                lemma_absent_members(pages, seen);
            }
            match self.node_exists_with_value(&links[k]) {
                Some(existing) => {
                    proof {
                        if !pages.contains_key(existing) {
                            assert(new@.contains(existing));
                            let j = choose|j: int| 0 <= j < new@.len() && new@[j] == existing;
                            let title = absent(pages, seen)[j];
                            assert(seen.contains(title));
                            let m = choose|m: int| 0 <= m < seen.len() && seen[m] == title;
                            assert(all[m] == all[k as int]);
                        }
                        assert(pages[existing] == now[existing]);
                        assert(has_identity(pages, link));
                        lemma_linked_with_known(now, all, k as int, existing);
                    }
                    if existing != index && !self.edge_exists(index, existing) {
                        self.add_edge(index, existing);
                    }
                    proof {
                        assert forall|from: usize, to: usize| #[trigger]
                            self.edge_pairs().count((from, to)) == expected_edges(
                                edges,
                                index,
                                self.pages(),
                                next,
                                from,
                                to,
                            ) by {
                            assert(now_edges.count((from, to)) == expected_edges(
                                edges,
                                index,
                                now,
                                seen,
                                from,
                                to,
                            ));
                            assert(now_edges.count((index, existing)) == expected_edges(
                                edges,
                                index,
                                now,
                                seen,
                                index,
                                existing,
                            ));
                        }
                    }
                },
                None => {
                    proof {
                        if has_identity(pages, link) {
                            let at = choose|at: usize| #[trigger]
                                pages.contains_key(at) && pages[at].pathinfo == link;
                            assert(now.contains_key(at) && now[at].pathinfo == link);
                        }
                    }
                    let made = self.add_node(links[k].clone());
                    let ghost before = new@;
                    new.push(made);
                    proof {
                        lemma_linked_with_new(now, all, k as int, made);
                        assert(now_edges.count((index, made)) == 0);
                        assert(grown(pages, absent(pages, next), new@, self.pages())) by {
                            assert(absent(pages, next) == absent(pages, seen).push(link));
                            assert forall|a: int, b: int| 0 <= a < b < new@.len() implies new@[a]
                                != new@[b] by {
                                if b == before.len() {
                                    assert(now.contains_key(before[a]));
                                }
                            }
                            assert forall|at: usize| #[trigger]
                                self.pages().contains_key(at) implies pages.contains_key(at)
                                || new@.contains(at) by {
                                if at == made {
                                    assert(new@[before.len() as int] == made);
                                } else if !pages.contains_key(at) {
                                    assert(before.contains(at));
                                    let j = choose|j: int| 0 <= j < before.len() && before[j] == at;
                                    assert(new@[j] == at);
                                }
                            }
                        }
                    }
                    let ghost mid = self.edge_pairs();
                    self.add_edge(index, made);
                    proof {
                        assert forall|from: usize, to: usize| #[trigger]
                            self.edge_pairs().count((from, to)) == expected_edges(
                                edges,
                                index,
                                self.pages(),
                                next,
                                from,
                                to,
                            ) by {
                            assert(now_edges.count((from, to)) == expected_edges(
                                edges,
                                index,
                                now,
                                seen,
                                from,
                                to,
                            ));
                            assert(now_edges.count((index, made)) == expected_edges(
                                edges,
                                index,
                                now,
                                seen,
                                index,
                                made,
                            ));
                            if to == made {
                                assert(now_edges.count((from, made)) == 0);
                            }
                        }
                    }
                },
            }
            k += 1;
        }
        proof {
            assert(all.subrange(0, links.len() as int) =~= all);
        }
        Ok(new)
    }

    /// The node that stands for `page`: the first that has its identity, or,
    /// where there is none, a node made for it. With the node comes whether
    /// it was made.
    fn find_or_add_node(&mut self, page: WikipediaPage) -> (r: (usize, bool))
        ensures
            final(self).edge_pairs() == old(self).edge_pairs(),
            r.1 == !has_identity(old(self).pages(), page@.pathinfo),
            !r.1 ==> is_first_with(old(self).pages(), page@.pathinfo, r.0) && final(self).pages()
                == old(self).pages(),
            r.1 ==> !old(self).pages().contains_key(r.0) && final(self).pages() == old(
                self,
            ).pages().insert(r.0, page@),
    {
        match self.node_exists_with_value(&page) {
            Some(index) => (index, false),
            None => (self.add_node(page), true),
        }
    }

    /// The nodes that the node `index` has an edge to, or, with `incoming`,
    /// the nodes that have an edge to it: each once, by rising index.
    fn connected_nodes(&self, index: usize, incoming: bool) -> (r: Vec<usize>)
        ensures
            forall|i: int, j: int| 0 <= i < j < r.len() ==> r[i] < r[j],
            forall|node: usize|
                r@.contains(node) <==> self.pages().contains_key(node) && connects(
                    self.edge_pairs(),
                    index,
                    node,
                    incoming,
                ),
    {
        let nodes = self.node_indicies();
        let mut connected: Vec<usize> = Vec::new();
        let mut k: usize = 0;
        while k < nodes.len()
            invariant
                k <= nodes.len(),
                lists_nodes(nodes@, self.pages()),
                forall|i: int, j: int| 0 <= i < j < connected.len() ==> connected[i] < connected[j],
                connected.len() > 0 ==> k > 0,
                forall|i: int|
                    0 <= i < connected.len() ==> (#[trigger] connected[i]) <= nodes[k - 1].1,
                forall|node: usize|
                    connected@.contains(node) <==> exists|j: int|
                        0 <= j < k && (#[trigger] nodes[j]).1 == node && connects(
                            self.edge_pairs(),
                            index,
                            node,
                            incoming,
                        ),
            decreases nodes.len() - k,
        {
            let node = nodes[k].1;
            let joined = if incoming {
                self.edge_exists(node, index)
            } else {
                self.edge_exists(index, node)
            };
            let ghost before = connected@;
            if joined {
                proof {
                    assert forall|i: int| 0 <= i < connected.len() implies connected[i] < node by {
                        assert(k > 0 && connected[i] <= nodes[k - 1].1);
                        assert(nodes[k - 1].1 < nodes[k as int].1);
                    }
                }
                connected.push(node);
                proof {
                    assert forall|other: usize|
                        connected@.contains(other) <==> exists|j: int|
                            0 <= j < k + 1 && (#[trigger] nodes[j]).1 == other && connects(
                                self.edge_pairs(),
                                index,
                                other,
                                incoming,
                            ) by {
                        if connected@.contains(other) {
                            let i = choose|i: int| 0 <= i < connected@.len() && connected@[i] == other;
                            if i < before.len() {
                                assert(before[i] == other);
                                assert(before.contains(other));
                            } else {
                                assert(nodes[k as int].1 == other);
                            }
                        }
                        if exists|j: int|
                            0 <= j < k + 1 && (#[trigger] nodes[j]).1 == other && connects(
                                self.edge_pairs(),
                                index,
                                other,
                                incoming,
                            ) {
                            let j = choose|j: int|
                                0 <= j < k + 1 && (#[trigger] nodes[j]).1 == other && connects(
                                    self.edge_pairs(),
                                    index,
                                    other,
                                    incoming,
                                );
                            if j < k {
                                assert(before.contains(other));
                                let i = choose|i: int| 0 <= i < before.len() && before[i] == other;
                                assert(connected@[i] == other);
                            } else {
                                assert(connected@[before.len() as int] == other);
                            }
                        }
                    }
                }
            } else {
                proof {
                    if k > 0 {
                        assert(nodes[k - 1].1 < nodes[k as int].1);
                    }
                    assert forall|other: usize|
                        connected@.contains(other) <==> exists|j: int|
                            0 <= j < k + 1 && (#[trigger] nodes[j]).1 == other && connects(
                                self.edge_pairs(),
                                index,
                                other,
                                incoming,
                            ) by {
                        if exists|j: int|
                            0 <= j < k + 1 && (#[trigger] nodes[j]).1 == other && connects(
                                self.edge_pairs(),
                                index,
                                other,
                                incoming,
                            ) {
                            let j = choose|j: int|
                                0 <= j < k + 1 && (#[trigger] nodes[j]).1 == other && connects(
                                    self.edge_pairs(),
                                    index,
                                    other,
                                    incoming,
                                );
                            assert(j < k);
                        }
                    }
                }
            }
            k += 1;
        }
        proof {
            assert forall|node: usize|
                connected@.contains(node) <==> self.pages().contains_key(node) && connects(
                    self.edge_pairs(),
                    index,
                    node,
                    incoming,
                ) by {
                if self.pages().contains_key(node) && connects(
                    self.edge_pairs(),
                    index,
                    node,
                    incoming,
                ) {
                    let j = choose|j: int| 0 <= j < nodes.len() && (#[trigger] nodes[j]).1 == node;
                    assert(nodes[j].1 == node);
                }
            }
        }
        connected
    }

    /// The first node that has the identity of `page`, if there is one.
    fn node_exists_with_value(&self, page: &WikipediaPage) -> (r: Option<usize>)
        ensures
            match r {
                Some(index) => is_first_with(self.pages(), page@.pathinfo, index),
                None => !has_identity(self.pages(), page@.pathinfo),
            },
    {
        let nodes = self.node_indicies();
        let mut k: usize = 0;
        while k < nodes.len()
            invariant
                k <= nodes.len(),
                lists_nodes(nodes@, self.pages()),
                forall|j: int| 0 <= j < k ==> (#[trigger] nodes[j]).0@.pathinfo != page@.pathinfo,
            decreases nodes.len() - k,
        {
            if crate::text::same_text(nodes[k].0.pathinfo().as_str(), page.pathinfo().as_str()) {
                let found = nodes[k].1;
                assert forall|other: usize| #[trigger]
                    self.pages().contains_key(other) && self.pages()[other].pathinfo
                        == page@.pathinfo implies found <= other by {
                    let j = choose|j: int| 0 <= j < nodes.len() && (#[trigger] nodes[j]).1 == other;
                    assert(nodes[j].0@ == self.pages()[other]);
                    if j < k {
                        assert(nodes[j].0@.pathinfo != page@.pathinfo);
                    }
                }
                return Some(found);
            }
            k += 1;
        }
        assert(!has_identity(self.pages(), page@.pathinfo)) by {
            if has_identity(self.pages(), page@.pathinfo) {
                let index = choose|index: usize| #[trigger]
                    self.pages().contains_key(index) && self.pages()[index].pathinfo
                        == page@.pathinfo;
                let j = choose|j: int| 0 <= j < nodes.len() && (#[trigger] nodes[j]).1 == index;
                assert(nodes[j].0@.pathinfo != page@.pathinfo);
            }
        }
        None
    }
}

/// The nodes of `pages` by rising index: of each the index and what its page
/// holds.
pub closed spec fn node_list_of(pages: Map<usize, PageView>) -> Seq<(usize, PageView)> {
    if exists|list: Seq<(usize, PageView)>| is_node_list(list, pages) {
        choose|list: Seq<(usize, PageView)>| is_node_list(list, pages)
    } else {
        Seq::empty()
    }
}

/// Whether `list` holds the nodes of `pages`, each once, by rising index.
pub open spec fn is_node_list(list: Seq<(usize, PageView)>, pages: Map<usize, PageView>) -> bool {
    &&& forall|k: int|
        0 <= k < list.len() ==> pages.contains_key((#[trigger] list[k]).0) && list[k].1
            == pages[list[k].0]
    &&& forall|i: int, j: int| 0 <= i < j < list.len() ==> (#[trigger] list[i]).0 < (#[trigger] list[j]).0
    &&& forall|index: usize| #[trigger]
        pages.contains_key(index) ==> exists|k: int| 0 <= k < list.len() && (#[trigger] list[k]).0 == index
}

/// Two lists of the nodes of one graph are the same list.
pub proof fn lemma_node_lists_agree(
    a: Seq<(usize, PageView)>,
    b: Seq<(usize, PageView)>,
    pages: Map<usize, PageView>,
)
    requires
        is_node_list(a, pages),
        is_node_list(b, pages),
    ensures
        a == b,
    decreases a.len(),
{
    if a.len() == 0 {
        if b.len() > 0 {
            assert(pages.contains_key(b[0].0));
            let k = choose|k: int| 0 <= k < a.len() && (#[trigger] a[k]).0 == b[0].0;
        }
        assert(a =~= b);
    } else {
        let top = a.last().0;
        assert(pages.contains_key(top));
        let kb = choose|k: int| 0 <= k < b.len() && (#[trigger] b[k]).0 == top;
        if kb != b.len() - 1 {
            let above = b.last().0;
            assert(pages.contains_key(above));
            let ka = choose|k: int| 0 <= k < a.len() && (#[trigger] a[k]).0 == above;
            assert(above > top);
            if ka < a.len() - 1 {
                assert(a[ka].0 < a[a.len() - 1].0);
            }
        }
        let rest = pages.remove(top);
        assert(is_node_list(a.drop_last(), rest)) by {
            assert forall|index: usize| #[trigger] rest.contains_key(index) implies exists|k: int|
                0 <= k < a.drop_last().len() && (#[trigger] a.drop_last()[k]).0 == index by {
                let k = choose|k: int| 0 <= k < a.len() && (#[trigger] a[k]).0 == index;
                assert(a.drop_last()[k].0 == index);
            }
            assert forall|k: int| 0 <= k < a.drop_last().len() implies rest.contains_key(
                (#[trigger] a.drop_last()[k]).0,
            ) && a.drop_last()[k].1 == rest[a.drop_last()[k].0] by {
                assert(a[k].0 < a[a.len() - 1].0);
            }
        }
        assert(is_node_list(b.drop_last(), rest)) by {
            assert forall|index: usize| #[trigger] rest.contains_key(index) implies exists|k: int|
                0 <= k < b.drop_last().len() && (#[trigger] b.drop_last()[k]).0 == index by {
                let k = choose|k: int| 0 <= k < b.len() && (#[trigger] b[k]).0 == index;
                assert(b.drop_last()[k].0 == index);
            }
            assert forall|k: int| 0 <= k < b.drop_last().len() implies rest.contains_key(
                (#[trigger] b.drop_last()[k]).0,
            ) && b.drop_last()[k].1 == rest[b.drop_last()[k].0] by {
                assert(b[k].0 < b[b.len() - 1].0);
            }
        }
        lemma_node_lists_agree(a.drop_last(), b.drop_last(), rest);
        assert(a =~= a.drop_last().push(a.last()));
        assert(b =~= b.drop_last().push(b.last()));
    }
}

/// What a listing of the nodes says is what `node_list_of` says.
pub proof fn lemma_node_list(pages: Map<usize, PageView>, nodes: Seq<(&WikipediaPage, usize)>)
    requires
        lists_nodes(nodes, pages),
    ensures
        node_list_of(pages).len() == nodes.len(),
        forall|k: int|
            0 <= k < nodes.len() ==> (#[trigger] node_list_of(pages)[k]) == (nodes[k].1, nodes[k].0@),
{
    let list = Seq::new(nodes.len(), |k: int| (nodes[k].1, nodes[k].0@));
    assert(is_node_list(list, pages)) by {
        assert forall|index: usize| #[trigger] pages.contains_key(index) implies exists|k: int|
            0 <= k < list.len() && (#[trigger] list[k]).0 == index by {
            let k = choose|k: int| 0 <= k < nodes.len() && (#[trigger] nodes[k]).1 == index;
            assert(list[k].0 == index);
        }
        assert forall|k: int| 0 <= k < list.len() implies pages.contains_key(
            (#[trigger] list[k]).0,
        ) && list[k].1 == pages[list[k].0] by {
            assert(pages.contains_key(nodes[k].1));
        }
        assert forall|i: int, j: int| 0 <= i < j < list.len() implies (#[trigger] list[i]).0 < (
        #[trigger] list[j]).0 by {
            assert(nodes[i].1 < nodes[j].1);
        }
    }
    lemma_node_lists_agree(list, node_list_of(pages), pages);
}

impl WikipediaGraph for PageGraph {
    open spec fn pages(&self) -> Map<usize, PageView> {
        graph_pages(*self)
    }

    open spec fn edge_pairs(&self) -> Multiset<(usize, usize)> {
        graph_edges(*self)
    }

    fn add_node(&mut self, page: WikipediaPage) -> (index: usize) {
        assert(self.pages() == graph_pages(*self) && self.edge_pairs() == graph_edges(*self));
        let index = stable_add_node(self, page);
        assert(untouched(old(self).edge_pairs(), index));
        assert(self.pages() == graph_pages(*self) && self.edge_pairs() == graph_edges(*self));
        index
    }

    fn add_edge(&mut self, from: usize, to: usize) {
        assert(self.pages() == graph_pages(*self) && self.edge_pairs() == graph_edges(*self));
        stable_add_edge(self, from, to);
        assert(self.pages() == graph_pages(*self) && self.edge_pairs() == graph_edges(*self));
    }

    fn node_weight(&self, index: usize) -> (r: Option<&WikipediaPage>) {
        stable_node_weight(self, index)
    }

    fn node_weight_mut(&mut self, index: usize) -> (r: Option<&mut WikipediaPage>) {
        assert(self.pages() == graph_pages(*self) && self.edge_pairs() == graph_edges(*self));
        stable_node_weight_mut(self, index)
    }

    fn node_indicies(&self) -> (r: Vec<(&WikipediaPage, usize)>) {
        stable_node_indicies(self)
    }

    fn edge_exists(&self, lhs: usize, rhs: usize) -> (r: bool) {
        stable_contains_edge(self, lhs, rhs)
    }
}

/// Gives the node `index` the page `page`. Says whether there is such a node;
/// where there is none, nothing changes.
pub fn replace_page<G: WikipediaGraph>(graph: &mut G, index: usize, page: WikipediaPage) -> (r: bool)
    ensures
        r == old(graph).pages().contains_key(index),
        r ==> final(graph).pages() == old(graph).pages().insert(index, page@),
        !r ==> final(graph).pages() == old(graph).pages(),
        final(graph).edge_pairs() == old(graph).edge_pairs(),
{
    match graph.node_weight_mut(index) {
        Some(slot) => {
            *slot = page;
            true
        },
        None => false,
    }
}

/// A graph without nodes and edges.
pub fn new_graph() -> (r: PageGraph)
    ensures
        r.pages() == Map::<usize, PageView>::empty(),
        r.edge_pairs() == Multiset::<(usize, usize)>::empty(),
{
    stable_new()
}

} // verus!
