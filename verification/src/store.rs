//! Finished fetches on their way into the graph.
//!
//! Fetches end in any order. Each outcome is kept with the index of the node
//! that asked for it and with what is to follow; the outcomes are then put
//! into the graph together, one after the other, by the one who owns the
//! graph.

use crate::fetch::{HttpError, HttpFault};
use crate::graph::{expanded, replace_page, WikipediaGraph};
use crate::page::{PageView, WikipediaPage};
use vstd::multiset::Multiset;
use vstd::prelude::*;

verus! {

/// What is to follow when a node's page has arrived.
#[derive(Clone, Copy, Debug, PartialEq, Eq, Structural)]
pub enum NodeAction {
    /// The node is to be expanded.
    Expand,
    /// Nothing is to follow.
    Nothing,
}

/// What a stored outcome says: the node, the page that the fetch gave or why
/// it gave none, and what is to follow.
pub ghost struct StoredView {
    pub index: usize,
    pub page: Result<PageView, HttpFault>,
    pub action: NodeAction,
}

/// What one stored outcome says.
pub open spec fn stored_view(item: (usize, Result<WikipediaPage, HttpError>, NodeAction)) -> StoredView {
    StoredView {
        index: item.0,
        page: match item.1 {
            Ok(page) => Ok(page@),
            Err(e) => Err(e@),
        },
        action: item.2,
    }
}

/// What a list of stored outcomes says.
pub open spec fn stored_views(
    items: Seq<(usize, Result<WikipediaPage, HttpError>, NodeAction)>,
) -> Seq<StoredView> {
    Seq::new(items.len(), |i: int| stored_view(items[i]))
}

/// Whether a graph of `pages` and `edges` became one of `pages_after` and
/// `edges_after` by taking in `item`, with `made` as the nodes made, if the
/// node was expanded. A failed fetch and an outcome for a node that is gone
/// change nothing. Otherwise the node gets the page; and if it is to be
/// expanded and the page is loaded, it is expanded.
pub open spec fn took_in(
    pages: Map<usize, PageView>,
    edges: Multiset<(usize, usize)>,
    item: StoredView,
    made: Option<Seq<usize>>,
    pages_after: Map<usize, PageView>,
    edges_after: Multiset<(usize, usize)>,
) -> bool {
    if item.page is Ok && pages.contains_key(item.index) {
        let page = item.page->Ok_0;
        let placed = pages.insert(item.index, page);
        if item.action == NodeAction::Expand && page.body is Some {
            made is Some && expanded(
                placed,
                edges,
                item.index,
                page.body.unwrap().linked(),
                made.unwrap(),
                pages_after,
                edges_after,
            )
        } else {
            made is None && pages_after == placed && edges_after == edges
        }
    } else {
        made is None && pages_after == pages && edges_after == edges
    }
}

/// Whether the last of the expansions `made` is the one that `step` tells of
/// at the node `index`, where `step` tells of one.
pub open spec fn reports(made: Seq<(usize, Seq<usize>)>, index: usize, step: Option<Seq<usize>>) -> bool {
    match step {
        Some(new) => made.len() > 0 && made.last() == (index, new),
        None => true,
    }
}

/// The expansions `made` without the one that `step` tells of.
pub open spec fn before_step(made: Seq<(usize, Seq<usize>)>, step: Option<Seq<usize>>) -> Seq<
    (usize, Seq<usize>),
> {
    if step is Some {
        made.drop_last()
    } else {
        made
    }
}

/// Whether a graph of `pages` and `edges` became one of `pages_after` and
/// `edges_after` by taking in `items` one after the other, with `made` as the
/// expansions done: of each the node and the nodes made for it.
pub open spec fn drained(
    pages: Map<usize, PageView>,
    edges: Multiset<(usize, usize)>,
    items: Seq<StoredView>,
    made: Seq<(usize, Seq<usize>)>,
    pages_after: Map<usize, PageView>,
    edges_after: Multiset<(usize, usize)>,
) -> bool
    decreases items.len(),
{
    if items.len() == 0 {
        made.len() == 0 && pages_after == pages && edges_after == edges
    } else {
        exists|
            pages_before: Map<usize, PageView>,
            edges_before: Multiset<(usize, usize)>,
            step: Option<Seq<usize>>,
        | #[trigger]
            took_in(pages_before, edges_before, items.last(), step, pages_after, edges_after)
                && reports(made, items.last().index, step) && drained(
                pages,
                edges,
                items.drop_last(),
                before_step(made, step),
                pages_before,
                edges_before,
            )
    }
}

/// The views of the new nodes of each expansion.
pub open spec fn made_view(made: Seq<(usize, Vec<usize>)>) -> Seq<(usize, Seq<usize>)> {
    Seq::new(made.len(), |i: int| (made[i].0, made[i].1@))
}

/// Puts the stored outcomes into the graph, one after the other, and hands
/// back the expansions done: of each the node and the nodes made for it.
pub fn update_nodes_from_store<G: WikipediaGraph>(
    graph: &mut G,
    store: Vec<(usize, Result<WikipediaPage, HttpError>, NodeAction)>,
) -> (r: Vec<(usize, Vec<usize>)>)
    ensures
        drained(
            old(graph).pages(),
            old(graph).edge_pairs(),
            stored_views(store@),
            made_view(r@),
            final(graph).pages(),
            final(graph).edge_pairs(),
        ),
{
    let ghost pages = graph.pages();
    let ghost edges = graph.edge_pairs();
    let ghost all = store@;
    let ghost items = stored_views(all);
    let mut made: Vec<(usize, Vec<usize>)> = Vec::new();
    let mut store = store;
    let total = store.len();
    let mut k: usize = 0;
    proof {
        assert(items.subrange(0, 0) =~= Seq::<StoredView>::empty());
        assert(made_view(made@) =~= Seq::<(usize, Seq<usize>)>::empty());
        assert(all.subrange(0, total as int) =~= all);
    }
    while k < total
        invariant
            k <= total,
            total == all.len(),
            items == stored_views(all),
            store@ == all.subrange(k as int, total as int),
            drained(
                pages,
                edges,
                items.subrange(0, k as int),
                made_view(made@),
                graph.pages(),
                graph.edge_pairs(),
            ),
        decreases total - k,
    {
        let ghost now = graph.pages();
        let ghost now_edges = graph.edge_pairs();
        let ghost made_before = made_view(made@);
        let ghost item = items[k as int];
        let ghost mut step: Option<Seq<usize>> = None;
        let (index, response, action) = store.remove(0);
        proof {
            assert(store@ =~= all.subrange(k + 1, total as int));
            assert(item == stored_view((index, response, action)));
        }
        match response {
            Ok(page) => {
                if replace_page(graph, index, page) {
                    match action {
                        NodeAction::Expand => match graph.try_expand_node(index) {
                            Ok(new) => {
                                proof {
                                    step = Some(new@);
                                }
                                made.push((index, new));
                            },
                            Err(_) => {},
                        },
                        NodeAction::Nothing => {},
                    }
                }
            },
            Err(_) => {},
        }
        proof {
            let next = items.subrange(0, k + 1);
            assert(next.drop_last() =~= items.subrange(0, k as int));
            assert(next.last() == item);
            assert(before_step(made_view(made@), step) =~= made_before);
            assert(reports(made_view(made@), item.index, step));
            assert(took_in(now, now_edges, next.last(), step, graph.pages(), graph.edge_pairs()));
        }
        k += 1;
    }
    proof {
        assert(items.subrange(0, total as int) =~= items);
    }
    made
}

} // verus!
