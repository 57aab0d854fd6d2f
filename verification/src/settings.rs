//! What a viewer of the graph sets.

use vstd::prelude::*;

verus! {

/// The editor of nodes: the title that was typed in, for a node to be made or
/// found.
#[derive(Debug)]
pub struct NodeEditor {
    /// The title typed so far.
    pub page_title: String,
}

impl Default for NodeEditor {
    /// An editor with nothing typed in.
    fn default() -> (r: Self)
        ensures
            r.page_title@ == Seq::<char>::empty(),
    {
        NodeEditor { page_title: String::new() }
    }
}

/// How the graph is drawn.
#[derive(Clone, Copy, Debug, PartialEq, Eq, Structural)]
pub struct StyleSettings {
    /// Whether each node is drawn with its title.
    pub labels: bool,
}

impl Default for StyleSettings {
    /// Nodes are drawn with their titles.
    fn default() -> (r: Self)
        ensures
            r.labels,
    {
        StyleSettings { labels: true }
    }
}

} // verus!
