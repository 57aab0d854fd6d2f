//! Pages of Wikipedia and the graph of the links between them.
//!
//! The library knows how a page is addressed in each language, follows a
//! fetch from its first request to its one outcome, reads the two forms in
//! which the API delivers a page, and turns the links of a page into nodes and
//! edges of a graph. It sends and receives nothing itself.

pub mod client;
pub mod codegen;
pub mod config;
pub mod fetch;
pub mod graph;
pub mod json;
pub mod language;
pub mod links;
pub mod page;
pub mod settings;
pub mod store;
pub mod text;
pub mod url;

pub use client::{PageRequest, PendingFetch, WikipediaClient};
pub use config::{HeaderError, WikipediaClientConfig};
pub use fetch::{FetchAction, FetchEvent, FetchResponse, FetchState, HttpError, CLIENT_REDIRECTS};
pub use graph::{new_graph, DefaultIndexType, ExpansionError, PageGraph, WikipediaGraph};
pub use language::WikiLanguage;
pub use page::{DeserialisationError, PathinfoParseError, WikipediaBody, WikipediaPage};
pub use settings::{NodeEditor, StyleSettings};
pub use store::{update_nodes_from_store, NodeAction};
pub use url::{LanguageInvalidError, PageUrl, WikipediaUrlError, WikipediaUrlType};
