//! The definition of a subgraph: its manifest, data sources and mappings.

use vstd::prelude::*;

verus! {

/// A link to a file.
#[derive(Clone, Debug, PartialEq, Eq)]
pub struct Link {
    pub link: String,
}

/// The schema of a subgraph, as its document's text.
#[derive(Clone, Debug, PartialEq, Eq)]
pub struct Schema {
    pub document: String,
}

/// The contract a data source reads from.
#[derive(Clone, Debug, PartialEq, Eq)]
pub struct Source {
    pub address: String,
    pub abi: String,
}

/// A named contract interface used by a mapping.
#[derive(Clone, Debug, PartialEq, Eq)]
pub struct MappingABI {
    pub name: String,
    pub link: Link,
}

/// The handler of one contract event.
#[derive(Clone, Debug, PartialEq, Eq)]
pub struct MappingEventHandler {
    pub event: String,
    pub handler: String,
}

/// How the events of a data source are turned into entities.
#[derive(Clone, Debug, PartialEq, Eq)]
pub struct Mapping {
    pub kind: String,
    pub api_version: String,
    pub language: String,
    pub entities: Vec<String>,
    pub abis: Vec<MappingABI>,
    pub event_handlers: Vec<MappingEventHandler>,
    pub link: Link,
}

/// One data source of a subgraph.
#[derive(Clone, Debug, PartialEq, Eq)]
pub struct DataSource {
    pub kind: String,
    pub network: Option<String>,
    pub name: String,
    pub source: Source,
    pub mapping: Mapping,
}

/// The manifest of a subgraph.
#[derive(Clone, Debug, PartialEq, Eq)]
pub struct SubgraphManifest {
    pub id: String,
    pub spec_version: String,
    pub description: Option<String>,
    pub repository: Option<String>,
    pub schema: Schema,
    pub data_sources: Vec<DataSource>,
}

} // verus!
