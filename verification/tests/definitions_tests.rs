use graph_node::definitions::{SubgraphDefinitionStore, SUBGRAPHS_ID, SUBGRAPH_ENTITY_TYPENAME};
use graph_node::entity::{Entity, EntityOperation, Value};
use graph_node::manifest::{
    DataSource, Link, Mapping, MappingABI, MappingEventHandler, Schema, Source, SubgraphManifest,
};
use graph_node::memory_store::{MemoryStore, Recorded};

fn text(s: &str) -> Value {
    Value::String(s.to_string())
}

fn list(items: &[&str]) -> Value {
    Value::List(items.iter().map(|s| s.to_string()).collect())
}

fn abi(name: &str) -> MappingABI {
    MappingABI { name: name.to_string(), link: Link { link: format!("/ipfs/{}.json", name) } }
}

fn handler(event: &str) -> MappingEventHandler {
    MappingEventHandler { event: event.to_string(), handler: format!("handle{}", event) }
}

fn mapping() -> Mapping {
    Mapping {
        kind: "ethereum/events".to_string(),
        api_version: "0.0.1".to_string(),
        language: "wasm/assemblyscript".to_string(),
        entities: vec!["Token".to_string(), "Owner".to_string()],
        abis: vec![abi("Token"), abi("Registry")],
        event_handlers: vec![handler("Transfer")],
        link: Link { link: "/ipfs/mapping.wasm".to_string() },
    }
}

fn data_source(name: &str) -> DataSource {
    DataSource {
        kind: "ethereum/contract".to_string(),
        network: Some("mainnet".to_string()),
        name: name.to_string(),
        source: Source { address: "0xabc".to_string(), abi: "Token".to_string() },
        mapping: mapping(),
    }
}

fn manifest() -> SubgraphManifest {
    SubgraphManifest {
        id: "Qm1".to_string(),
        spec_version: "0.0.1".to_string(),
        description: Some("tokens".to_string()),
        repository: None,
        schema: Schema { document: "type Token { id: ID! }".to_string() },
        data_sources: vec![data_source("first"), data_source("second")],
    }
}

// The type, the identifier and the entity of each call, and whether it was accepted.
fn calls(records: &Vec<Recorded>) -> Vec<(String, String, bool)> {
    records
        .iter()
        .map(|r| match &r.operation {
            EntityOperation::Put { key, .. } => {
                assert_eq!(key.subgraph_id, "subgraphs");
                assert_eq!(r.event_source, "none");
                (key.entity_type.clone(), key.entity_id.clone(), r.refusal.is_none())
            }
        })
        .collect()
}

fn entity_of(records: &Vec<Recorded>, id: &str) -> Entity {
    for r in records {
        match &r.operation {
            EntityOperation::Put { key, data } => {
                if key.entity_id == id {
                    return data.clone();
                }
            }
        }
    }
    panic!("no entity {}", id)
}

fn accepted(kind: &str, id: &str) -> (String, String, bool) {
    (kind.to_string(), id.to_string(), true)
}

#[test]
fn the_names_of_the_subgraph_of_subgraphs() {
    assert_eq!(SUBGRAPHS_ID, "subgraphs");
    assert_eq!(SUBGRAPH_ENTITY_TYPENAME, "Subgraph");
}

#[test]
fn an_event_handler_is_written() {
    let mut definitions = SubgraphDefinitionStore::new(MemoryStore::new());
    assert!(definitions.write_mapping_event_handler(handler("Transfer"), "h-0".to_string()).is_ok());
    let records = definitions.store().records();
    assert_eq!(calls(records), vec![accepted("EthereumContractEventHandler", "h-0")]);
    let entity = entity_of(records, "h-0");
    assert_eq!(entity.get("id"), Some(&text("h-0")));
    assert_eq!(entity.get("event"), Some(&text("Transfer")));
    assert_eq!(entity.get("handler"), Some(&text("handleTransfer")));
    assert_eq!(entity.get("name"), None);
    assert_eq!(entity.attributes().len(), 3);
}

#[test]
fn an_abi_is_written() {
    let mut definitions = SubgraphDefinitionStore::new(MemoryStore::new());
    assert!(definitions.write_mapping_abi(abi("Token"), "a-0".to_string()).is_ok());
    let records = definitions.store().records();
    assert_eq!(calls(records), vec![accepted("EthereumContractAbi", "a-0")]);
    let entity = entity_of(records, "a-0");
    assert_eq!(entity.get("id"), Some(&text("a-0")));
    assert_eq!(entity.get("name"), Some(&text("Token")));
    assert_eq!(entity.get("file"), Some(&text("/ipfs/Token.json")));
}

#[test]
fn a_contract_source_is_written() {
    let mut definitions = SubgraphDefinitionStore::new(MemoryStore::new());
    let source = Source { address: "0xabc".to_string(), abi: "Token".to_string() };
    assert!(definitions.write_contract_source(source, "s".to_string()).is_ok());
    let records = definitions.store().records();
    assert_eq!(calls(records), vec![accepted("EthereumContractSource", "s")]);
    let entity = entity_of(records, "s");
    assert_eq!(entity.get("id"), Some(&text("s")));
    assert_eq!(entity.get("address"), Some(&text("0xabc")));
    assert_eq!(entity.get("abi"), Some(&text("Token")));
}

#[test]
fn a_mapping_is_written_after_its_parts() {
    let mut definitions = SubgraphDefinitionStore::new(MemoryStore::new());
    assert!(definitions.write_contract_mapping(mapping(), "m".to_string()).is_ok());
    let records = definitions.store().records();
    assert_eq!(
        calls(records),
        vec![
            accepted("EthereumContractAbi", "m-abi-0"),
            accepted("EthereumContractAbi", "m-abi-1"),
            accepted("EthereumContractEventHandler", "m-event-handler-0"),
            accepted("EthereumContractMapping", "m"),
        ]
    );
    let entity = entity_of(records, "m");
    assert_eq!(entity.get("id"), Some(&text("m")));
    assert_eq!(entity.get("kind"), Some(&text("ethereum/events")));
    assert_eq!(entity.get("apiVersion"), Some(&text("0.0.1")));
    assert_eq!(entity.get("language"), Some(&text("wasm/assemblyscript")));
    assert_eq!(entity.get("file"), Some(&text("/ipfs/mapping.wasm")));
    assert_eq!(entity.get("abis"), Some(&list(&["m-abi-0", "m-abi-1"])));
    assert_eq!(entity.get("entities"), Some(&list(&["Token", "Owner"])));
    assert_eq!(entity.get("eventHandlers"), Some(&list(&["m-event-handler-0"])));
    assert_eq!(entity_of(records, "m-abi-1").get("name"), Some(&text("Registry")));
}

#[test]
fn a_data_source_is_written_after_its_source_and_mapping() {
    let mut definitions = SubgraphDefinitionStore::new(MemoryStore::new());
    assert!(definitions.write_data_source(data_source("first"), "d".to_string()).is_ok());
    let records = definitions.store().records();
    assert_eq!(
        calls(records),
        vec![
            accepted("EthereumContractSource", "d-source"),
            accepted("EthereumContractAbi", "d-mapping-abi-0"),
            accepted("EthereumContractAbi", "d-mapping-abi-1"),
            accepted("EthereumContractEventHandler", "d-mapping-event-handler-0"),
            accepted("EthereumContractMapping", "d-mapping"),
            accepted("EthereumContractDataSource", "d"),
        ]
    );
    let entity = entity_of(records, "d");
    assert_eq!(entity.get("id"), Some(&text("d")));
    assert_eq!(entity.get("kind"), Some(&text("ethereum/contract")));
    assert_eq!(entity.get("network"), Some(&text("mainnet")));
    assert_eq!(entity.get("name"), Some(&text("first")));
    assert_eq!(entity.get("source"), Some(&text("d-source")));
    assert_eq!(entity.get("mapping"), Some(&text("d-mapping")));
}

#[test]
fn a_manifest_is_written_after_its_data_sources() {
    let mut definitions = SubgraphDefinitionStore::new(MemoryStore::new());
    assert!(definitions.write_manifest(manifest(), "x".to_string()).is_ok());
    let records = definitions.store().records();
    let made = calls(records);
    assert_eq!(made.len(), 13);
    assert_eq!(made[0], accepted("EthereumContractSource", "x-data-source-0-source"));
    assert_eq!(made[5], accepted("EthereumContractDataSource", "x-data-source-0"));
    assert_eq!(made[6], accepted("EthereumContractSource", "x-data-source-1-source"));
    assert_eq!(made[9], accepted("EthereumContractEventHandler", "x-data-source-1-mapping-event-handler-0"));
    assert_eq!(made[11], accepted("EthereumContractDataSource", "x-data-source-1"));
    assert_eq!(made[12], accepted("SubgraphManifest", "x"));
    let entity = entity_of(records, "x");
    assert_eq!(entity.get("id"), Some(&text("x")));
    assert_eq!(entity.get("specVersion"), Some(&text("0.0.1")));
    assert_eq!(entity.get("description"), Some(&text("tokens")));
    assert_eq!(entity.get("repository"), Some(&Value::Null));
    assert_eq!(entity.get("schema"), Some(&text("type Token { id: ID! }")));
    assert_eq!(entity.get("dataSources"), Some(&list(&["x-data-source-0", "x-data-source-1"])));
}

#[test]
fn a_subgraph_is_written_after_its_manifest() {
    let mut definitions = SubgraphDefinitionStore::new(MemoryStore::new());
    assert!(definitions.write_subgraph(manifest(), 1_540_000_000).is_ok());
    let records = definitions.store().records();
    let made = calls(records);
    assert_eq!(made.len(), 14);
    assert_eq!(made[12], accepted("SubgraphManifest", "Qm1-manifest"));
    assert_eq!(made[13], accepted("Subgraph", "Qm1"));
    assert_eq!(made[0].1, "Qm1-manifest-data-source-0-source");
    let entity = entity_of(records, "Qm1");
    assert_eq!(entity.get("id"), Some(&text("Qm1")));
    assert_eq!(entity.get("createdAt"), Some(&Value::Number(1_540_000_000)));
    assert_eq!(entity.get("manifest"), Some(&text("Qm1-manifest")));
}

#[test]
fn a_manifest_without_data_sources() {
    let mut empty = manifest();
    empty.data_sources = Vec::new();
    let mut definitions = SubgraphDefinitionStore::new(MemoryStore::new());
    assert!(definitions.write_subgraph(empty, 7).is_ok());
    let records = definitions.store().records();
    assert_eq!(
        calls(records),
        vec![accepted("SubgraphManifest", "Qm1-manifest"), accepted("Subgraph", "Qm1")]
    );
    assert_eq!(entity_of(records, "Qm1-manifest").get("dataSources"), Some(&list(&[])));
}

#[test]
fn writing_stops_at_the_first_refusal() {
    let mut definitions = SubgraphDefinitionStore::new(MemoryStore::with_limit(7));
    let result = definitions.write_subgraph(manifest(), 7);
    assert!(result.is_err());
    let made = calls(definitions.store().records());
    assert_eq!(made.len(), 8);
    assert!(made[..7].iter().all(|call| call.2));
    assert_eq!(
        made[7],
        ("EthereumContractAbi".to_string(), "Qm1-manifest-data-source-1-mapping-abi-0".to_string(), false)
    );

    let mut definitions = SubgraphDefinitionStore::new(MemoryStore::with_limit(0));
    assert!(definitions.write_mapping_abi(abi("Token"), "a".to_string()).is_err());
    assert_eq!(
        calls(definitions.store().records()),
        vec![("EthereumContractAbi".to_string(), "a".to_string(), false)]
    );

    let mut definitions = SubgraphDefinitionStore::new(MemoryStore::with_limit(13));
    assert!(definitions.write_subgraph(manifest(), 7).is_err());
    let made = calls(definitions.store().records());
    assert_eq!(made.len(), 14);
    assert_eq!(made[13], ("Subgraph".to_string(), "Qm1".to_string(), false));
}

#[test]
fn a_later_assignment_overrides_an_earlier_one() {
    let mut entity = Entity::new();
    assert_eq!(entity.get("a"), None);
    entity.set("a", Value::Number(1));
    entity.set("b", Value::Null);
    entity.set("a", Value::Number(2));
    assert_eq!(entity.get("a"), Some(&Value::Number(2)));
    assert_eq!(entity.get("b"), Some(&Value::Null));
    assert_eq!(entity.get("c"), None);
    assert_eq!(Value::from_optional(None), Value::Null);
    assert_eq!(Value::from_optional(Some("x".to_string())), text("x"));
}

#[test]
fn the_error_returned_is_the_stores() {
    let mut definitions = SubgraphDefinitionStore::new(MemoryStore::with_limit(2));
    let error = definitions.write_contract_mapping(mapping(), "m".to_string()).unwrap_err();
    assert_eq!(error.message, "the store accepts no more operations");
    let records = definitions.into_store().into_records();
    assert_eq!(records.len(), 3);
    assert_eq!(records[0].refusal, None);
    assert_eq!(records[1].refusal, None);
    assert_eq!(records[2].refusal, Some(error));
}

#[test]
fn the_store_given_back_holds_what_was_written() {
    let mut definitions = SubgraphDefinitionStore::new(MemoryStore::new());
    assert!(definitions.write_mapping_abi(abi("Token"), "a-0".to_string()).is_ok());
    assert!(definitions.write_mapping_abi(abi("Registry"), "a-1".to_string()).is_ok());
    let store = definitions.into_store();
    assert_eq!(
        calls(store.records()),
        vec![accepted("EthereumContractAbi", "a-0"), accepted("EthereumContractAbi", "a-1")]
    );
    assert_eq!(entity_of(store.records(), "a-1").get("name"), Some(&text("Registry")));
}

#[test]
fn a_store_is_written_through_its_own_interface() {
    let mut store = MemoryStore::with_limit(1);
    let first = EntityOperation::Put {
        key: graph_node::entity::EntityKey {
            subgraph_id: "subgraphs".to_string(),
            entity_type: "T".to_string(),
            entity_id: "1".to_string(),
        },
        data: Entity::new(),
    };
    let second = first.clone();
    assert!(store.record(first, "none".to_string()).is_ok());
    let refused = graph_node::entity::Store::apply_set_operation(
        &mut store,
        second,
        "none".to_string(),
    );
    assert_eq!(refused.unwrap_err().message, "the store accepts no more operations");
    assert_eq!(calls(store.records()), vec![
        ("T".to_string(), "1".to_string(), true),
        ("T".to_string(), "1".to_string(), false),
    ]);
}
