//! Writes the definition of a subgraph into the store, as entities of the
//! subgraph of subgraphs.

use crate::entity::{
    refusal_of, texts, Entity, EntityKey, EntityOperation, OperationView, Store, StoreCall,
    StoreError, Value, ValueView,
};
use crate::manifest::{
    DataSource, Mapping, MappingABI, MappingEventHandler, Source, SubgraphManifest,
};
use crate::text::{indexed_id, indexed_ids, with_index, with_suffix};
use vstd::prelude::*;

verus! {

/// The identifier of the subgraph of subgraphs.
pub const SUBGRAPHS_ID: &'static str = "subgraphs";

/// The type name of the root entity in the subgraph of subgraphs.
pub const SUBGRAPH_ENTITY_TYPENAME: &'static str = "Subgraph";

/// The value of an optional text.
pub open spec fn optional_text(text: Option<String>) -> ValueView {
    match text {
        Some(s) => ValueView::String(s@),
        None => ValueView::Null,
    }
}

/// The operation that sets the entity `entity_id` of the type `entity_type`
/// in the subgraph of subgraphs to `data`.
pub open spec fn put(
    entity_type: Seq<char>,
    entity_id: Seq<char>,
    data: Map<Seq<char>, ValueView>,
) -> OperationView {
    OperationView { subgraph_id: SUBGRAPHS_ID@, entity_type, entity_id, data }
}

/// The call that hands `operation` to the store, with the error the store
/// answered with where it refused.
pub open spec fn call_of(operation: OperationView, refusal: Option<StoreError>) -> StoreCall {
    StoreCall { operation, event_source: "none"@, refusal }
}

/// The calls that hand over each of `operations` and are all accepted.
pub open spec fn accepted_calls(operations: Seq<OperationView>) -> Seq<StoreCall> {
    operations.map_values(|operation: OperationView| call_of(operation, None))
}

/// The calls made when the store accepts the first `refused_at` of
/// `operations` and refuses the next one with `error`.
pub open spec fn calls_until(
    operations: Seq<OperationView>,
    refused_at: int,
    error: StoreError,
) -> Seq<StoreCall> {
    accepted_calls(operations.take(refused_at)).push(
        call_of(operations[refused_at], Some(error)),
    )
}

/// What writing `operations` does to a store whose calls were `before`, and
/// what it answers. `Ok`: every operation was handed over in order and
/// accepted. `Err`: the operations were handed over in order up to the first
/// that the store refused, nothing after it, and the error is the store's.
pub open spec fn written(
    before: Seq<StoreCall>,
    after: Seq<StoreCall>,
    operations: Seq<OperationView>,
    result: Result<(), StoreError>,
) -> bool {
    match result {
        Ok(_) => after == before + accepted_calls(operations),
        Err(error) => exists|refused_at: int|
            0 <= refused_at < operations.len() && after == before + #[trigger] calls_until(
                operations,
                refused_at,
                error,
            ),
    }
}

/// `a` is how `b` begins.
pub open spec fn is_prefix(a: Seq<OperationView>, b: Seq<OperationView>) -> bool {
    a.len() <= b.len() && b.take(a.len() as int) == a
}

/// Writing one list of operations and then another is writing the lists one
/// after the other.
pub proof fn lemma_written_then(
    a: Seq<StoreCall>,
    b: Seq<StoreCall>,
    c: Seq<StoreCall>,
    first: Seq<OperationView>,
    second: Seq<OperationView>,
    result: Result<(), StoreError>,
)
    requires
        written(a, b, first, Ok(())),
        written(b, c, second, result),
    ensures
        written(a, c, first + second, result),
{
    let all = first + second;
    match result {
        Ok(_) => {
            assert(accepted_calls(all) =~= accepted_calls(first) + accepted_calls(second));
            assert(a + accepted_calls(all) =~= (a + accepted_calls(first)) + accepted_calls(
                second,
            ));
        },
        Err(error) => {
            let k = choose|k: int|
                0 <= k < second.len() && c == b + #[trigger] calls_until(second, k, error);
            let n = first.len() as int;
            assert(all.take(n + k) =~= first + second.take(k));
            assert(accepted_calls(all.take(n + k)) =~= accepted_calls(first) + accepted_calls(
                second.take(k),
            ));
            assert(a + calls_until(all, n + k, error) =~= (a + accepted_calls(first))
                + calls_until(second, k, error));
        },
    }
}

/// A write that was refused within the beginning of a list was refused
/// within the list.
pub proof fn lemma_written_refused(
    a: Seq<StoreCall>,
    b: Seq<StoreCall>,
    begun: Seq<OperationView>,
    all: Seq<OperationView>,
    error: StoreError,
)
    requires
        written(a, b, begun, Err(error)),
        is_prefix(begun, all),
    ensures
        written(a, b, all, Err(error)),
{
    let k = choose|k: int|
        0 <= k < begun.len() && b == a + #[trigger] calls_until(begun, k, error);
    assert(all.take(k) =~= begun.take(k)) by {
        assert(all.take(begun.len() as int).take(k) =~= all.take(k));
    }
    assert(all[k] == all.take(begun.len() as int)[k]);
    assert(calls_until(all, k, error) == calls_until(begun, k, error));
}

/// The entity of an event handler.
pub open spec fn event_handler_entity(handler: MappingEventHandler, id: Seq<char>) -> Map<
    Seq<char>,
    ValueView,
> {
    Map::empty().insert("id"@, ValueView::String(id)).insert(
        "event"@,
        ValueView::String(handler.event@),
    ).insert("handler"@, ValueView::String(handler.handler@))
}

/// The operations that write an event handler.
pub open spec fn event_handler_operations(handler: MappingEventHandler, id: Seq<char>) -> Seq<
    OperationView,
> {
    seq![put("EthereumContractEventHandler"@, id, event_handler_entity(handler, id))]
}

/// The entity of a contract interface.
pub open spec fn abi_entity(abi: MappingABI, id: Seq<char>) -> Map<Seq<char>, ValueView> {
    Map::empty().insert("id"@, ValueView::String(id)).insert(
        "name"@,
        ValueView::String(abi.name@),
    ).insert("file"@, ValueView::String(abi.link.link@))
}

/// The operations that write a contract interface.
pub open spec fn abi_operations(abi: MappingABI, id: Seq<char>) -> Seq<OperationView> {
    seq![put("EthereumContractAbi"@, id, abi_entity(abi, id))]
}

/// The entity of a contract source.
pub open spec fn source_entity(source: Source, id: Seq<char>) -> Map<Seq<char>, ValueView> {
    Map::empty().insert("id"@, ValueView::String(id)).insert(
        "address"@,
        ValueView::String(source.address@),
    ).insert("abi"@, ValueView::String(source.abi@))
}

/// The operations that write a contract source.
pub open spec fn source_operations(source: Source, id: Seq<char>) -> Seq<OperationView> {
    seq![put("EthereumContractSource"@, id, source_entity(source, id))]
}

/// The operations that write the first `count` interfaces of a mapping.
pub open spec fn abis_operations(abis: Seq<MappingABI>, id: Seq<char>, count: nat) -> Seq<
    OperationView,
>
    decreases count,
{
    if count == 0 {
        Seq::empty()
    } else {
        abis_operations(abis, id, (count - 1) as nat) + abi_operations(
            abis[count - 1],
            indexed_id(id, "-abi-"@, (count - 1) as nat),
        )
    }
}

/// The operations that write the first `count` event handlers of a mapping.
pub open spec fn event_handlers_operations(
    handlers: Seq<MappingEventHandler>,
    id: Seq<char>,
    count: nat,
) -> Seq<OperationView>
    decreases count,
{
    if count == 0 {
        Seq::empty()
    } else {
        event_handlers_operations(handlers, id, (count - 1) as nat) + event_handler_operations(
            handlers[count - 1],
            indexed_id(id, "-event-handler-"@, (count - 1) as nat),
        )
    }
}

/// The entity of a mapping.
pub open spec fn mapping_entity(mapping: Mapping, id: Seq<char>) -> Map<Seq<char>, ValueView> {
    Map::empty().insert("id"@, ValueView::String(id)).insert(
        "kind"@,
        ValueView::String(mapping.kind@),
    ).insert("apiVersion"@, ValueView::String(mapping.api_version@)).insert(
        "language"@,
        ValueView::String(mapping.language@),
    ).insert("file"@, ValueView::String(mapping.link.link@)).insert(
        "abis"@,
        ValueView::List(indexed_ids(id, "-abi-"@, mapping.abis@.len())),
    ).insert("entities"@, ValueView::List(texts(mapping.entities@))).insert(
        "eventHandlers"@,
        ValueView::List(indexed_ids(id, "-event-handler-"@, mapping.event_handlers@.len())),
    )
}

/// The operations that write a mapping: its interfaces, its event handlers,
/// then the mapping itself.
pub open spec fn mapping_operations(mapping: Mapping, id: Seq<char>) -> Seq<OperationView> {
    abis_operations(mapping.abis@, id, mapping.abis@.len()) + event_handlers_operations(
        mapping.event_handlers@,
        id,
        mapping.event_handlers@.len(),
    ) + seq![put("EthereumContractMapping"@, id, mapping_entity(mapping, id))]
}

/// The entity of a data source.
pub open spec fn data_source_entity(data_source: DataSource, id: Seq<char>) -> Map<
    Seq<char>,
    ValueView,
> {
    Map::empty().insert("id"@, ValueView::String(id)).insert(
        "kind"@,
        ValueView::String(data_source.kind@),
    ).insert("network"@, optional_text(data_source.network)).insert(
        "name"@,
        ValueView::String(data_source.name@),
    ).insert("source"@, ValueView::String(id + "-source"@)).insert(
        "mapping"@,
        ValueView::String(id + "-mapping"@),
    )
}

/// The operations that write a data source: its source, its mapping, then
/// the data source itself.
pub open spec fn data_source_operations(data_source: DataSource, id: Seq<char>) -> Seq<
    OperationView,
> {
    source_operations(data_source.source, id + "-source"@) + mapping_operations(
        data_source.mapping,
        id + "-mapping"@,
    ) + seq![put("EthereumContractDataSource"@, id, data_source_entity(data_source, id))]
}

/// The operations that write the first `count` data sources of a manifest.
pub open spec fn data_sources_operations(
    data_sources: Seq<DataSource>,
    id: Seq<char>,
    count: nat,
) -> Seq<OperationView>
    decreases count,
{
    if count == 0 {
        Seq::empty()
    } else {
        data_sources_operations(data_sources, id, (count - 1) as nat) + data_source_operations(
            data_sources[count - 1],
            indexed_id(id, "-data-source-"@, (count - 1) as nat),
        )
    }
}

/// The entity of a manifest.
pub open spec fn manifest_entity(manifest: SubgraphManifest, id: Seq<char>) -> Map<
    Seq<char>,
    ValueView,
> {
    Map::empty().insert("id"@, ValueView::String(id)).insert(
        "specVersion"@,
        ValueView::String(manifest.spec_version@),
    ).insert("description"@, optional_text(manifest.description)).insert(
        "repository"@,
        optional_text(manifest.repository),
    ).insert("schema"@, ValueView::String(manifest.schema.document@)).insert(
        "dataSources"@,
        ValueView::List(indexed_ids(id, "-data-source-"@, manifest.data_sources@.len())),
    )
}

/// The operations that write a manifest: its data sources, then the manifest
/// itself.
pub open spec fn manifest_operations(manifest: SubgraphManifest, id: Seq<char>) -> Seq<
    OperationView,
> {
    data_sources_operations(manifest.data_sources@, id, manifest.data_sources@.len())
        + seq![put("SubgraphManifest"@, id, manifest_entity(manifest, id))]
}

/// The entity of a subgraph.
pub open spec fn subgraph_entity(manifest: SubgraphManifest, created_at: u64) -> Map<
    Seq<char>,
    ValueView,
> {
    Map::empty().insert("id"@, ValueView::String(manifest.id@)).insert(
        "createdAt"@,
        ValueView::Number(created_at),
    ).insert("manifest"@, ValueView::String(manifest.id@ + "-manifest"@))
}

/// The operations that write a subgraph: its manifest, then the subgraph
/// itself.
pub open spec fn subgraph_operations(manifest: SubgraphManifest, created_at: u64) -> Seq<
    OperationView,
> {
    manifest_operations(manifest, manifest.id@ + "-manifest"@) + seq![
        put(SUBGRAPH_ENTITY_TYPENAME@, manifest.id@, subgraph_entity(manifest, created_at)),
    ]
}

/// The operations for fewer interfaces are how those for more begin.
pub proof fn lemma_abis_prefix(abis: Seq<MappingABI>, id: Seq<char>, fewer: nat, more: nat)
    requires
        fewer <= more,
    ensures
        is_prefix(abis_operations(abis, id, fewer), abis_operations(abis, id, more)),
    decreases more - fewer,
{
    let short = abis_operations(abis, id, fewer);
    if fewer < more {
        lemma_abis_prefix(abis, id, fewer, (more - 1) as nat);
        let mid = abis_operations(abis, id, (more - 1) as nat);
        assert(abis_operations(abis, id, more).take(short.len() as int) =~= mid.take(
            short.len() as int,
        ));
    } else {
        assert(short.take(short.len() as int) =~= short);
    }
}

/// The operations for fewer event handlers are how those for more begin.
pub proof fn lemma_event_handlers_prefix(
    handlers: Seq<MappingEventHandler>,
    id: Seq<char>,
    fewer: nat,
    more: nat,
)
    requires
        fewer <= more,
    ensures
        is_prefix(
            event_handlers_operations(handlers, id, fewer),
            event_handlers_operations(handlers, id, more),
        ),
    decreases more - fewer,
{
    let short = event_handlers_operations(handlers, id, fewer);
    if fewer < more {
        lemma_event_handlers_prefix(handlers, id, fewer, (more - 1) as nat);
        let mid = event_handlers_operations(handlers, id, (more - 1) as nat);
        assert(event_handlers_operations(handlers, id, more).take(short.len() as int) =~= mid.take(
            short.len() as int,
        ));
    } else {
        assert(short.take(short.len() as int) =~= short);
    }
}

/// The operations for fewer data sources are how those for more begin.
pub proof fn lemma_data_sources_prefix(
    data_sources: Seq<DataSource>,
    id: Seq<char>,
    fewer: nat,
    more: nat,
)
    requires
        fewer <= more,
    ensures
        is_prefix(
            data_sources_operations(data_sources, id, fewer),
            data_sources_operations(data_sources, id, more),
        ),
    decreases more - fewer,
{
    let short = data_sources_operations(data_sources, id, fewer);
    if fewer < more {
        lemma_data_sources_prefix(data_sources, id, fewer, (more - 1) as nat);
        let mid = data_sources_operations(data_sources, id, (more - 1) as nat);
        assert(data_sources_operations(data_sources, id, more).take(short.len() as int) =~= mid.take(
            short.len() as int,
        ));
    } else {
        assert(short.take(short.len() as int) =~= short);
    }
}

/// The texts after one more string is appended.
pub proof fn lemma_ids_extended(
    ids: Seq<String>,
    next: String,
    id: Seq<char>,
    infix: Seq<char>,
    count: nat,
)
    requires
        texts(ids) == indexed_ids(id, infix, count),
        next@ == indexed_id(id, infix, count),
    ensures
        texts(ids.push(next)) == indexed_ids(id, infix, count + 1),
{
    assert(texts(ids).len() == count);
    assert forall|k: int| 0 <= k < count + 1 implies texts(ids.push(next))[k] == indexed_ids(
        id,
        infix,
        count + 1,
    )[k] by {
        if k < count {
            assert(texts(ids)[k] == indexed_ids(id, infix, count)[k]);
        }
    }
    assert(texts(ids.push(next)) =~= indexed_ids(id, infix, count + 1));
}

/// A list of operations is how it begins when more follow.
pub proof fn lemma_prefix_of_sum(a: Seq<OperationView>, b: Seq<OperationView>)
    ensures
        is_prefix(a, a + b),
{
    assert((a + b).take(a.len() as int) =~= a);
}

/// Beginning is transitive.
pub proof fn lemma_prefix_transitive(
    a: Seq<OperationView>,
    b: Seq<OperationView>,
    c: Seq<OperationView>,
)
    requires
        is_prefix(a, b),
        is_prefix(b, c),
    ensures
        is_prefix(a, c),
{
    assert(c.take(a.len() as int) =~= c.take(b.len() as int).take(a.len() as int));
}

/// Writes subgraph definitions into a store.
pub struct SubgraphDefinitionStore<S> {
    store: S,
}

impl<S: Store> SubgraphDefinitionStore<S> {
    /// The store written into.
    pub closed spec fn inner(&self) -> S {
        self.store
    }

    /// The calls made of the store written into, oldest first: what was
    /// handed to it each time, and what it answered.
    pub open spec fn calls(&self) -> Seq<StoreCall> {
        self.inner().log()
    }

    /// A writer into `store`.
    pub fn new(store: S) -> (definitions: Self)
        ensures
            definitions.inner() == store,
    {
        SubgraphDefinitionStore { store }
    }

    /// The store written into.
    pub fn store(&self) -> (store: &S)
        ensures
            *store == self.inner(),
    {
        &self.store
    }

    /// Gives the store back.
    pub fn into_store(self) -> (store: S)
        ensures
            store == self.inner(),
    {
        self.store
    }

    fn write(&mut self, entity_typename: &str, entity_id: String, data: Entity) -> (result: Result<
        (),
        StoreError,
    >)
        ensures
            final(self).calls() == old(self).calls().push(
                call_of(put(entity_typename@, entity_id@, data@), refusal_of(result)),
            ),
            written(
                old(self).calls(),
                final(self).calls(),
                seq![put(entity_typename@, entity_id@, data@)],
                result,
            ),
    {
        let ghost operation = put(entity_typename@, entity_id@, data@);
        let result = self.store.apply_set_operation(
            EntityOperation::Put {
                key: EntityKey {
                    subgraph_id: SUBGRAPHS_ID.to_owned(),
                    entity_type: entity_typename.to_owned(),
                    entity_id,
                },
                data,
            },
            "none".to_owned(),
        );
        proof {
            let before = old(self).calls();
            if result is Ok {
                assert(accepted_calls(seq![operation]) =~= seq![call_of(operation, None)]);
                assert(before + accepted_calls(seq![operation]) =~= before.push(
                    call_of(operation, None),
                ));
            } else {
                let error = refusal_of(result)->0;
                assert(seq![operation].take(0) =~= Seq::<OperationView>::empty());
                assert(calls_until(seq![operation], 0, error) =~= seq![
                    call_of(operation, Some(error)),
                ]);
                assert(before + calls_until(seq![operation], 0, error) =~= before.push(
                    call_of(operation, Some(error)),
                ));
            }
        }
        result
    }

    /// Writes an event handler as the entity `id`.
    pub fn write_mapping_event_handler(&mut self, handler: MappingEventHandler, id: String) -> (result:
        Result<(), StoreError>)
        ensures
            written(
                old(self).calls(),
                final(self).calls(),
                event_handler_operations(handler, id@),
                result,
            ),
    {
        let mut entity = Entity::new();
        entity.set("id", Value::String(id.clone()));
        entity.set("event", Value::String(handler.event));
        entity.set("handler", Value::String(handler.handler));
        self.write("EthereumContractEventHandler", id, entity)
    }

    /// Writes a contract interface as the entity `id`.
    pub fn write_mapping_abi(&mut self, abi: MappingABI, id: String) -> (result: Result<
        (),
        StoreError,
    >)
        ensures
            written(old(self).calls(), final(self).calls(), abi_operations(abi, id@), result),
    {
        let mut entity = Entity::new();
        entity.set("id", Value::String(id.clone()));
        entity.set("name", Value::String(abi.name));
        entity.set("file", Value::String(abi.link.link));
        self.write("EthereumContractAbi", id, entity)
    }

    /// Writes a contract source as the entity `id`.
    pub fn write_contract_source(&mut self, source: Source, id: String) -> (result: Result<
        (),
        StoreError,
    >)
        ensures
            written(
                old(self).calls(),
                final(self).calls(),
                source_operations(source, id@),
                result,
            ),
    {
        let mut entity = Entity::new();
        entity.set("id", Value::String(id.clone()));
        entity.set("address", Value::String(source.address));
        entity.set("abi", Value::String(source.abi));
        self.write("EthereumContractSource", id, entity)
    }

    /// Writes a mapping as the entity `id`, after its interfaces and its
    /// event handlers, and stops at the first refusal.
    pub fn write_contract_mapping(&mut self, mapping: Mapping, id: String) -> (result: Result<
        (),
        StoreError,
    >)
        ensures
            written(
                old(self).calls(),
                final(self).calls(),
                mapping_operations(mapping, id@),
                result,
            ),
    {
        let ghost start = self.calls();
        let ghost all_abis = mapping.abis@;
        let ghost all_handlers = mapping.event_handlers@;
        let ghost abi_count = all_abis.len();
        let ghost handler_count = all_handlers.len();
        let ghost tail = seq![put("EthereumContractMapping"@, id@, mapping_entity(mapping, id@))];
        let mut entity = Entity::new();
        entity.set("id", Value::String(id.clone()));
        entity.set("kind", Value::String(mapping.kind));
        entity.set("apiVersion", Value::String(mapping.api_version));
        entity.set("language", Value::String(mapping.language));
        entity.set("file", Value::String(mapping.link.link));

        let abi_total = mapping.abis.len();
        let handler_total = mapping.event_handlers.len();
        let mut abis: Vec<String> = Vec::new();
        let mut i: usize = 0;
        proof {
            assert(start + accepted_calls(Seq::empty()) =~= start);
        }
        for abi in it: mapping.abis
            invariant
                it.seq() == all_abis,
                i == it.index(),
                start == old(self).calls(),
                all_abis.len() == abi_total,
                texts(abis@) == indexed_ids(id@, "-abi-"@, i as nat),
                written(start, self.calls(), abis_operations(all_abis, id@, i as nat), Ok(())),
                abi_count == all_abis.len(),
                handler_count == all_handlers.len(),
                tail == seq![put("EthereumContractMapping"@, id@, mapping_entity(mapping, id@))],
                mapping_operations(mapping, id@) == abis_operations(all_abis, id@, abi_count)
                    + event_handlers_operations(all_handlers, id@, handler_count) + tail,
        {
            let ghost before = self.calls();
            let abi_id = with_index(&id, "-abi-", i);
            assert(abi == all_abis[i as int]);
            let outcome = self.write_mapping_abi(abi, abi_id.clone());
            proof {
                assert(abis_operations(all_abis, id@, (i + 1) as nat) == abis_operations(
                    all_abis,
                    id@,
                    i as nat,
                ) + abi_operations(all_abis[i as int], abi_id@));
                lemma_written_then(
                    start,
                    before,
                    self.calls(),
                    abis_operations(all_abis, id@, i as nat),
                    abi_operations(all_abis[i as int], abi_id@),
                    outcome,
                );
            }
            match outcome {
                Err(error) => {
                    proof {
                        let begun = abis_operations(all_abis, id@, (i + 1) as nat);
                        let whole = abis_operations(all_abis, id@, abi_count);
                        lemma_abis_prefix(all_abis, id@, (i + 1) as nat, abi_count);
                        lemma_prefix_of_sum(
                            whole,
                            event_handlers_operations(all_handlers, id@, handler_count) + tail,
                        );
                        assert(whole + (event_handlers_operations(all_handlers, id@, handler_count)
                            + tail) =~= mapping_operations(mapping, id@));
                        lemma_prefix_transitive(begun, whole, mapping_operations(mapping, id@));
                        lemma_written_refused(
                            start,
                            self.calls(),
                            begun,
                            mapping_operations(mapping, id@),
                            error,
                        );
                    }
                    return Err(error);
                },
                Ok(()) => {},
            }
            proof {
                lemma_ids_extended(abis@, abi_id, id@, "-abi-"@, i as nat);
            }
            abis.push(abi_id);
            i = i + 1;
        }
        entity.set("abis", Value::List(abis));
        entity.set("entities", Value::List(mapping.entities));

        let ghost abis_done = abis_operations(all_abis, id@, abi_count);
        let mut event_handlers: Vec<String> = Vec::new();
        let mut j: usize = 0;
        proof {
            assert(abis_done + event_handlers_operations(all_handlers, id@, 0) =~= abis_done);
        }
        for event_handler in it: mapping.event_handlers
            invariant
                it.seq() == all_handlers,
                j == it.index(),
                start == old(self).calls(),
                all_handlers.len() == handler_total,
                texts(event_handlers@) == indexed_ids(id@, "-event-handler-"@, j as nat),
                written(
                    start,
                    self.calls(),
                    abis_done + event_handlers_operations(all_handlers, id@, j as nat),
                    Ok(()),
                ),
                abis_done == abis_operations(all_abis, id@, abi_count),
                handler_count == all_handlers.len(),
                tail == seq![put("EthereumContractMapping"@, id@, mapping_entity(mapping, id@))],
                mapping_operations(mapping, id@) == abis_done + event_handlers_operations(
                    all_handlers,
                    id@,
                    handler_count,
                ) + tail,
        {
            let ghost before = self.calls();
            let event_handler_id = with_index(&id, "-event-handler-", j);
            assert(event_handler == all_handlers[j as int]);
            let outcome = self.write_mapping_event_handler(event_handler, event_handler_id.clone());
            proof {
                let so_far = event_handlers_operations(all_handlers, id@, j as nat);
                let one = event_handler_operations(all_handlers[j as int], event_handler_id@);
                assert(event_handlers_operations(all_handlers, id@, (j + 1) as nat) == so_far
                    + one);
                lemma_written_then(
                    start,
                    before,
                    self.calls(),
                    abis_done + so_far,
                    one,
                    outcome,
                );
                assert((abis_done + so_far) + one =~= abis_done + event_handlers_operations(
                    all_handlers,
                    id@,
                    (j + 1) as nat,
                ));
            }
            match outcome {
                Err(error) => {
                    proof {
                        let begun = event_handlers_operations(all_handlers, id@, (j + 1) as nat);
                        let whole = event_handlers_operations(all_handlers, id@, handler_count);
                        lemma_event_handlers_prefix(
                            all_handlers,
                            id@,
                            (j + 1) as nat,
                            handler_count,
                        );
                        assert(is_prefix(abis_done + begun, mapping_operations(mapping, id@))) by {
                            assert(mapping_operations(mapping, id@).take(
                                (abis_done + begun).len() as int,
                            ) =~= abis_done + whole.take(begun.len() as int));
                        }
                        lemma_written_refused(
                            start,
                            self.calls(),
                            abis_done + begun,
                            mapping_operations(mapping, id@),
                            error,
                        );
                    }
                    return Err(error);
                },
                Ok(()) => {},
            }
            proof {
                lemma_ids_extended(
                    event_handlers@,
                    event_handler_id,
                    id@,
                    "-event-handler-"@,
                    j as nat,
                );
            }
            event_handlers.push(event_handler_id);
            j = j + 1;
        }
        entity.set("eventHandlers", Value::List(event_handlers));

        let ghost before = self.calls();
        let result = self.write("EthereumContractMapping", id, entity);
        proof {
            lemma_written_then(
                start,
                before,
                self.calls(),
                abis_done + event_handlers_operations(all_handlers, id@, handler_count),
                tail,
                result,
            );
        }
        result
    }

    /// Writes a data source as the entity `id`, after its source and its
    /// mapping, and stops at the first refusal.
    pub fn write_data_source(&mut self, data_source: DataSource, id: String) -> (result: Result<
        (),
        StoreError,
    >)
        ensures
            written(
                old(self).calls(),
                final(self).calls(),
                data_source_operations(data_source, id@),
                result,
            ),
    {
        let ghost start = self.calls();
        let ghost all = data_source_operations(data_source, id@);
        let ghost source_part = source_operations(data_source.source, id@ + "-source"@);
        let ghost mapping_part = mapping_operations(data_source.mapping, id@ + "-mapping"@);
        let ghost tail = seq![
            put("EthereumContractDataSource"@, id@, data_source_entity(data_source, id@)),
        ];
        let mut entity = Entity::new();
        entity.set("id", Value::String(id.clone()));
        entity.set("kind", Value::String(data_source.kind));
        entity.set("network", Value::from_optional(data_source.network));
        entity.set("name", Value::String(data_source.name));

        let source_id = with_suffix(&id, "-source");
        match self.write_contract_source(data_source.source, source_id.clone()) {
            Err(error) => {
                proof {
                    lemma_prefix_of_sum(source_part, mapping_part + tail);
                    assert(source_part + (mapping_part + tail) =~= all);
                    lemma_written_refused(start, self.calls(), source_part, all, error);
                }
                return Err(error);
            },
            Ok(()) => {},
        }
        entity.set("source", Value::String(source_id));

        let ghost middle = self.calls();
        let mapping_id = with_suffix(&id, "-mapping");
        let outcome = self.write_contract_mapping(data_source.mapping, mapping_id.clone());
        proof {
            lemma_written_then(
                start,
                middle,
                self.calls(),
                source_part,
                mapping_part,
                outcome,
            );
        }
        match outcome {
            Err(error) => {
                proof {
                    lemma_prefix_of_sum(source_part + mapping_part, tail);
                    lemma_written_refused(start, self.calls(), source_part + mapping_part, all, error);
                }
                return Err(error);
            },
            Ok(()) => {},
        }
        entity.set("mapping", Value::String(mapping_id));

        let ghost before = self.calls();
        let result = self.write("EthereumContractDataSource", id, entity);
        proof {
            lemma_written_then(
                start,
                before,
                self.calls(),
                source_part + mapping_part,
                tail,
                result,
            );
        }
        result
    }

    /// Writes a manifest as the entity `id`, after its data sources, and
    /// stops at the first refusal.
    pub fn write_manifest(&mut self, manifest: SubgraphManifest, id: String) -> (result: Result<
        (),
        StoreError,
    >)
        ensures
            written(
                old(self).calls(),
                final(self).calls(),
                manifest_operations(manifest, id@),
                result,
            ),
    {
        let ghost start = self.calls();
        let ghost all_sources = manifest.data_sources@;
        let ghost count = all_sources.len();
        let ghost tail = seq![put("SubgraphManifest"@, id@, manifest_entity(manifest, id@))];
        let mut entity = Entity::new();
        entity.set("id", Value::String(id.clone()));
        entity.set("specVersion", Value::String(manifest.spec_version));
        entity.set("description", Value::from_optional(manifest.description));
        entity.set("repository", Value::from_optional(manifest.repository));
        entity.set("schema", Value::String(manifest.schema.document));

        let total = manifest.data_sources.len();
        let mut data_sources: Vec<String> = Vec::new();
        let mut i: usize = 0;
        proof {
            assert(start + accepted_calls(Seq::empty()) =~= start);
        }
        for data_source in it: manifest.data_sources
            invariant
                it.seq() == all_sources,
                i == it.index(),
                start == old(self).calls(),
                all_sources.len() == total,
                texts(data_sources@) == indexed_ids(id@, "-data-source-"@, i as nat),
                written(
                    start,
                    self.calls(),
                    data_sources_operations(all_sources, id@, i as nat),
                    Ok(()),
                ),
                count == all_sources.len(),
                tail == seq![put("SubgraphManifest"@, id@, manifest_entity(manifest, id@))],
                manifest_operations(manifest, id@) == data_sources_operations(
                    all_sources,
                    id@,
                    count,
                ) + tail,
        {
            let ghost before = self.calls();
            let data_source_id = with_index(&id, "-data-source-", i);
            assert(data_source == all_sources[i as int]);
            let outcome = self.write_data_source(data_source, data_source_id.clone());
            proof {
                assert(data_sources_operations(all_sources, id@, (i + 1) as nat)
                    == data_sources_operations(all_sources, id@, i as nat)
                    + data_source_operations(all_sources[i as int], data_source_id@));
                lemma_written_then(
                    start,
                    before,
                    self.calls(),
                    data_sources_operations(all_sources, id@, i as nat),
                    data_source_operations(all_sources[i as int], data_source_id@),
                    outcome,
                );
            }
            match outcome {
                Err(error) => {
                    proof {
                        let begun = data_sources_operations(all_sources, id@, (i + 1) as nat);
                        let whole = data_sources_operations(all_sources, id@, count);
                        lemma_data_sources_prefix(all_sources, id@, (i + 1) as nat, count);
                        lemma_prefix_of_sum(whole, tail);
                        lemma_prefix_transitive(begun, whole, manifest_operations(manifest, id@));
                        lemma_written_refused(
                            start,
                            self.calls(),
                            begun,
                            manifest_operations(manifest, id@),
                            error,
                        );
                    }
                    return Err(error);
                },
                Ok(()) => {},
            }
            proof {
                lemma_ids_extended(data_sources@, data_source_id, id@, "-data-source-"@, i as nat);
            }
            data_sources.push(data_source_id);
            i = i + 1;
        }
        entity.set("dataSources", Value::List(data_sources));

        let ghost before = self.calls();
        let result = self.write("SubgraphManifest", id, entity);
        proof {
            lemma_written_then(
                start,
                before,
                self.calls(),
                data_sources_operations(all_sources, id@, count),
                tail,
                result,
            );
        }
        result
    }

    /// Writes a subgraph created at `created_at` as the entity named by the
    /// manifest's identifier, after its manifest, and stops at the first
    /// refusal.
    pub fn write_subgraph(&mut self, manifest: SubgraphManifest, created_at: u64) -> (result: Result<
        (),
        StoreError,
    >)
        ensures
            written(
                old(self).calls(),
                final(self).calls(),
                subgraph_operations(manifest, created_at),
                result,
            ),
    {
        let ghost start = self.calls();
        let ghost all = subgraph_operations(manifest, created_at);
        let ghost manifest_part = manifest_operations(manifest, manifest.id@ + "-manifest"@);
        let ghost tail = seq![
            put(SUBGRAPH_ENTITY_TYPENAME@, manifest.id@, subgraph_entity(manifest, created_at)),
        ];
        let id = manifest.id.clone();

        let mut entity = Entity::new();
        entity.set("id", Value::String(id.clone()));
        entity.set("createdAt", Value::Number(created_at));

        let manifest_id = with_suffix(&id, "-manifest");
        match self.write_manifest(manifest, manifest_id.clone()) {
            Err(error) => {
                proof {
                    lemma_prefix_of_sum(manifest_part, tail);
                    lemma_written_refused(start, self.calls(), manifest_part, all, error);
                }
                return Err(error);
            },
            Ok(()) => {},
        }
        entity.set("manifest", Value::String(manifest_id));

        let ghost before = self.calls();
        let result = self.write(SUBGRAPH_ENTITY_TYPENAME, id, entity);
        proof {
            lemma_written_then(start, before, self.calls(), manifest_part, tail, result);
        }
        result
    }
}

} // verus!
