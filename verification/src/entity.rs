//! Entities, the operations that write them, and the store that takes the
//! operations.

use vstd::prelude::*;

verus! {

/// What an attribute value is.
pub ghost enum ValueView {
    String(Seq<char>),
    Number(u64),
    List(Seq<Seq<char>>),
    Null,
}

/// The texts of a sequence of strings.
pub open spec fn texts(strings: Seq<String>) -> Seq<Seq<char>> {
    strings.map_values(|s: String| s@)
}

/// The value of one attribute of an entity.
#[derive(Clone, Debug, PartialEq, Eq)]
pub enum Value {
    String(String),
    Number(u64),
    List(Vec<String>),
    Null,
}

impl View for Value {
    type V = ValueView;

    open spec fn view(&self) -> ValueView {
        match self {
            Value::String(s) => ValueView::String(s@),
            Value::Number(n) => ValueView::Number(*n),
            Value::List(items) => ValueView::List(texts(items@)),
            Value::Null => ValueView::Null,
        }
    }
}

impl Value {
    /// The value of an optional text: the text, or null where there is none.
    pub fn from_optional(text: Option<String>) -> (value: Value)
        ensures
            value@ == match text {
                Some(s) => ValueView::String(s@),
                None => ValueView::Null,
            },
    {
        match text {
            Some(s) => Value::String(s),
            None => Value::Null,
        }
    }
}

/// One assignment of a value to an attribute name.
#[derive(Clone, Debug, PartialEq, Eq)]
pub struct Attribute {
    pub name: String,
    pub value: Value,
}

/// The map that a sequence of assignments builds: a later assignment of a
/// name overrides an earlier one.
pub open spec fn assigned(attributes: Seq<Attribute>) -> Map<Seq<char>, ValueView>
    decreases attributes.len(),
{
    if attributes.len() == 0 {
        Map::empty()
    } else {
        assigned(attributes.drop_last()).insert(
            attributes.last().name@,
            attributes.last().value@,
        )
    }
}

/// An entity: a finite map from attribute names to values, kept as the
/// assignments in the order they were made.
#[derive(Clone, Debug, PartialEq, Eq)]
pub struct Entity {
    attributes: Vec<Attribute>,
}

impl View for Entity {
    type V = Map<Seq<char>, ValueView>;

    closed spec fn view(&self) -> Map<Seq<char>, ValueView> {
        assigned(self.attributes@)
    }
}

impl Entity {
    /// The entity without attributes.
    pub fn new() -> (entity: Entity)
        ensures
            entity@ == Map::<Seq<char>, ValueView>::empty(),
    {
        Entity { attributes: Vec::new() }
    }

    /// Sets the attribute `name` to `value`, replacing what it had.
    pub fn set(&mut self, name: &str, value: Value)
        ensures
            final(self)@ == old(self)@.insert(name@, value@),
    {
        let ghost before = self.attributes@;
        let name = name.to_owned();
        self.attributes.push(Attribute { name, value });
        proof {
            assert(self.attributes@.drop_last() =~= before);
        }
    }

    /// The value of the attribute `name`, if it has one.
    pub fn get(&self, name: &str) -> (value: Option<&Value>)
        ensures
            value is Some <==> self@.dom().contains(name@),
            value matches Some(v) ==> v@ == self@[name@],
    {
        let wanted = name.to_owned();
        let mut i: usize = self.attributes.len();
        proof {
            assert(self.attributes@.take(i as int) =~= self.attributes@);
        }
        while i > 0
            invariant
                i <= self.attributes@.len(),
                wanted@ == name@,
                assigned(self.attributes@).dom().contains(name@) <==> assigned(
                    self.attributes@.take(i as int),
                ).dom().contains(name@),
                assigned(self.attributes@).dom().contains(name@) ==> assigned(
                    self.attributes@,
                )[name@] == assigned(self.attributes@.take(i as int))[name@],
            decreases i,
        {
            proof {
                let prefix = self.attributes@.take(i as int);
                assert(prefix.drop_last() =~= self.attributes@.take(i - 1));
                assert(prefix.last() == self.attributes@[i - 1]);
            }
            i = i - 1;
            if self.attributes[i].name == wanted {
                return Some(&self.attributes[i].value);
            }
        }
        proof {
            assert(self.attributes@.take(0) =~= Seq::<Attribute>::empty());
        }
        None
    }

    /// The assignments in the order they were made; a later assignment of a
    /// name overrides an earlier one.
    pub fn attributes(&self) -> (attributes: &Vec<Attribute>)
        ensures
            assigned(attributes@) == self@,
    {
        &self.attributes
    }
}

/// What an entity operation is.
pub ghost struct OperationView {
    pub subgraph_id: Seq<char>,
    pub entity_type: Seq<char>,
    pub entity_id: Seq<char>,
    pub data: Map<Seq<char>, ValueView>,
}

/// Names one entity of one subgraph.
#[derive(Clone, Debug, PartialEq, Eq)]
pub struct EntityKey {
    pub subgraph_id: String,
    pub entity_type: String,
    pub entity_id: String,
}

/// An operation on the store.
#[derive(Clone, Debug, PartialEq, Eq)]
pub enum EntityOperation {
    /// Sets the entity named by `key` to `data`.
    Put { key: EntityKey, data: Entity },
}

impl View for EntityOperation {
    type V = OperationView;

    open spec fn view(&self) -> OperationView {
        match self {
            EntityOperation::Put { key, data } => OperationView {
                subgraph_id: key.subgraph_id@,
                entity_type: key.entity_type@,
                entity_id: key.entity_id@,
                data: data@,
            },
        }
    }
}

/// Why a store refused an operation.
#[derive(Clone, Debug, PartialEq, Eq)]
pub struct StoreError {
    pub message: String,
}

/// One call of a store: what was handed to it, and the error it answered
/// with where it refused.
pub ghost struct StoreCall {
    pub operation: OperationView,
    pub event_source: Seq<char>,
    pub refusal: Option<StoreError>,
}

/// The error in a store's answer, if it is one.
pub open spec fn refusal_of(result: Result<(), StoreError>) -> Option<StoreError> {
    match result {
        Ok(_) => None,
        Err(error) => Some(error),
    }
}

/// A store of entities.
pub trait Store {
    /// The calls made of this store so far, oldest first.
    spec fn log(&self) -> Seq<StoreCall>;

    /// Applies `operation` on behalf of `event_source`, or refuses it.
    /// Nothing is promised of the answer; the call is on the log with it.
    fn apply_set_operation(&mut self, operation: EntityOperation, event_source: String) -> (result:
        Result<(), StoreError>)
        ensures
            final(self).log() == old(self).log().push(
                StoreCall {
                    operation: operation@,
                    event_source: event_source@,
                    refusal: refusal_of(result),
                },
            ),
    ;
}

} // verus!
