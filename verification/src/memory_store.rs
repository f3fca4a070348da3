//! A store that keeps what it is handed in memory.

use crate::entity::{refusal_of, EntityOperation, Store, StoreCall, StoreError};
use vstd::prelude::*;

verus! {

/// One call of the store, as it was made: what was handed over, and the
/// error the store answered with where it refused.
#[derive(Clone, Debug, PartialEq, Eq)]
pub struct Recorded {
    pub operation: EntityOperation,
    pub event_source: String,
    pub refusal: Option<StoreError>,
}

/// The call that a record stands for.
pub open spec fn call_recorded(record: Recorded) -> StoreCall {
    StoreCall {
        operation: record.operation@,
        event_source: record.event_source@,
        refusal: record.refusal,
    }
}

/// A store in memory. It accepts operations until it has accepted as many as
/// its limit allows, and refuses every one after that; without a limit it
/// accepts all.
pub struct MemoryStore {
    records: Vec<Recorded>,
    limit: Option<usize>,
    accepted: usize,
}

impl MemoryStore {
    /// The calls made of the store so far, oldest first.
    pub closed spec fn calls(&self) -> Seq<StoreCall> {
        self.records@.map_values(|record: Recorded| call_recorded(record))
    }

    /// The number of operations the store still accepts, where it is limited.
    pub closed spec fn room(&self) -> Option<nat> {
        match self.limit {
            Some(limit) => Some(
                if self.accepted < limit {
                    (limit - self.accepted) as nat
                } else {
                    0
                },
            ),
            None => None,
        }
    }

    /// The room left after one more call.
    pub open spec fn room_after(room: Option<nat>) -> Option<nat> {
        match room {
            Some(left) => Some(
                if left > 0 {
                    (left - 1) as nat
                } else {
                    0
                },
            ),
            None => None,
        }
    }

    /// An empty store that accepts every operation.
    pub fn new() -> (store: MemoryStore)
        ensures
            store.calls() == Seq::<StoreCall>::empty(),
            store.room() is None,
    {
        let store = MemoryStore { records: Vec::new(), limit: None, accepted: 0 };
        assert(store.calls() =~= Seq::<StoreCall>::empty());
        store
    }

    /// An empty store that accepts `limit` operations and refuses the rest.
    pub fn with_limit(limit: usize) -> (store: MemoryStore)
        ensures
            store.calls() == Seq::<StoreCall>::empty(),
            store.room() == Some(limit as nat),
    {
        let store = MemoryStore { records: Vec::new(), limit: Some(limit), accepted: 0 };
        assert(store.calls() =~= Seq::<StoreCall>::empty());
        store
    }

    /// The calls made so far, oldest first.
    pub fn records(&self) -> (records: &Vec<Recorded>)
        ensures
            records@.map_values(|record: Recorded| call_recorded(record)) == self.calls(),
    {
        &self.records
    }

    /// Gives up the store for the calls made of it, oldest first.
    pub fn into_records(self) -> (records: Vec<Recorded>)
        ensures
            records@.map_values(|record: Recorded| call_recorded(record)) == self.calls(),
    {
        self.records
    }

    /// Records the call and accepts the operation while there is room.
    pub fn record(&mut self, operation: EntityOperation, event_source: String) -> (result: Result<
        (),
        StoreError,
    >)
        ensures
            result is Ok <==> old(self).room() != Some(0nat),
            result matches Err(error) ==> error.message@
                == "the store accepts no more operations"@,
            final(self).calls() == old(self).calls().push(
                StoreCall {
                    operation: operation@,
                    event_source: event_source@,
                    refusal: refusal_of(result),
                },
            ),
            final(self).room() == Self::room_after(old(self).room()),
    {
        let accepted = match self.limit {
            Some(limit) => self.accepted < limit,
            None => true,
        };
        let ghost before = self.records@;
        if accepted {
            let ghost record = Recorded { operation, event_source, refusal: None };
            self.records.push(Recorded { operation, event_source, refusal: None });
            proof {
                assert(self.records@ == before.push(record));
                assert(self.records@.map_values(|record: Recorded| call_recorded(record))
                    =~= before.map_values(|record: Recorded| call_recorded(record)).push(
                    call_recorded(record),
                ));
            }
            match self.limit {
                Some(_) => {
                    self.accepted = self.accepted + 1;
                },
                None => {},
            }
            Ok(())
        } else {
            let message = "the store accepts no more operations".to_owned();
            let error = StoreError { message: message.clone() };
            let ghost record = Recorded { operation, event_source, refusal: Some(error) };
            self.records.push(Recorded { operation, event_source, refusal: Some(error) });
            proof {
                assert(self.records@ == before.push(record));
                assert(self.records@.map_values(|record: Recorded| call_recorded(record))
                    =~= before.map_values(|record: Recorded| call_recorded(record)).push(
                    call_recorded(record),
                ));
            }
            Err(StoreError { message })
        }
    }
}

impl Store for MemoryStore {
    open spec fn log(&self) -> Seq<StoreCall> {
        self.calls()
    }

    /// Records the call and accepts the operation while there is room.
    fn apply_set_operation(&mut self, operation: EntityOperation, event_source: String) -> (result:
        Result<(), StoreError>)
        ensures
            result is Ok <==> old(self).room() != Some(0nat),
            result matches Err(error) ==> error.message@
                == "the store accepts no more operations"@,
            final(self).room() == Self::room_after(old(self).room()),
    {
        self.record(operation, event_source)
    }
}

} // verus!
