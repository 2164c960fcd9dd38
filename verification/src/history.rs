//! What holds of a store over time.
//!
//! A [`History`] is a run of calls together with the store before the first
//! call, between the calls and after the last one. A restart of the process
//! is one of the calls. The statements here are about the views of stores, in
//! the terms that the contracts of the service use, so each of them holds of
//! every run of the service's functions.

use vstd::prelude::*;
use crate::codec::{fits, lemma_decode_encode, lemma_encode_decode, lemma_status_keeps_len};
use crate::error::Error;
use crate::record::{PayloadView, RequestView, Status};
use crate::service::StoreView;

verus! {

/// One call of the service.
pub enum Call {
    Create(PayloadView),
    Get(u64),
    Approve(u64),
    Reject(u64),
    Return(u64),
    /// A restart: the store is let go of and loaded again.
    Reopen,
}

impl StoreView {
    /// Whether `next` is the store that the call leaves when it is made on
    /// this one.
    pub open spec fn leads_to(self, call: Call, next: StoreView) -> bool {
        match call {
            Call::Create(payload) => next == self.after_create(payload),
            Call::Get(_) => next == self,
            Call::Approve(id) => next == self.after_status(id, Status::Approved),
            Call::Reject(id) => next == self.after_status(id, Status::Rejected),
            Call::Return(id) => next == self.after_return(id),
            Call::Reopen => next == self,
        }
    }
}

/// A run of calls and the stores it passes through: `states[i]` is the store
/// before `calls[i]`, and `states[i + 1]` the store after it.
pub struct History {
    pub states: Seq<StoreView>,
    pub calls: Seq<Call>,
}

impl History {
    /// Whether each call leads from the store before it to the store after
    /// it.
    pub open spec fn valid(self) -> bool {
        &&& self.states.len() == self.calls.len() + 1
        &&& forall|i: int|
            0 <= i < self.calls.len() ==> (#[trigger] self.states[i]).leads_to(
                self.calls[i],
                self.states[i + 1],
            )
    }

    /// Whether the call at `i` created a request.
    pub open spec fn created_at(self, i: int) -> bool {
        &&& 0 <= i < self.calls.len()
        &&& self.calls[i] is Create
        &&& self.states[i].admits(self.calls[i]->Create_0)
        &&& self.states[i + 1] == self.states[i].after_create(self.calls[i]->Create_0)
    }

    /// The request that the call at `i` created.
    pub open spec fn request_created_at(self, i: int) -> RequestView {
        self.states[i].created(self.calls[i]->Create_0)
    }

    /// Whether the call at `i` took the request under `id` out of the store.
    pub open spec fn returned_at(self, i: int, id: u64) -> bool {
        &&& 0 <= i < self.calls.len()
        &&& self.calls[i] == Call::Return(id)
        &&& self.states[i].record(id) is Some
    }
}

/// The store that is set up in an empty space is well formed, consistent and
/// laid out, holds nothing, admits every payload that fits, and gives the
/// first request the identifier 1.
pub proof fn lemma_initial_store(payload: PayloadView)
    ensures
        StoreView::initial().well_formed(),
        StoreView::initial().consistent(),
        StoreView::initial().laid_out(),
        forall|id: u64| !StoreView::initial().holds(id),
        StoreView::initial().created(payload).id == 1,
        StoreView::initial().admits(payload) == fits(StoreView::initial().created(payload)),
{
}

/// A new request can be looked up: after a creation, the store holds under
/// the new identifier exactly the request that was created.
pub proof fn lemma_created_is_found(store: StoreView, payload: PayloadView)
    requires
        store.admits(payload),
    ensures
        store.after_create(payload).record(store.next_id) == Some(store.created(payload)),
        store.created(payload).id == store.next_id,
        store.created(payload).status == Status::Pending,
{
    lemma_decode_encode(store.created(payload));
}

/// A creation in a well-formed store takes no stored request's place: every
/// entry that was there is still there, unchanged.
pub proof fn lemma_create_keeps_others(store: StoreView, payload: PayloadView, id: u64)
    requires
        store.well_formed(),
        store.holds(id),
    ensures
        id != store.next_id,
        store.after_create(payload).holds(id),
        store.after_create(payload).stored[id] == store.stored[id],
        store.after_create(payload).record(id) == store.record(id),
{
}

/// A change of status shows in a later lookup, and changes nothing else:
/// the request under the identifier has the new status and every other field
/// as before, all other entries and the counter are as before.
pub proof fn lemma_status_is_found(store: StoreView, id: u64, status: Status)
    requires
        store.record(id) is Some,
    ensures
        store.after_status(id, status).record(id) == Some(
            store.record(id)->Some_0.with_status(status),
        ),
        store.after_status(id, status).next_id == store.next_id,
        forall|other: u64|
            other != id ==> store.after_status(id, status).holds(other) == store.holds(other)
                && store.after_status(id, status).stored[other] == store.stored[other],
{
    let request = store.record(id)->Some_0;
    lemma_encode_decode(store.stored[id]);
    lemma_status_keeps_len(request, status);
    lemma_decode_encode(request.with_status(status));
}

/// Setting the status that a request already has changes nothing.
pub proof fn lemma_status_twice(store: StoreView, id: u64, status: Status)
    requires
        store.record(id) is Some,
    ensures
        store.after_status(id, status).after_status(id, status) == store.after_status(id, status),
{
    lemma_status_is_found(store, id, status);
    let once = store.after_status(id, status);
    assert(once.after_status(id, status).stored =~= once.stored);
}

/// What was returned is gone: right after the request under an identifier
/// was taken out, nothing is stored there, and all other entries and the
/// counter are as before. Where no request was there, the store is as
/// before.
pub proof fn lemma_returned_is_gone(store: StoreView, id: u64)
    ensures
        store.record(id) is Some ==> !store.after_return(id).holds(id),
        store.record(id) is Some ==> store.after_return(id).lookup_error(id) == Some(
            (Error::NotFound { id }),
        ),
        store.record(id) is None ==> store.after_return(id) == store,
        store.after_return(id).record(id) is None,
        store.after_return(id).next_id == store.next_id,
        forall|other: u64|
            other != id ==> store.after_return(id).holds(other) == store.holds(other)
                && store.after_return(id).stored[other] == store.stored[other],
{
}

/// Nothing is stored under an identifier that was never handed out: in a
/// well-formed store, the identifiers from the counter on are free.
pub proof fn lemma_unissued_is_absent(store: StoreView, id: u64)
    requires
        store.well_formed(),
        id >= store.next_id,
    ensures
        !store.holds(id),
        store.lookup_error(id) == Some((Error::NotFound { id })),
{
}

/// No call moves the counter back, and no call but a creation that succeeds
/// moves it at all. No call moves the counter or the map to another region.
pub proof fn lemma_call_keeps_counter(store: StoreView, call: Call, next: StoreView)
    requires
        store.leads_to(call, next),
    ensures
        store.next_id <= next.next_id,
        next.next_id != store.next_id ==> call is Create && store.admits(call->Create_0),
        next.counter_region == store.counter_region,
        next.records_region == store.records_region,
{
}

/// Every call leaves a well-formed store well formed.
pub proof fn lemma_call_keeps_well_formed(store: StoreView, call: Call, next: StoreView)
    requires
        store.well_formed(),
        store.leads_to(call, next),
    ensures
        next.well_formed(),
{
}

/// Writing a request that fits under its identifier leaves a consistent
/// store consistent.
pub proof fn lemma_insert_keeps_consistent(store: StoreView, request: RequestView)
    requires
        store.consistent(),
        fits(request),
    ensures
        store.after_insert(request).consistent(),
{
    lemma_decode_encode(request);
    let next = store.after_insert(request);
    assert forall|id: u64| #[trigger] next.stored.contains_key(id) implies next.record(
        id,
    ) is Some by {
        if id != request.id {
            assert(store.stored.contains_key(id));
        }
    }
}

/// Every call leaves a consistent store consistent.
pub proof fn lemma_call_keeps_consistent(store: StoreView, call: Call, next: StoreView)
    requires
        store.consistent(),
        store.leads_to(call, next),
    ensures
        next.consistent(),
{
    match call {
        Call::Create(payload) => {
            if store.admits(payload) {
                lemma_decode_encode(store.created(payload));
                assert forall|id: u64| #[trigger] next.stored.contains_key(id) implies next.record(
                    id,
                ) is Some by {
                    if id != store.next_id {
                        assert(store.stored.contains_key(id));
                    }
                }
            }
        },
        Call::Get(_) => {},
        Call::Approve(id) => {
            lemma_status_keeps_consistent(store, id, Status::Approved);
        },
        Call::Reject(id) => {
            lemma_status_keeps_consistent(store, id, Status::Rejected);
        },
        Call::Return(id) => {
            assert forall|other: u64| #[trigger] next.stored.contains_key(other) implies next.record(
                other,
            ) is Some by {
                assert(store.stored.contains_key(other));
            }
        },
        Call::Reopen => {},
    }
}

/// A change of status leaves a consistent store consistent.
pub proof fn lemma_status_keeps_consistent(store: StoreView, id: u64, status: Status)
    requires
        store.consistent(),
    ensures
        store.after_status(id, status).consistent(),
{
    let next = store.after_status(id, status);
    if store.record(id) is Some {
        assert(store.stored.contains_key(id));
        lemma_status_is_found(store, id, status);
        assert forall|other: u64| #[trigger] next.stored.contains_key(other) implies next.record(
            other,
        ) is Some by {
            if other != id {
                assert(store.stored.contains_key(other));
            }
        }
    }
}

/// A request that is found carries the identifier that it was looked up
/// under.
pub proof fn lemma_found_carries_id(store: StoreView, id: u64)
    requires
        store.record(id) is Some,
    ensures
        store.record(id)->Some_0.id == id,
        store.holds(id),
        store.lookup_error(id) is None,
{
}

/// In a consistent store a lookup fails with `NotFound` or not at all.
pub proof fn lemma_consistent_lookup(store: StoreView, id: u64)
    requires
        store.consistent(),
    ensures
        store.lookup_error(id) is Some ==> store.lookup_error(id) == Some(
            (Error::NotFound { id }),
        ),
        store.holds(id) ==> store.record(id) is Some,
{
}

/// Along a run the counter never moves back.
pub proof fn lemma_counter_never_decreases(history: History, i: int, j: int)
    requires
        history.valid(),
        0 <= i <= j <= history.calls.len(),
    ensures
        history.states[i].next_id <= history.states[j].next_id,
    decreases j - i,
{
    if i < j {
        lemma_counter_never_decreases(history, i, j - 1);
        lemma_call_keeps_counter(
            history.states[j - 1],
            history.calls[j - 1],
            history.states[j - 1 + 1],
        );
    }
}

/// Identifiers increase strictly: of two creations in a run, the later one
/// gets the greater identifier, whatever calls lie between them, restarts
/// among them. So no identifier is handed out twice.
pub proof fn lemma_ids_increase(history: History, i: int, j: int)
    requires
        history.valid(),
        i < j,
        history.created_at(i),
        history.created_at(j),
    ensures
        history.request_created_at(i).id < history.request_created_at(j).id,
{
    lemma_counter_never_decreases(history, i + 1, j);
}

/// Along a run that starts well formed, every store is well formed.
pub proof fn lemma_run_keeps_well_formed(history: History, j: int)
    requires
        history.valid(),
        history.states[0].well_formed(),
        0 <= j <= history.calls.len(),
    ensures
        history.states[j].well_formed(),
    decreases j,
{
    if 0 < j {
        lemma_run_keeps_well_formed(history, j - 1);
        lemma_call_keeps_well_formed(
            history.states[j - 1],
            history.calls[j - 1],
            history.states[j - 1 + 1],
        );
    }
}

/// What was returned stays gone: in a run that starts well formed, once the
/// request under an identifier was taken out, nothing is stored under that
/// identifier in any later store, whatever is created in between, and every
/// lookup there meets `NotFound`.
pub proof fn lemma_returned_stays_gone(history: History, i: int, j: int, id: u64)
    requires
        history.valid(),
        history.states[0].well_formed(),
        history.returned_at(i, id),
        i < j <= history.calls.len(),
    ensures
        !history.states[j].holds(id),
        history.states[j].lookup_error(id) == Some((Error::NotFound { id })),
        id < history.states[j].next_id,
    decreases j - i,
{
    lemma_run_keeps_well_formed(history, i);
    lemma_counter_never_decreases(history, i, j);
    if j == i + 1 {
        lemma_returned_is_gone(history.states[i], id);
    } else {
        lemma_returned_stays_gone(history, i, j - 1, id);
        let before = history.states[j - 1];
        assert(before.leads_to(history.calls[j - 1], history.states[j - 1 + 1]));
    }
}

/// Along a run that starts consistent, every store is consistent.
pub proof fn lemma_run_keeps_consistent(history: History, j: int)
    requires
        history.valid(),
        history.states[0].consistent(),
        0 <= j <= history.calls.len(),
    ensures
        history.states[j].consistent(),
    decreases j,
{
    if 0 < j {
        lemma_run_keeps_consistent(history, j - 1);
        lemma_call_keeps_consistent(
            history.states[j - 1],
            history.calls[j - 1],
            history.states[j - 1 + 1],
        );
    }
}

/// What was created stays: in a run that starts well formed, a request that
/// the run created is found under its identifier in every later store, for
/// as long as no call returns it. It has the fields that it was created
/// with; only its status may have changed.
pub proof fn lemma_created_stays(history: History, i: int, j: int)
    requires
        history.valid(),
        history.states[0].well_formed(),
        history.created_at(i),
        i < j <= history.calls.len(),
        forall|k: int|
            i < k < j ==> #[trigger] history.calls[k] != Call::Return(
                history.request_created_at(i).id,
            ),
    ensures
        history.states[j].record(history.request_created_at(i).id) is Some,
        history.states[j].record(history.request_created_at(i).id)->Some_0
            == history.request_created_at(i).with_status(
            history.states[j].record(history.request_created_at(i).id)->Some_0.status,
        ),
        j == i + 1 ==> history.states[j].record(history.request_created_at(i).id) == Some(
            history.request_created_at(i),
        ),
    decreases j - i,
{
    let created = history.request_created_at(i);
    let id = created.id;
    if j == i + 1 {
        lemma_created_is_found(history.states[i], history.calls[i]->Create_0);
    } else {
        lemma_created_stays(history, i, j - 1);
        lemma_counter_never_decreases(history, i + 1, j - 1);
        lemma_run_keeps_well_formed(history, j - 1);
        let before = history.states[j - 1];
        let call = history.calls[j - 1];
        assert(before.leads_to(call, history.states[j - 1 + 1]));
        assert(call != Call::Return(id));
        match call {
            Call::Approve(other) => {
                if before.record(other) is Some {
                    lemma_status_is_found(before, other, Status::Approved);
                }
            },
            Call::Reject(other) => {
                if before.record(other) is Some {
                    lemma_status_is_found(before, other, Status::Rejected);
                }
            },
            _ => {},
        }
    }
}

} // verus!
