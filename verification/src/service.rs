//! The rental-request service: a counter that hands out identifiers and a
//! map that holds the requests, both durable.
//!
//! The contracts speak of a store through its view, a [`StoreView`]: the
//! next identifier, the stored bytes under each identifier, and the regions
//! that the two parts lie in.

use vstd::prelude::*;
use ic_stable_structures::cell::{InitError, ValueError};
use crate::codec::{
    fits, lemma_encode_decode, lemma_status_keeps_len, spec_decode, spec_encode,
};
use crate::error::Error;
use crate::history::{
    lemma_call_keeps_consistent, lemma_call_keeps_well_formed, lemma_insert_keeps_consistent,
    lemma_status_keeps_consistent, Call,
};
use crate::record::{PayloadView, RentalRequest, RentalRequestPayload, RequestView, Status};
use crate::storage::{
    allocator_init, cell_get, cell_init, cell_new, cell_region, cell_reload, cell_set,
    counter_value, default_space, map_contents, map_get, map_init, map_insert, map_last_key,
    map_new, map_region, map_reload, map_remove, region, region_pages, IdCell, RecordMap,
    COUNTER_REGION, RECORDS_REGION,
};

verus! {

/// The identifier of the first request of a new store.
pub const FIRST_ID: u64 = 1;

/// The counter and the map of requests, each in its region of one byte
/// space.
pub struct RentalStore {
    counter: IdCell,
    records: RecordMap,
    fresh: bool,
}

/// The mathematical value of a [`RentalStore`].
#[verifier::ext_equal]
pub struct StoreView {
    /// The identifier that the next new request gets.
    pub next_id: u64,
    /// The bytes stored under each identifier.
    pub stored: Map<u64, Seq<u8>>,
    /// The number of the region that holds the counter.
    pub counter_region: u8,
    /// The number of the region that holds the map of requests.
    pub records_region: u8,
}

impl View for RentalStore {
    type V = StoreView;

    closed spec fn view(&self) -> StoreView {
        StoreView {
            next_id: counter_value(self.counter),
            stored: map_contents(self.records),
            counter_region: cell_region(self.counter),
            records_region: map_region(self.records),
        }
    }
}

/// The request that bytes stored under an identifier stand for: the request
/// that they encode, if they encode one and it carries that identifier.
pub open spec fn entry_request(id: u64, bytes: Seq<u8>) -> Option<RequestView> {
    match spec_decode(bytes) {
        Some(request) => if request.id == id {
            Some(request)
        } else {
            None
        },
        None => None,
    }
}

impl StoreView {
    /// The store that is set up in an empty byte space: the counter at 1, no
    /// request, the counter in region 0 and the map in region 1.
    pub open spec fn initial() -> StoreView {
        StoreView {
            next_id: 1,
            stored: Map::<u64, Seq<u8>>::empty(),
            counter_region: 0,
            records_region: 1,
        }
    }

    /// Whether the counter lies in region 0 and the map in region 1.
    pub open spec fn laid_out(self) -> bool {
        self.counter_region == 0 && self.records_region == 1
    }

    /// Whether something is stored under the identifier.
    pub open spec fn holds(self, id: u64) -> bool {
        self.stored.contains_key(id)
    }

    /// The request stored under the identifier: `None` where nothing is
    /// stored there, or where what is stored is not the encoding of a
    /// request with that identifier.
    pub open spec fn record(self, id: u64) -> Option<RequestView> {
        if self.holds(id) {
            entry_request(id, self.stored[id])
        } else {
            None
        }
    }

    /// The failure that a lookup under the identifier meets: `NotFound` where
    /// nothing is stored there, `Undecodable` where what is stored is not the
    /// encoding of a request with that identifier, and none where a request
    /// is stored.
    pub open spec fn lookup_error(self, id: u64) -> Option<Error> {
        if !self.holds(id) {
            Some(Error::NotFound { id })
        } else if self.record(id) is None {
            Some(Error::Undecodable { id })
        } else {
            None
        }
    }

    /// Whether every identifier in use lies below the counter, so that no
    /// new request takes the place of a stored one.
    pub open spec fn well_formed(self) -> bool {
        forall|id: u64| #[trigger] self.stored.contains_key(id) ==> id < self.next_id
    }

    /// Whether every entry is the encoding of a request with the identifier
    /// that it is stored under, so that no lookup meets `Undecodable`.
    pub open spec fn consistent(self) -> bool {
        forall|id: u64| #[trigger] self.stored.contains_key(id) ==> self.record(id) is Some
    }

    /// The request that the payload would become now.
    pub open spec fn created(self, payload: PayloadView) -> RequestView {
        RequestView::pending(self.next_id, payload)
    }

    /// Whether a request can be created from the payload: an identifier is
    /// left, and the encoded request is not too long.
    pub open spec fn admits(self, payload: PayloadView) -> bool {
        self.next_id < u64::MAX && fits(self.created(payload))
    }

    /// The failure that a creation from the payload meets: `RecordTooLarge`
    /// where the encoded request would be too long, `IdsExhausted` where it
    /// fits and the counter has reached the last `u64`, and none otherwise.
    pub open spec fn create_error(self, payload: PayloadView) -> Option<Error> {
        if !fits(self.created(payload)) {
            Some(Error::RecordTooLarge)
        } else if self.next_id == u64::MAX {
            Some(Error::IdsExhausted)
        } else {
            None
        }
    }

    /// The store with the request written under its identifier.
    pub open spec fn after_insert(self, request: RequestView) -> StoreView {
        StoreView { stored: self.stored.insert(request.id, spec_encode(request)), ..self }
    }

    /// The store after a creation from the payload: with the new request and
    /// the counter moved on by one where the store admits the payload, and
    /// the same store where it does not.
    pub open spec fn after_create(self, payload: PayloadView) -> StoreView {
        if self.admits(payload) {
            StoreView {
                next_id: (self.next_id + 1) as u64,
                stored: self.stored.insert(self.next_id, spec_encode(self.created(payload))),
                ..self
            }
        } else {
            self
        }
    }

    /// The store after the request under the identifier got the status and
    /// was written back in its place; the same store where no request is
    /// there.
    pub open spec fn after_status(self, id: u64, status: Status) -> StoreView {
        match self.record(id) {
            Some(request) => self.after_insert(request.with_status(status)),
            None => self,
        }
    }

    /// The store after the request under the identifier was taken out; the
    /// same store where no request is there.
    pub open spec fn after_return(self, id: u64) -> StoreView {
        match self.record(id) {
            Some(_) => StoreView { stored: self.stored.remove(id), ..self },
            None => self,
        }
    }
}

impl RentalStore {
    /// Whether opening set this store up in an empty byte space, rather than
    /// load what the space held.
    pub closed spec fn set_up(&self) -> bool {
        self.fresh
    }

    /// Whether opening set this store up in an empty byte space, rather than
    /// load what the space held.
    pub fn was_set_up(&self) -> (fresh: bool)
        ensures
            fresh == self.set_up(),
    {
        self.fresh
    }

    /// The identifier that the next new request gets.
    pub fn next_id(&self) -> (id: u64)
        ensures
            id == self@.next_id,
    {
        cell_get(&self.counter)
    }
}

/// What a write to the counter comes to: the value before, or the failure
/// of the write.
pub fn counter_outcome(written: Result<u64, ValueError>) -> (r: Result<u64, Error>)
    ensures
        r == match written {
            Ok(before) => Ok::<u64, Error>(before),
            Err(_) => Err(Error::CounterWrite),
        },
{
    match written {
        Ok(before) => Ok(before),
        Err(_) => Err(Error::CounterWrite),
    }
}

/// What opening the counter comes to: the counter, or the failure to load
/// it.
pub fn init_outcome(opened: Result<IdCell, InitError>) -> (r: Result<IdCell, Error>)
    ensures
        r == match opened {
            Ok(cell) => Ok::<IdCell, Error>(cell),
            Err(_) => Err(Error::CounterInit),
        },
{
    match opened {
        Ok(cell) => Ok(cell),
        Err(_) => Err(Error::CounterInit),
    }
}

/// The identifier that follows the given one, or `IdsExhausted` after the
/// last `u64`.
pub fn following_id(id: u64) -> (r: Result<u64, Error>)
    ensures
        r == if id < u64::MAX {
            Ok::<u64, Error>((id + 1) as u64)
        } else {
            Err(Error::IdsExhausted)
        },
{
    if id < u64::MAX {
        Ok(id + 1)
    } else {
        Err(Error::IdsExhausted)
    }
}

/// What the entry under an identifier comes to: no request where there is
/// no entry, the request that the entry's bytes encode, or `Undecodable`
/// where they encode none or one with another identifier.
pub fn read_entry(id: u64, entry: Option<Vec<u8>>) -> (r: Result<Option<RentalRequest>, Error>)
    ensures
        match r {
            Ok(Some(request)) => entry is Some && entry_request(id, entry->Some_0@) == Some(
                request@,
            ),
            Ok(None) => entry is None,
            Err(e) => {
                &&& entry is Some
                &&& entry_request(id, entry->Some_0@) is None
                &&& e == (Error::Undecodable { id })
            },
        },
{
    match entry {
        None => Ok(None),
        Some(bytes) => match RentalRequest::from_bytes(bytes.as_slice()) {
            Some(request) => {
                if request.id == id {
                    Ok(Some(request))
                } else {
                    Err(Error::Undecodable { id })
                }
            },
            None => Err(Error::Undecodable { id }),
        },
    }
}

/// Checks a counter against the greatest identifier in use: the counter
/// must lie above it.
pub fn counter_covers(greatest: Option<u64>, next_id: u64) -> (r: Result<(), Error>)
    ensures
        r is Ok <==> (greatest is None || greatest->Some_0 < next_id),
        r is Err ==> r->Err_0 == (Error::CounterBehind { id: greatest->Some_0 }),
{
    match greatest {
        Some(id) => {
            if id >= next_id {
                Err(Error::CounterBehind { id })
            } else {
                Ok(())
            }
        },
        None => Ok(()),
    }
}

/// Whether a byte space holds no store yet: neither the region of the
/// counter nor the region of the map was ever written to.
pub fn holds_no_store(counter_pages: u64, records_pages: u64) -> (empty: bool)
    ensures
        empty == (counter_pages == 0 && records_pages == 0),
{
    counter_pages == 0 && records_pages == 0
}

/// Puts a counter and a map together to a store, once the counter is seen
/// to lie above every identifier in use.
fn assemble(counter: IdCell, records: RecordMap, fresh: bool) -> (r: Result<RentalStore, Error>)
    ensures
        r is Ok <==> (forall|id: u64| #[trigger]
            map_contents(records).contains_key(id) ==> id < counter_value(counter)),
        r is Ok ==> r->Ok_0.counter == counter && r->Ok_0.records == records && r->Ok_0.fresh
            == fresh,
        r is Err ==> r->Err_0 is CounterBehind,
{
    match counter_covers(map_last_key(&records), cell_get(&counter)) {
        Ok(()) => Ok(RentalStore { counter, records, fresh }),
        Err(e) => Err(e),
    }
}

/// Opens the store of this process over its byte space, with the counter in
/// region 0 and the map of requests in region 1.
///
/// In a space that holds no store, a store is set up with no request and
/// the counter at [`FIRST_ID`]. Otherwise the counter and the requests that
/// the space holds are loaded. What the space holds is not a value that the
/// contract could speak of, so for a store that was loaded it says what
/// holds of every outcome: the store is well formed. Opening fails with
/// `CounterInit` where the counter cannot be set up or loaded, and with
/// `CounterBehind` where a request is stored under an identifier that the
/// counter has not reached.
///
/// A process opens its store once: two stores over one space would write
/// over each other.
pub fn open() -> (r: Result<RentalStore, Error>)
    ensures
        r is Ok ==> r->Ok_0@.well_formed() && r->Ok_0@.laid_out(),
        r is Ok ==> (r->Ok_0.set_up() ==> r->Ok_0@ == StoreView::initial()),
        r is Err ==> r->Err_0 == Error::CounterInit || r->Err_0 is CounterBehind,
{
    let allocator = allocator_init(default_space());
    let counter_region = region(&allocator, COUNTER_REGION);
    let records_region = region(&allocator, RECORDS_REGION);
    let fresh = holds_no_store(region_pages(&counter_region), region_pages(&records_region));
    let opened = if fresh {
        cell_new(counter_region, FIRST_ID)
    } else {
        cell_init(counter_region, FIRST_ID)
    };
    let counter = match init_outcome(opened) {
        Ok(counter) => counter,
        Err(e) => {
            return Err(e);
        },
    };
    let records = if fresh {
        map_new(records_region)
    } else {
        map_init(records_region)
    };
    let r = assemble(counter, records, fresh);
    proof {
        if r is Ok && fresh {
            assert(r->Ok_0@ =~= StoreView::initial());
        }
    }
    r
}

/// Lets go of the store and loads it again from its byte space, as a
/// restart of the process does. A well-formed store comes back as it was:
/// the same counter, the same requests. A store that is not well formed is
/// refused with `CounterBehind`, as it is when it is opened.
pub fn reopen(store: RentalStore) -> (r: Result<RentalStore, Error>)
    ensures
        store@.well_formed() ==> r is Ok,
        !store@.well_formed() ==> r is Err && r->Err_0 is CounterBehind,
        r is Ok ==> r->Ok_0@ == store@ && !r->Ok_0.set_up(),
        r is Ok ==> store@.leads_to(Call::Reopen, r->Ok_0@),
{
    let RentalStore { counter, records, fresh: _ } = store;
    let counter = match init_outcome(cell_reload(counter, FIRST_ID)) {
        Ok(counter) => counter,
        Err(e) => {
            // A counter is loaded from its own region without fail.
            return Err(e);
        },
    };
    let records = map_reload(records);
    let r = assemble(counter, records, false);
    proof {
        assert(map_contents(records) == store@.stored);
        assert(counter_value(counter) == store@.next_id);
        if r is Ok {
            assert(r->Ok_0@ =~= store@);
        }
    }
    r
}

/// Looks up the request under an identifier: `Ok(None)` where nothing is
/// stored there, `Undecodable` where what is stored is not the encoding of
/// a request with that identifier.
pub fn _get_rental_request(store: &RentalStore, id: &u64) -> (r: Result<
    Option<RentalRequest>,
    Error,
>)
    ensures
        match r {
            Ok(Some(request)) => store@.record(*id) == Some(request@),
            Ok(None) => !store@.holds(*id),
            Err(e) => store@.holds(*id) && store@.lookup_error(*id) == Some(e),
        },
{
    read_entry(*id, map_get(&store.records, *id))
}

/// Writes a request under its identifier, in place of what was there. A
/// request whose encoding is too long is refused, and the store stays as it
/// is.
pub fn do_insert(store: &mut RentalStore, request: &RentalRequest) -> (r: Result<(), Error>)
    ensures
        match r {
            Ok(()) => fits(request@) && final(store)@ == old(store)@.after_insert(request@),
            Err(e) => {
                &&& !fits(request@)
                &&& e == Error::RecordTooLarge
                &&& final(store)@ == old(store)@
            },
        },
        old(store)@.well_formed() ==> (request.id < old(store)@.next_id
            ==> final(store)@.well_formed()),
        old(store)@.consistent() ==> final(store)@.consistent(),
{
    match request.to_bytes() {
        Ok(bytes) => {
            let _ = map_insert(&mut store.records, request.id, bytes.as_slice());
            proof {
                assert(store@.stored == old(store)@.stored.insert(request.id, bytes@));
                if old(store)@.consistent() {
                    lemma_insert_keeps_consistent(old(store)@, request@);
                }
            }
            Ok(())
        },
        Err(e) => Err(e),
    }
}

/// Returns the request under an identifier.
pub fn get_rental_request(store: &RentalStore, id: u64) -> (r: Result<RentalRequest, Error>)
    ensures
        match r {
            Ok(request) => store@.record(id) == Some(request@),
            Err(e) => store@.lookup_error(id) == Some(e),
        },
{
    match _get_rental_request(store, &id) {
        Ok(Some(request)) => Ok(request),
        Ok(None) => Err(Error::NotFound { id }),
        Err(e) => Err(e),
    }
}

/// Creates a request from a payload: it gets the next identifier and the
/// status `Pending`, the counter moves on by one, and the request is
/// stored.
///
/// Creation succeeds wherever the store admits the payload. It fails, and
/// leaves the store as it is, with `RecordTooLarge` where the encoded
/// request would be too long, and with `IdsExhausted` where the counter has
/// reached the last `u64`.
pub fn create_rental_request(store: &mut RentalStore, payload: RentalRequestPayload) -> (r: Result<
    RentalRequest,
    Error,
>)
    ensures
        match r {
            Ok(request) => {
                &&& old(store)@.admits(payload@)
                &&& request@ == old(store)@.created(payload@)
            },
            Err(e) => old(store)@.create_error(payload@) == Some(e),
        },
        final(store)@ == old(store)@.after_create(payload@),
        old(store)@.leads_to(Call::Create(payload@), final(store)@),
        old(store)@.well_formed() ==> final(store)@.well_formed(),
        old(store)@.consistent() ==> final(store)@.consistent(),
{
    let ghost call = Call::Create(payload@);
    let id = cell_get(&store.counter);
    let request = RentalRequest::pending(id, payload);
    let bytes = match request.to_bytes() {
        Ok(bytes) => bytes,
        Err(e) => {
            return Err(e);
        },
    };
    let next = match following_id(id) {
        Ok(next) => next,
        Err(e) => {
            return Err(e);
        },
    };
    match counter_outcome(cell_set(&mut store.counter, next)) {
        Ok(_) => {},
        Err(e) => {
            // The counter's region holds a page already, so the write
            // cannot fail.
            return Err(e);
        },
    }
    let _ = map_insert(&mut store.records, id, bytes.as_slice());
    proof {
        assert(store@ =~= old(store)@.after_create(payload@));
        if old(store)@.well_formed() {
            lemma_call_keeps_well_formed(old(store)@, call, store@);
        }
        if old(store)@.consistent() {
            lemma_call_keeps_consistent(old(store)@, call, store@);
        }
    }
    Ok(request)
}

/// Gives the request under an identifier a status and writes it back. Every
/// other field stays as it is.
fn set_status(store: &mut RentalStore, id: u64, status: Status) -> (r: Result<RentalRequest, Error>)
    ensures
        match r {
            Ok(request) => {
                &&& old(store)@.record(id) is Some
                &&& request@ == old(store)@.record(id)->Some_0.with_status(status)
                &&& final(store)@ == old(store)@.after_status(id, status)
            },
            Err(e) => old(store)@.lookup_error(id) == Some(e) && final(store)@ == old(store)@,
        },
        old(store)@.well_formed() ==> final(store)@.well_formed(),
        old(store)@.consistent() ==> final(store)@.consistent(),
{
    let mut request = match _get_rental_request(store, &id) {
        Ok(Some(request)) => request,
        Ok(None) => {
            return Err(Error::NotFound { id });
        },
        Err(e) => {
            return Err(e);
        },
    };
    proof {
        // The request came out of stored bytes, so it fits, and it still
        // fits with another status: the encoding below cannot fail.
        lemma_encode_decode(store@.stored[id]);
        lemma_status_keeps_len(request@, status);
    }
    request.status = status;
    let bytes = match request.to_bytes() {
        Ok(bytes) => bytes,
        Err(e) => {
            return Err(e);
        },
    };
    let _ = map_insert(&mut store.records, id, bytes.as_slice());
    proof {
        if old(store)@.consistent() {
            lemma_status_keeps_consistent(old(store)@, id, status);
        }
    }
    Ok(request)
}

/// Approves the request under an identifier: its status becomes `Approved`,
/// whatever it was, and the updated request is returned.
pub fn approve_rental_request(store: &mut RentalStore, id: u64) -> (r: Result<RentalRequest, Error>)
    ensures
        match r {
            Ok(request) => {
                &&& old(store)@.record(id) is Some
                &&& request@ == old(store)@.record(id)->Some_0.with_status(Status::Approved)
                &&& final(store)@ == old(store)@.after_status(id, Status::Approved)
            },
            Err(e) => old(store)@.lookup_error(id) == Some(e) && final(store)@ == old(store)@,
        },
        old(store)@.leads_to(Call::Approve(id), final(store)@),
        old(store)@.well_formed() ==> final(store)@.well_formed(),
        old(store)@.consistent() ==> final(store)@.consistent(),
{
    set_status(store, id, Status::Approved)
}

/// Rejects the request under an identifier: its status becomes `Rejected`,
/// whatever it was, and the updated request is returned.
pub fn reject_rental_request(store: &mut RentalStore, id: u64) -> (r: Result<RentalRequest, Error>)
    ensures
        match r {
            Ok(request) => {
                &&& old(store)@.record(id) is Some
                &&& request@ == old(store)@.record(id)->Some_0.with_status(Status::Rejected)
                &&& final(store)@ == old(store)@.after_status(id, Status::Rejected)
            },
            Err(e) => old(store)@.lookup_error(id) == Some(e) && final(store)@ == old(store)@,
        },
        old(store)@.leads_to(Call::Reject(id), final(store)@),
        old(store)@.well_formed() ==> final(store)@.well_formed(),
        old(store)@.consistent() ==> final(store)@.consistent(),
{
    set_status(store, id, Status::Rejected)
}

/// Takes the request under an identifier out of the store, whatever its
/// status, and returns it.
pub fn return_car(store: &mut RentalStore, id: u64) -> (r: Result<RentalRequest, Error>)
    ensures
        match r {
            Ok(request) => {
                &&& old(store)@.record(id) == Some(request@)
                &&& final(store)@ == old(store)@.after_return(id)
            },
            Err(e) => old(store)@.lookup_error(id) == Some(e) && final(store)@ == old(store)@,
        },
        old(store)@.leads_to(Call::Return(id), final(store)@),
        old(store)@.well_formed() ==> final(store)@.well_formed(),
        old(store)@.consistent() ==> final(store)@.consistent(),
{
    let request = match _get_rental_request(store, &id) {
        Ok(Some(request)) => request,
        Ok(None) => {
            return Err(Error::NotFound { id });
        },
        Err(e) => {
            return Err(e);
        },
    };
    let _ = map_remove(&mut store.records, id);
    proof {
        if old(store)@.consistent() {
            lemma_call_keeps_consistent(old(store)@, Call::Return(id), store@);
        }
    }
    Ok(request)
}

} // verus!
