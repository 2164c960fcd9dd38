use car_rental::error::Error;
use car_rental::record::{RentalRequest, RentalRequestPayload, Status};
use car_rental::service::{
    _get_rental_request, approve_rental_request, counter_covers, counter_outcome,
    create_rental_request, do_insert, following_id, get_rental_request, holds_no_store,
    init_outcome, open, read_entry, reject_rental_request, reopen, return_car, RentalStore,
    FIRST_ID,
};
use car_rental::storage::IdCell;
use ic_stable_structures::cell::{InitError, ValueError};

fn payload(requester: &str, car_model: &str, start_time: u64, end_time: u64) -> RentalRequestPayload {
    RentalRequestPayload {
        requester: requester.to_string(),
        car_model: car_model.to_string(),
        start_time,
        end_time,
    }
}

fn alice() -> RentalRequestPayload {
    payload("alice", "Tesla", 1000, 2000)
}

fn request(id: u64, status: Status) -> RentalRequest {
    RentalRequest {
        id,
        requester: "alice".to_string(),
        car_model: "Tesla".to_string(),
        start_time: 1000,
        end_time: 2000,
        status,
    }
}

fn fresh() -> RentalStore {
    open().unwrap()
}

#[test]
fn new_store_starts_at_the_first_id() {
    let store = fresh();
    assert!(store.was_set_up());
    assert_eq!(FIRST_ID, 1);
    assert_eq!(store.next_id(), 1);
    assert_eq!(get_rental_request(&store, 1), Err(Error::NotFound { id: 1 }));
}

#[test]
fn create_approve_return_scenario() {
    let mut store = fresh();
    let created = create_rental_request(&mut store, alice()).unwrap();
    assert_eq!(created, request(1, Status::Pending));
    let approved = approve_rental_request(&mut store, 1).unwrap();
    assert_eq!(approved, request(1, Status::Approved));
    let returned = return_car(&mut store, 1).unwrap();
    assert_eq!(returned, request(1, Status::Approved));
    assert_eq!(get_rental_request(&store, 1), Err(Error::NotFound { id: 1 }));
}

#[test]
fn two_creates_yield_one_then_two() {
    let mut store = fresh();
    let first = create_rental_request(&mut store, alice()).unwrap();
    assert_eq!(first.id, 1);
    approve_rental_request(&mut store, 1).unwrap();
    reject_rental_request(&mut store, 1).unwrap();
    approve_rental_request(&mut store, 1).unwrap();
    let second = create_rental_request(&mut store, payload("bob", "Fiat", 5, 6)).unwrap();
    assert_eq!(second.id, 2);
    assert_eq!(second.status, Status::Pending);
}

#[test]
fn ids_increase_by_one() {
    let mut store = fresh();
    for expected in 1..=40u64 {
        assert_eq!(store.next_id(), expected);
        let created = create_rental_request(&mut store, alice()).unwrap();
        assert_eq!(created.id, expected);
    }
    assert_eq!(store.next_id(), 41);
}

#[test]
fn ids_are_not_reused_after_return() {
    let mut store = fresh();
    assert_eq!(create_rental_request(&mut store, alice()).unwrap().id, 1);
    assert_eq!(create_rental_request(&mut store, alice()).unwrap().id, 2);
    return_car(&mut store, 2).unwrap();
    return_car(&mut store, 1).unwrap();
    assert_eq!(create_rental_request(&mut store, alice()).unwrap().id, 3);
    assert_eq!(get_rental_request(&store, 1), Err(Error::NotFound { id: 1 }));
    assert_eq!(get_rental_request(&store, 2), Err(Error::NotFound { id: 2 }));
}

#[test]
fn created_request_is_found() {
    let mut store = fresh();
    let created = create_rental_request(&mut store, payload("Zoë", "Škoda", 7, 9)).unwrap();
    assert_eq!(get_rental_request(&store, created.id), Ok(created.clone()));
    assert_eq!(_get_rental_request(&store, &created.id), Ok(Some(created)));
}

#[test]
fn create_keeps_earlier_requests() {
    let mut store = fresh();
    let first = create_rental_request(&mut store, alice()).unwrap();
    let second = create_rental_request(&mut store, payload("bob", "Fiat", 5, 6)).unwrap();
    assert_eq!(get_rental_request(&store, 1), Ok(first));
    assert_eq!(get_rental_request(&store, 2), Ok(second));
}

#[test]
fn approve_sets_the_status_and_nothing_else() {
    let mut store = fresh();
    let created = create_rental_request(&mut store, alice()).unwrap();
    let other = create_rental_request(&mut store, payload("bob", "Fiat", 5, 6)).unwrap();
    let approved = approve_rental_request(&mut store, created.id).unwrap();
    assert_eq!(approved, RentalRequest { status: Status::Approved, ..created });
    assert_eq!(get_rental_request(&store, 1), Ok(approved));
    assert_eq!(get_rental_request(&store, 2), Ok(other));
    assert_eq!(store.next_id(), 3);
}

#[test]
fn reject_sets_the_status_and_nothing_else() {
    let mut store = fresh();
    let created = create_rental_request(&mut store, alice()).unwrap();
    let rejected = reject_rental_request(&mut store, created.id).unwrap();
    assert_eq!(rejected, RentalRequest { status: Status::Rejected, ..created });
    assert_eq!(get_rental_request(&store, 1), Ok(rejected));
}

#[test]
fn approving_twice_succeeds() {
    let mut store = fresh();
    create_rental_request(&mut store, alice()).unwrap();
    let once = approve_rental_request(&mut store, 1).unwrap();
    let twice = approve_rental_request(&mut store, 1).unwrap();
    assert_eq!(once, twice);
    assert_eq!(get_rental_request(&store, 1), Ok(twice));
}

#[test]
fn status_may_change_in_any_direction() {
    let mut store = fresh();
    create_rental_request(&mut store, alice()).unwrap();
    assert_eq!(reject_rental_request(&mut store, 1).unwrap().status, Status::Rejected);
    assert_eq!(approve_rental_request(&mut store, 1).unwrap().status, Status::Approved);
    assert_eq!(reject_rental_request(&mut store, 1).unwrap().status, Status::Rejected);
}

#[test]
fn return_removes_whatever_the_status() {
    let mut store = fresh();
    create_rental_request(&mut store, alice()).unwrap();
    create_rental_request(&mut store, alice()).unwrap();
    create_rental_request(&mut store, alice()).unwrap();
    approve_rental_request(&mut store, 2).unwrap();
    reject_rental_request(&mut store, 3).unwrap();
    assert_eq!(return_car(&mut store, 1), Ok(request(1, Status::Pending)));
    assert_eq!(return_car(&mut store, 2), Ok(request(2, Status::Approved)));
    assert_eq!(return_car(&mut store, 3), Ok(request(3, Status::Rejected)));
}

#[test]
fn returned_request_is_gone_for_every_call() {
    let mut store = fresh();
    create_rental_request(&mut store, alice()).unwrap();
    return_car(&mut store, 1).unwrap();
    assert_eq!(get_rental_request(&store, 1), Err(Error::NotFound { id: 1 }));
    assert_eq!(approve_rental_request(&mut store, 1), Err(Error::NotFound { id: 1 }));
    assert_eq!(reject_rental_request(&mut store, 1), Err(Error::NotFound { id: 1 }));
    assert_eq!(return_car(&mut store, 1), Err(Error::NotFound { id: 1 }));
    assert_eq!(_get_rental_request(&store, &1), Ok(None));
}

#[test]
fn return_of_a_missing_request_changes_nothing() {
    let mut store = fresh();
    let kept = create_rental_request(&mut store, alice()).unwrap();
    assert_eq!(return_car(&mut store, 2), Err(Error::NotFound { id: 2 }));
    assert_eq!(return_car(&mut store, 0), Err(Error::NotFound { id: 0 }));
    assert_eq!(get_rental_request(&store, 1), Ok(kept));
    assert_eq!(store.next_id(), 2);
}

#[test]
fn return_keeps_the_other_requests() {
    let mut store = fresh();
    create_rental_request(&mut store, alice()).unwrap();
    let kept = create_rental_request(&mut store, payload("bob", "Fiat", 5, 6)).unwrap();
    return_car(&mut store, 1).unwrap();
    assert_eq!(get_rental_request(&store, 2), Ok(kept));
    assert_eq!(store.next_id(), 3);
}

#[test]
fn unissued_id_is_not_found_and_nothing_changes() {
    let mut store = fresh();
    let created = create_rental_request(&mut store, alice()).unwrap();
    for id in [0u64, 2, 3, 1000, u64::MAX] {
        assert_eq!(get_rental_request(&store, id), Err(Error::NotFound { id }));
        assert_eq!(approve_rental_request(&mut store, id), Err(Error::NotFound { id }));
        assert_eq!(reject_rental_request(&mut store, id), Err(Error::NotFound { id }));
        assert_eq!(return_car(&mut store, id), Err(Error::NotFound { id }));
    }
    assert_eq!(get_rental_request(&store, 1), Ok(created));
    assert_eq!(store.next_id(), 2);
}

#[test]
fn too_large_request_is_refused_and_nothing_changes() {
    let mut store = fresh();
    create_rental_request(&mut store, alice()).unwrap();
    let big = payload(&"r".repeat(600), &"c".repeat(600), 1, 2);
    assert_eq!(create_rental_request(&mut store, big), Err(Error::RecordTooLarge));
    assert_eq!(store.next_id(), 2);
    assert_eq!(get_rental_request(&store, 2), Err(Error::NotFound { id: 2 }));
    assert_eq!(create_rental_request(&mut store, alice()).unwrap().id, 2);
}

#[test]
fn largest_request_is_stored_and_found() {
    let mut store = fresh();
    let big = payload(&"r".repeat(500), &"c".repeat(491), 1, 2);
    let created = create_rental_request(&mut store, big).unwrap();
    assert_eq!(created.to_bytes().unwrap().len(), 1024);
    assert_eq!(get_rental_request(&store, 1), Ok(created.clone()));
    let approved = approve_rental_request(&mut store, 1).unwrap();
    assert_eq!(approved, RentalRequest { status: Status::Approved, ..created });
    assert_eq!(return_car(&mut store, 1), Ok(approved));
}

#[test]
fn do_insert_writes_under_the_request_id() {
    let mut store = fresh();
    create_rental_request(&mut store, alice()).unwrap();
    let changed = RentalRequest { car_model: "Fiat".to_string(), ..request(1, Status::Approved) };
    assert_eq!(do_insert(&mut store, &changed), Ok(()));
    assert_eq!(get_rental_request(&store, 1), Ok(changed));
    assert_eq!(store.next_id(), 2);
}

#[test]
fn do_insert_refuses_what_is_too_large() {
    let mut store = fresh();
    let created = create_rental_request(&mut store, alice()).unwrap();
    let big = RentalRequest { requester: "r".repeat(2000), ..request(1, Status::Pending) };
    assert_eq!(do_insert(&mut store, &big), Err(Error::RecordTooLarge));
    assert_eq!(get_rental_request(&store, 1), Ok(created));
}

#[test]
fn store_survives_a_restart() {
    let mut store = fresh();
    let first = create_rental_request(&mut store, alice()).unwrap();
    let second = create_rental_request(&mut store, payload("bob", "Fiat", 5, 6)).unwrap();
    let approved = approve_rental_request(&mut store, 2).unwrap();
    create_rental_request(&mut store, alice()).unwrap();
    return_car(&mut store, 3).unwrap();
    let mut store = reopen(store).unwrap();
    assert_eq!(store.next_id(), 4);
    assert_eq!(get_rental_request(&store, 1), Ok(first));
    assert_eq!(get_rental_request(&store, 2), Ok(approved));
    assert_ne!(get_rental_request(&store, 2), Ok(second));
    assert_eq!(get_rental_request(&store, 3), Err(Error::NotFound { id: 3 }));
    assert_eq!(create_rental_request(&mut store, alice()).unwrap().id, 4);
}

#[test]
fn ids_continue_over_many_restarts() {
    let mut store = fresh();
    let mut last = 0;
    for _ in 0..5 {
        for _ in 0..3 {
            let created = create_rental_request(&mut store, alice()).unwrap();
            assert!(created.id > last);
            last = created.id;
        }
        store = reopen(store).unwrap();
    }
    assert_eq!(last, 15);
    assert_eq!(store.next_id(), 16);
}

#[test]
fn empty_store_reopens_empty() {
    let store = reopen(fresh()).unwrap();
    assert_eq!(store.next_id(), 1);
    assert_eq!(get_rental_request(&store, 1), Err(Error::NotFound { id: 1 }));
}

#[test]
fn many_requests_are_all_found() {
    let mut store = fresh();
    for i in 1..=300u64 {
        let created = create_rental_request(&mut store, payload("r", "c", i, i + 1)).unwrap();
        assert_eq!(created.id, i);
    }
    for i in (1..=300u64).step_by(2) {
        return_car(&mut store, i).unwrap();
    }
    let store = reopen(store).unwrap();
    for i in 1..=300u64 {
        let found = get_rental_request(&store, i);
        if i % 2 == 1 {
            assert_eq!(found, Err(Error::NotFound { id: i }));
        } else {
            assert_eq!(found.unwrap().start_time, i);
        }
    }
}

#[test]
fn request_beyond_the_counter_stops_a_reopen() {
    let mut store = fresh();
    create_rental_request(&mut store, alice()).unwrap();
    do_insert(&mut store, &request(7, Status::Pending)).unwrap();
    assert!(matches!(reopen(store), Err(Error::CounterBehind { id: 7 })));
}

#[test]
fn request_at_the_counter_stops_a_reopen() {
    let mut store = fresh();
    do_insert(&mut store, &request(1, Status::Pending)).unwrap();
    assert!(matches!(reopen(store), Err(Error::CounterBehind { id: 1 })));
}

#[test]
fn counter_must_lie_above_the_greatest_id() {
    assert_eq!(counter_covers(None, 0), Ok(()));
    assert_eq!(counter_covers(None, 1), Ok(()));
    assert_eq!(counter_covers(Some(4), 5), Ok(()));
    assert_eq!(counter_covers(Some(5), 5), Err(Error::CounterBehind { id: 5 }));
    assert_eq!(counter_covers(Some(9), 5), Err(Error::CounterBehind { id: 9 }));
    assert_eq!(counter_covers(Some(u64::MAX), u64::MAX), Err(Error::CounterBehind { id: u64::MAX }));
    assert_eq!(counter_covers(Some(0), 0), Err(Error::CounterBehind { id: 0 }));
}

#[test]
fn ids_follow_one_another_up_to_the_last() {
    assert_eq!(following_id(0), Ok(1));
    assert_eq!(following_id(1), Ok(2));
    assert_eq!(following_id(u64::MAX - 1), Ok(u64::MAX));
    assert_eq!(following_id(u64::MAX), Err(Error::IdsExhausted));
}

#[test]
fn entry_that_is_no_request_is_reported() {
    let bytes = request(3, Status::Approved).to_bytes().unwrap();
    assert_eq!(read_entry(3, None), Ok(None));
    assert_eq!(read_entry(3, Some(bytes.clone())), Ok(Some(request(3, Status::Approved))));
    assert_eq!(read_entry(3, Some(Vec::new())), Err(Error::Undecodable { id: 3 }));
    assert_eq!(read_entry(9, Some(bytes[1..].to_vec())), Err(Error::Undecodable { id: 9 }));
    assert_eq!(read_entry(9, Some(vec![0; 1024])), Err(Error::Undecodable { id: 9 }));
}

#[test]
fn entry_with_another_id_is_reported() {
    let bytes = request(3, Status::Pending).to_bytes().unwrap();
    assert_eq!(read_entry(8, Some(bytes.clone())), Err(Error::Undecodable { id: 8 }));
    assert_eq!(read_entry(0, Some(bytes.clone())), Err(Error::Undecodable { id: 0 }));
    assert_eq!(read_entry(3, Some(bytes)), Ok(Some(request(3, Status::Pending))));
}

#[test]
fn found_request_carries_the_id_asked_for() {
    let mut store = fresh();
    for _ in 0..5 {
        create_rental_request(&mut store, alice()).unwrap();
    }
    for id in 1..=5u64 {
        assert_eq!(get_rental_request(&store, id).unwrap().id, id);
        assert_eq!(approve_rental_request(&mut store, id).unwrap().id, id);
        assert_eq!(return_car(&mut store, id).unwrap().id, id);
    }
}

#[test]
fn space_without_a_store_is_told_by_its_regions() {
    assert!(holds_no_store(0, 0));
    assert!(!holds_no_store(1, 0));
    assert!(!holds_no_store(0, 1));
    assert!(!holds_no_store(128, 256));
}

#[test]
fn opened_store_was_set_up_and_reopened_store_was_loaded() {
    let mut store = fresh();
    assert!(store.was_set_up());
    create_rental_request(&mut store, alice()).unwrap();
    assert!(store.was_set_up());
    let store = reopen(store).unwrap();
    assert!(!store.was_set_up());
    let store = reopen(store).unwrap();
    assert!(!store.was_set_up());
    assert_eq!(store.next_id(), 2);
}

#[test]
fn creation_succeeds_wherever_the_payload_fits() {
    let mut store = fresh();
    for n in [0usize, 1, 100, 495] {
        let created =
            create_rental_request(&mut store, payload(&"r".repeat(n), &"c".repeat(n), 1, 2));
        assert!(created.is_ok());
    }
    assert_eq!(store.next_id(), 5);
    let refused = create_rental_request(&mut store, payload(&"r".repeat(496), &"c".repeat(496), 1, 2));
    assert_eq!(refused, Err(Error::RecordTooLarge));
    assert_eq!(store.next_id(), 5);
}

#[test]
fn refused_counter_write_is_reported() {
    assert_eq!(counter_outcome(Ok(3)), Ok(3));
    assert_eq!(
        counter_outcome(Err(ValueError::ValueTooLarge { value_size: 8 })),
        Err(Error::CounterWrite)
    );
}

#[test]
fn failed_counter_init_is_reported() {
    let too_large: Result<IdCell, InitError> = Err(InitError::ValueTooLarge { value_size: 8 });
    assert!(matches!(init_outcome(too_large), Err(Error::CounterInit)));
    let other_version: Result<IdCell, InitError> =
        Err(InitError::IncompatibleVersion { last_supported_version: 1, decoded_version: 2 });
    assert!(matches!(init_outcome(other_version), Err(Error::CounterInit)));
}

#[test]
fn stores_over_separate_spaces_share_nothing() {
    let mut first = fresh();
    let mut second = fresh();
    create_rental_request(&mut first, alice()).unwrap();
    assert_eq!(second.next_id(), 1);
    assert_eq!(get_rental_request(&second, 1), Err(Error::NotFound { id: 1 }));
    assert_eq!(create_rental_request(&mut second, payload("bob", "Fiat", 5, 6)).unwrap().id, 1);
    assert_eq!(get_rental_request(&first, 1).unwrap().requester, "alice");
}
