use zodiac_bot::registry::Registry;
use zodiac_bot::sign::Sign;
use zodiac_bot::store::{fault_of, read_rows, MemoryStore, StoreFault, StoreOutcome, StoreRequest};

#[test]
fn get_on_a_fresh_store_is_none() {
    let store = MemoryStore::new();
    assert_eq!(store.get(1), None);
    assert_eq!(store.get(0), None);
    assert_eq!(store.get(u64::MAX), None);
}

#[test]
fn get_of_a_user_never_written_is_none() {
    let mut store = MemoryStore::new();
    store.set(1, Sign::Leo);
    store.set(2, Sign::Virgo);
    store.delete(2);
    assert_eq!(store.get(3), None);
}

#[test]
fn there_is_at_most_one_record_per_user() {
    let mut store = MemoryStore::new();
    assert_eq!(store.len(), 0);
    store.set(7, Sign::Leo);
    assert_eq!(store.len(), 1);
    store.set(7, Sign::Pisces);
    store.set(7, Sign::Pisces);
    assert_eq!(store.len(), 1);
    store.set(8, Sign::Pisces);
    assert_eq!(store.len(), 2);
    store.delete(9);
    assert_eq!(store.len(), 2);
    store.delete(7);
    assert_eq!(store.len(), 1);
    store.delete(7);
    assert_eq!(store.len(), 1);
}

#[test]
fn interleaved_requests_of_other_users_change_nothing_for_a_user() {
    let own = [
        StoreRequest::Upsert { user: 1, sign: Sign::Leo },
        StoreRequest::Remove { user: 1 },
        StoreRequest::Upsert { user: 1, sign: Sign::Virgo },
    ];
    let mut alone = MemoryStore::new();
    for request in &own {
        alone.perform(request);
    }
    let mut mixed = MemoryStore::new();
    mixed.perform(&StoreRequest::Upsert { user: 2, sign: Sign::Aries });
    mixed.perform(&own[0]);
    mixed.perform(&StoreRequest::Upsert { user: 3, sign: Sign::Leo });
    mixed.perform(&own[1]);
    mixed.perform(&StoreRequest::Remove { user: 2 });
    mixed.perform(&StoreRequest::Fetch { user: 1 });
    mixed.perform(&own[2]);
    mixed.perform(&StoreRequest::Upsert { user: 2, sign: Sign::Cancer });
    assert_eq!(mixed.get(1), alone.get(1));
    assert_eq!(mixed.get(1), Some(Sign::Virgo));
}

#[test]
fn last_write_wins() {
    let mut store = MemoryStore::new();
    store.set(7, Sign::Leo);
    store.set(7, Sign::Pisces);
    assert_eq!(store.get(7), Some(Sign::Pisces));
    let rows = store.perform(&StoreRequest::Fetch { user: 7 });
    assert_eq!(rows, StoreOutcome::Rows(vec!["pisces".to_string()]));
}

#[test]
fn delete_then_get_is_none_and_delete_twice_is_safe() {
    let mut store = MemoryStore::new();
    store.delete(7);
    assert_eq!(store.get(7), None);
    store.set(7, Sign::Leo);
    store.delete(7);
    assert_eq!(store.get(7), None);
    store.delete(7);
    assert_eq!(store.get(7), None);
}

#[test]
fn writes_of_distinct_users_do_not_interfere() {
    let mut one = MemoryStore::new();
    one.set(1, Sign::Aries);
    one.set(2, Sign::Taurus);
    let mut other = MemoryStore::new();
    other.set(2, Sign::Taurus);
    other.set(1, Sign::Aries);
    for store in [&one, &other] {
        assert_eq!(store.get(1), Some(Sign::Aries));
        assert_eq!(store.get(2), Some(Sign::Taurus));
    }
}

#[test]
fn delete_leaves_other_users_alone() {
    let mut store = MemoryStore::new();
    store.set(1, Sign::Aries);
    store.set(2, Sign::Taurus);
    store.set(3, Sign::Gemini);
    store.delete(2);
    assert_eq!(store.get(1), Some(Sign::Aries));
    assert_eq!(store.get(2), None);
    assert_eq!(store.get(3), Some(Sign::Gemini));
    store.delete(1);
    assert_eq!(store.get(3), Some(Sign::Gemini));
    store.set(2, Sign::Cancer);
    assert_eq!(store.get(2), Some(Sign::Cancer));
}

#[test]
fn perform_answers_as_a_backend_would() {
    let mut store = MemoryStore::new();
    assert_eq!(store.perform(&StoreRequest::Fetch { user: 5 }), StoreOutcome::Rows(vec![]));
    assert_eq!(
        store.perform(&StoreRequest::Upsert { user: 5, sign: Sign::Libra }),
        StoreOutcome::Written
    );
    assert_eq!(
        store.perform(&StoreRequest::Fetch { user: 5 }),
        StoreOutcome::Rows(vec!["libra".to_string()])
    );
    assert_eq!(store.perform(&StoreRequest::Remove { user: 5 }), StoreOutcome::Written);
    assert_eq!(store.perform(&StoreRequest::Remove { user: 5 }), StoreOutcome::Written);
    assert_eq!(store.perform(&StoreRequest::Fetch { user: 5 }), StoreOutcome::Rows(vec![]));
}

#[test]
fn read_rows_reads_the_first_row() {
    assert_eq!(read_rows(&vec![]), Ok(None));
    assert_eq!(read_rows(&vec!["leo".to_string()]), Ok(Some(Sign::Leo)));
    assert_eq!(
        read_rows(&vec!["virgo".to_string(), "leo".to_string()]),
        Ok(Some(Sign::Virgo))
    );
}

#[test]
fn read_rows_refuses_what_is_no_canonical_name() {
    assert_eq!(read_rows(&vec!["Leo".to_string()]), Err(StoreFault::StorageError));
    assert_eq!(read_rows(&vec!["".to_string()]), Err(StoreFault::StorageError));
    assert_eq!(read_rows(&vec!["default".to_string()]), Err(StoreFault::StorageError));
}

#[test]
fn fault_of_tells_a_closed_connection_apart() {
    assert_eq!(fault_of(true), StoreFault::ConnectionLost);
    assert_eq!(fault_of(false), StoreFault::StorageError);
}

#[test]
fn requests_name_their_user() {
    assert_eq!(StoreRequest::Fetch { user: 3 }.user(), 3);
    assert_eq!(StoreRequest::Upsert { user: 4, sign: Sign::Leo }.user(), 4);
    assert_eq!(StoreRequest::Remove { user: 5 }.user(), 5);
}

#[test]
fn statements_and_parameters() {
    let fetch = StoreRequest::Fetch { user: 42 };
    assert_eq!(fetch.statement(), "SELECT user_zodiac_sign FROM user_sign WHERE user_id = $1");
    assert_eq!(fetch.params(), vec!["42".to_string()]);
    let upsert = StoreRequest::Upsert { user: 42, sign: Sign::Capricorn };
    assert_eq!(
        upsert.statement(),
        "INSERT INTO user_sign (user_id, user_zodiac_sign) VALUES ($1, $2) ON CONFLICT (user_id) DO UPDATE SET user_zodiac_sign = EXCLUDED.user_zodiac_sign"
    );
    assert_eq!(upsert.params(), vec!["42".to_string(), "capricorn".to_string()]);
    let remove = StoreRequest::Remove { user: 18446744073709551615 };
    assert_eq!(remove.statement(), "DELETE FROM user_sign WHERE user_id = $1");
    assert_eq!(remove.params(), vec!["18446744073709551615".to_string()]);
}

#[test]
fn registry_lends_the_handle_while_the_connection_stands() {
    let mut registry = Registry::new(17u32);
    assert!(!registry.is_lost());
    assert_eq!(registry.handle(), Ok(&17));
    registry.mark_lost();
    assert!(registry.is_lost());
    assert_eq!(registry.handle(), Err(StoreFault::ConnectionLost));
    registry.mark_lost();
    assert_eq!(registry.handle(), Err(StoreFault::ConnectionLost));
}

#[test]
fn registry_fails_fast_once_the_connection_is_lost() {
    let mut registry = Registry::new(MemoryStore::new());
    assert_eq!(
        registry.perform(&StoreRequest::Upsert { user: 1, sign: Sign::Leo }),
        StoreOutcome::Written
    );
    registry.mark_lost();
    assert_eq!(
        registry.perform(&StoreRequest::Fetch { user: 1 }),
        StoreOutcome::Failed(StoreFault::ConnectionLost)
    );
    assert_eq!(
        registry.perform(&StoreRequest::Upsert { user: 1, sign: Sign::Virgo }),
        StoreOutcome::Failed(StoreFault::ConnectionLost)
    );
    assert_eq!(
        registry.perform(&StoreRequest::Remove { user: 1 }),
        StoreOutcome::Failed(StoreFault::ConnectionLost)
    );
}

#[test]
fn the_registry_takes_note_of_faults() {
    let mut registry = Registry::new(17u32);
    assert_eq!(registry.note_fault(false), StoreFault::StorageError);
    assert!(!registry.is_lost());
    assert_eq!(registry.handle(), Ok(&17));
    assert_eq!(registry.note_fault(true), StoreFault::ConnectionLost);
    assert!(registry.is_lost());
    assert_eq!(registry.handle(), Err(StoreFault::ConnectionLost));
    assert_eq!(registry.note_fault(false), StoreFault::StorageError);
    assert!(registry.is_lost());
}
