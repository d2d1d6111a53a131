//! The media cache: bounded, and evicting what was used least recently.

use matrix_sdk_sql::catalog::MEDIA_CAPACITY;
use matrix_sdk_sql::database::MemoryDatabase;
use matrix_sdk_sql::helpers::SupportedDatabase;
use sqlx::{Postgres, Sqlite};
use matrix_sdk_sql::schema::Table;
use matrix_sdk_sql::store::StateStore;
use matrix_sdk_sql::value::Value;

fn url(i: usize) -> String {
    format!("mxc://example.org/{}", i)
}

fn cached(store: &StateStore<Postgres>) -> Vec<String> {
    store
        .database()
        .rows(Table::Media)
        .unwrap()
        .into_iter()
        .map(|row| match &row[0] {
            Value::Text(s) => s.clone(),
            other => panic!("not a locator: {:?}", other),
        })
        .collect()
}

#[test]
fn media_round_trip() {
    let mut store = StateStore::<Sqlite>::new(MemoryDatabase::new()).unwrap();
    assert_eq!(store.load_media("mxc://a", 1), Ok(None));
    assert_eq!(store.save_media("mxc://a", &vec![1, 2, 3], 2), Ok(()));
    assert_eq!(store.load_media("mxc://a", 3), Ok(Some(vec![1, 2, 3])));
    assert_eq!(store.load_media("mxc://b", 4), Ok(None));
    assert_eq!(store.remove_media("mxc://a"), Ok(()));
    assert_eq!(store.load_media("mxc://a", 5), Ok(None));
    assert_eq!(store.remove_media("mxc://a"), Ok(()));
}

#[test]
fn the_capacity_is_one_hundred() {
    assert_eq!(MEDIA_CAPACITY, 100);
}

#[test]
fn one_hundred_and_fifty_inserts_leave_the_last_hundred() {
    let mut store = StateStore::<Postgres>::new(MemoryDatabase::new()).unwrap();
    for i in 0..150 {
        store.save_media(&url(i), &vec![i as u8], i as u64).unwrap();
        assert!(cached(&store).len() <= 100);
    }
    let left = cached(&store);
    assert_eq!(left.len(), 100);
    let expected: Vec<String> = (50..150).map(url).collect();
    assert_eq!(left, expected);
}

#[test]
fn a_payload_that_was_read_is_not_the_next_to_go() {
    let mut store = StateStore::<Postgres>::new(MemoryDatabase::new()).unwrap();
    for i in 1..=100 {
        store.save_media(&url(i), &vec![i as u8], i as u64).unwrap();
    }
    assert_eq!(store.load_media(&url(1), 101), Ok(Some(vec![1])));
    store.save_media(&url(101), &vec![101], 102).unwrap();
    let left = cached(&store);
    assert_eq!(left.len(), 100);
    assert!(left.contains(&url(1)));
    assert!(!left.contains(&url(2)));
    assert!(left.contains(&url(101)));
}

#[test]
fn without_the_read_the_oldest_payload_goes() {
    let mut store = StateStore::<Postgres>::new(MemoryDatabase::new()).unwrap();
    for i in 1..=100 {
        store.save_media(&url(i), &vec![i as u8], i as u64).unwrap();
    }
    store.save_media(&url(101), &vec![101], 102).unwrap();
    let left = cached(&store);
    assert!(!left.contains(&url(1)));
    assert!(left.contains(&url(2)));
}

#[test]
fn saving_a_cached_locator_again_changes_nothing() {
    let mut store = StateStore::<Postgres>::new(MemoryDatabase::new()).unwrap();
    store.save_media("mxc://a", &vec![1], 1).unwrap();
    let before = store.database().rows(Table::Media).unwrap();
    store.save_media("mxc://a", &vec![2], 2).unwrap();
    assert_eq!(store.database().rows(Table::Media).unwrap(), before);
    assert_eq!(store.load_media("mxc://a", 3), Ok(Some(vec![1])));
}

#[test]
fn a_cache_over_its_capacity_is_cut_down_by_the_next_write() {
    let mut db = MemoryDatabase::new();
    db.create(1, &vec![Table::Media]).unwrap();
    let insert = Postgres::media_insert_query_1();
    for i in 0..130 {
        db.execute(&insert, &vec![Value::Text(url(i)), Value::Blob(vec![0])], i as u64).unwrap();
    }
    assert_eq!(db.rows(Table::Media).unwrap().len(), 130);
    let evict = Postgres::media_insert_query_2();
    db.execute(&evict, &vec![], 0).unwrap();
    let left = db.rows(Table::Media).unwrap();
    assert_eq!(left.len(), 100);
    assert_eq!(left[0][0], Value::Text(url(30)));
}

#[test]
fn the_cache_fills_to_its_capacity_whatever_the_clock_shows() {
    let mut store = StateStore::<Sqlite>::new(MemoryDatabase::new()).unwrap();
    for i in 0..150 {
        store.save_media(&url(i), &vec![i as u8], 7).unwrap();
        let expected = if i < 100 { i + 1 } else { 100 };
        assert_eq!(store.database().rows(Table::Media).unwrap().len(), expected);
    }
}
