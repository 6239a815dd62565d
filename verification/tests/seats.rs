//! The seat store and the maps under it.
use greenroom::names::NameMap;
use greenroom::seat::{Seat, SeatStore};

fn seat(id: &str, created_at: i64) -> Seat {
    Seat {
        seat: id.to_string(),
        display_name: id.to_uppercase(),
        token: format!("{id}.0.tag"),
        created_at,
        expires_at: created_at + 100,
        revoked: false,
        joined_at: None,
    }
}

fn store(seats: &[(&str, i64)]) -> SeatStore {
    SeatStore::load(
        seats
            .iter()
            .map(|(id, created_at)| (id.to_string(), seat(id, *created_at)))
            .collect(),
    )
}

fn ids(store: &SeatStore) -> Vec<String> {
    store.list().into_iter().map(|seat| seat.seat).collect()
}

#[test]
fn a_seat_expires_at_its_expiry() {
    let seat = seat("alice-1f2e", 1000);
    assert!(!seat.expired(1099));
    assert!(seat.expired(1100));
    assert!(seat.expired(i64::MAX));
    assert!(!seat.expired(i64::MIN));
}

#[test]
fn the_list_is_newest_first() {
    let store = store(&[("old", 1), ("newest", 30), ("middle", 20)]);
    assert_eq!(ids(&store), ["newest", "middle", "old"]);
    assert!(ids(&SeatStore::load(Vec::new())).is_empty());
}

#[test]
fn seats_of_one_age_stand_in_the_order_of_their_keys() {
    let store = store(&[("b", 5), ("a", 5), ("ab", 5), ("Z", 5), ("c", 9), ("é", 5), ("", 5)]);
    assert_eq!(ids(&store), ["c", "", "Z", "a", "ab", "b", "é"]);
}

#[test]
fn what_is_put_in_is_found_again() {
    let mut store = store(&[("a", 1)]);
    store.insert(seat("b", 2));
    assert_eq!(store.get("b").unwrap().created_at, 2);
    assert_eq!(store.get("a").unwrap().created_at, 1);
    assert!(store.get("c").is_none());
    store.insert(seat("a", 7));
    assert_eq!(store.get("a").unwrap().created_at, 7);
    assert_eq!(ids(&store), ["a", "b"]);
}

#[test]
fn what_is_taken_out_is_gone() {
    let mut store = store(&[("a", 1), ("b", 2), ("c", 3)]);
    assert_eq!(store.remove("b").unwrap().created_at, 2);
    assert!(store.remove("b").is_none());
    assert!(store.get("b").is_none());
    assert_eq!(ids(&store), ["c", "a"]);
}

#[test]
fn an_update_tells_whether_something_changed() {
    let mut store = store(&[("a", 1), ("b", 2)]);
    assert!(store.update("a", |seat| {
        seat.revoked = true;
        true
    }));
    assert!(store.get("a").unwrap().revoked);
    assert!(!store.get("b").unwrap().revoked);
    // A change that says it is none is made all the same.
    assert!(!store.update("a", |seat| {
        seat.joined_at = Some(9);
        false
    }));
    assert_eq!(store.get("a").unwrap().joined_at, Some(9));
    assert!(!store.update("nobody", |_| true));
    assert!(store.get("nobody").is_none());
}

#[test]
fn a_saved_store_loads_as_it_was() {
    let mut before = store(&[("b", 2), ("a", 1), ("c", 3)]);
    before.update("a", |seat| {
        seat.revoked = true;
        seat.joined_at = Some(5);
        true
    });
    let mut keys: Vec<String> = before.entries().into_iter().map(|(key, _)| key).collect();
    keys.sort();
    assert_eq!(keys, ["a", "b", "c"]);
    let after = SeatStore::load(before.entries());
    assert_eq!(ids(&after), ids(&before));
    let kept = after.get("a").unwrap();
    assert_eq!(kept.display_name, "A");
    assert_eq!(kept.token, "a.0.tag");
    assert_eq!(kept.created_at, 1);
    assert_eq!(kept.expires_at, 101);
    assert!(kept.revoked);
    assert_eq!(kept.joined_at, Some(5));
}

#[test]
fn the_last_entry_of_a_key_is_the_one_that_loads() {
    let store = SeatStore::load(vec![
        ("a".to_string(), seat("a", 1)),
        ("b".to_string(), seat("b", 2)),
        ("a".to_string(), seat("a", 3)),
    ]);
    assert_eq!(store.get("a").unwrap().created_at, 3);
    assert_eq!(ids(&store), ["a", "b"]);
}

#[test]
fn a_name_map_holds_each_name_once() {
    let mut map: NameMap<u8> = NameMap::new();
    assert_eq!(map.len(), 0);
    map.insert("a".to_string(), 1);
    map.insert("b".to_string(), 2);
    map.insert("a".to_string(), 3);
    assert_eq!(map.len(), 2);
    assert_eq!(map.get("a"), Some(&3));
    assert!(map.contains("b"));
    assert!(!map.contains("A"));
    map.insert("c".to_string(), 4);
    map.keep_only(&vec!["c".to_string(), "x".to_string(), "a".to_string()]);
    assert_eq!(map.len(), 2);
    assert_eq!(map.get("b"), None);
    assert_eq!(map.get("c"), Some(&4));
    assert_eq!(map.remove("a"), Some(3));
    assert_eq!(map.remove("a"), None);
    assert_eq!(map.len(), 1);
}
