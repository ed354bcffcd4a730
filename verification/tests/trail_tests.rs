use flyover::trail::{Sighting, TrailStore, MAX_TRAIL_POINTS};

fn seen(hex: &str, p: Option<(i32, i32)>) -> Sighting<(i32, i32)> {
    Sighting { hex: hex.to_string(), position: p }
}

#[test]
fn update_appends_and_get_returns_trail() {
    let mut store = TrailStore::new();
    store.update(&[seen("a", Some((1, 1))), seen("b", Some((5, 5)))]);
    store.update(&[seen("a", Some((2, 2))), seen("b", Some((6, 6)))]);
    let a: Vec<_> = store.get(&"a".to_string()).unwrap().iter().copied().collect();
    assert_eq!(a, vec![(1, 1), (2, 2)]);
    let b: Vec<_> = store.get(&"b".to_string()).unwrap().iter().copied().collect();
    assert_eq!(b, vec![(5, 5), (6, 6)]);
    assert!(store.get(&"c".to_string()).is_none());
}

#[test]
fn trail_keeps_only_latest_points() {
    let mut store = TrailStore::new();
    for i in 0..20 {
        store.update(&[seen("a", Some((i, -i)))]);
    }
    let a: Vec<_> = store.get(&"a".to_string()).unwrap().iter().copied().collect();
    assert_eq!(a.len(), MAX_TRAIL_POINTS);
    assert_eq!(a[0], (8, -8));
    assert_eq!(*a.last().unwrap(), (19, -19));
}

#[test]
fn positionless_aircraft_keep_and_departed_aircraft_lose_their_trail() {
    let mut store = TrailStore::new();
    store.update(&[seen("a", Some((1, 1))), seen("b", Some((2, 2)))]);
    store.update(&[seen("a", Some((3, 3))), seen("b", None)]);
    let b: Vec<_> = store.get(&"b".to_string()).unwrap().iter().copied().collect();
    assert_eq!(b, vec![(2, 2)]);
    assert_eq!(store.get(&"a".to_string()).unwrap().len(), 2);
    store.update(&[seen("b", None)]);
    assert!(store.get(&"a".to_string()).is_none());
    assert_eq!(store.get(&"b".to_string()).unwrap().len(), 1);
    store.update(&[]);
    assert!(store.get(&"b".to_string()).is_none());
}

#[test]
fn positionless_newcomer_gets_no_trail() {
    let mut store = TrailStore::new();
    store.update(&[seen("c", None)]);
    assert!(store.get(&"c".to_string()).is_none());
}

#[test]
fn repeated_report_in_one_fetch_pushes_twice() {
    let mut store = TrailStore::new();
    store.update(&[seen("a", Some((1, 1))), seen("a", Some((2, 2)))]);
    let a: Vec<_> = store.get(&"a".to_string()).unwrap().iter().copied().collect();
    assert_eq!(a, vec![(1, 1), (2, 2)]);
}

#[test]
fn default_store_is_empty_and_trails_stay_in_bounds() {
    let mut store: TrailStore<(i32, i32)> = TrailStore::default();
    assert!(store.get("a").is_none());
    for i in 0..30 {
        let list = if i % 3 == 0 {
            vec![seen("a", Some((i, i))), seen("b", None)]
        } else {
            vec![seen("a", None), seen("b", Some((i, 0)))]
        };
        store.update(&list);
        for hex in ["a", "b"] {
            if let Some(t) = store.get(hex) {
                assert!(!t.is_empty() && t.len() <= MAX_TRAIL_POINTS);
            }
        }
    }
    assert_eq!(store.get("a").unwrap().len(), 10);
    assert_eq!(store.get("b").unwrap().len(), MAX_TRAIL_POINTS);
}
