use ebook_playback::sync_map::SyncMap;
use ebook_playback::time::Duration;

#[test]
fn resolves_to_closest_prior_point() {
    let mut map = SyncMap::default();
    map.push_point(0, Duration::from_millis(0));
    map.push_point(5, Duration::from_millis(100));
    map.push_point(10, Duration::from_millis(300));

    assert_eq!(map.resolve_index(Duration::from_millis(50)), Some(0));
    assert_eq!(map.resolve_index(Duration::from_millis(150)), Some(5));
    assert_eq!(map.resolve_index(Duration::from_millis(400)), Some(10));
}

#[test]
fn resolves_nothing_before_the_first_point() {
    let mut map = SyncMap::new();
    assert_eq!(map.resolve_index(Duration::from_millis(10)), None);
    map.push_point(3, Duration::from_millis(20));
    map.push_point(7, Duration::from_millis(40));
    assert_eq!(map.resolve_index(Duration::from_millis(19)), None);
    assert_eq!(map.resolve_index(Duration::from_millis(20)), Some(3));
    assert_eq!(map.resolve_index(Duration::from_millis(40)), Some(7));
    assert_eq!(map.len(), 2);
}
