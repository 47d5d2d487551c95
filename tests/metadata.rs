use murasaki::metadata::{Cache, ProfileMetadata};

fn meta(name: &str) -> ProfileMetadata {
    ProfileMetadata { display_name: None, name: Some(name.to_string()) }
}

fn name_of(m: Option<ProfileMetadata>) -> Option<String> {
    m.and_then(|m| m.name)
}

#[test]
fn entry_served_strictly_before_deadline() {
    let mut c = Cache::new(300);
    c.insert(vec![7], meta("a"), 1000);
    assert_eq!(name_of(c.get(&vec![7], 1000)), Some("a".to_string()));
    assert_eq!(name_of(c.get(&vec![7], 1299)), Some("a".to_string()));
    assert_eq!(name_of(c.get(&vec![7], 1300)), None);
    assert_eq!(name_of(c.get(&vec![7], 1200)), None);
}

#[test]
fn never_inserted_key_misses() {
    let mut c = Cache::new(300);
    c.insert(vec![7], meta("a"), 1000);
    assert!(c.get(&vec![8], 1000).is_none());
}

#[test]
fn two_lookups_in_window_agree() {
    let mut c = Cache::new(300);
    c.insert(vec![1], meta("a"), 10);
    let first = name_of(c.get(&vec![1], 20));
    let second = name_of(c.get(&vec![1], 200));
    assert_eq!(first, Some("a".to_string()));
    assert_eq!(first, second);
}

#[test]
fn insert_overwrites_and_resets_time() {
    let mut c = Cache::new(100);
    c.insert(vec![1], meta("old"), 0);
    c.insert(vec![1], meta("new"), 90);
    assert_eq!(name_of(c.get(&vec![1], 150)), Some("new".to_string()));
    assert_eq!(name_of(c.get(&vec![1], 190)), None);
}

#[test]
fn purge_drops_only_stale_entries() {
    let mut c = Cache::new(100);
    c.insert(vec![1], meta("a"), 0);
    c.insert(vec![2], meta("b"), 50);
    c.purge_old(120);
    assert!(c.get(&vec![1], 120).is_none());
    assert_eq!(name_of(c.get(&vec![2], 120)), Some("b".to_string()));
}
