use magician_bot::cache::DatabaseCharactersCache;
use magician_bot::character::{CharacterRef, CharacterRow};

fn row(owner: u64, id: u16, name: &str) -> CharacterRow {
    CharacterRow::new(owner, id, String::from(name))
}

fn chr(id: u16, name: &str) -> CharacterRef {
    CharacterRef::new(id, String::from(name))
}

fn names(chars: &[CharacterRef]) -> Vec<String> {
    chars.iter().map(|c| c.name.clone()).collect()
}

fn pairs(chars: &[CharacterRef]) -> Vec<(u16, String)> {
    chars.iter().map(|c| (c.id, c.name.clone())).collect()
}

#[test]
fn startup_load_groups_correctly() {
    let rows = vec![row(1, 1, "A"), row(2, 2, "B"), row(1, 3, "C")];
    let cache = DatabaseCharactersCache::load(&rows);
    assert_eq!(
        pairs(&cache.get(1)),
        vec![(1, String::from("A")), (3, String::from("C"))]
    );
    assert_eq!(pairs(&cache.get(2)), vec![(2, String::from("B"))]);
}

#[test]
fn load_replaces_nothing_for_absent_owner() {
    let rows = vec![row(1, 1, "A"), row(1, 2, "B")];
    let cache = DatabaseCharactersCache::load(&rows);
    assert!(cache.get(99).is_empty());
    assert!(cache.search(99, "a").is_empty());
}

#[test]
fn insert_appends_in_order_across_interleaved_owners() {
    let mut cache = DatabaseCharactersCache::new();
    cache.insert(1, chr(1, "First"));
    cache.insert(2, chr(2, "OtherA"));
    cache.insert(1, chr(3, "Second"));
    cache.insert(3, chr(4, "OtherB"));
    cache.insert(1, chr(5, "Third"));
    assert_eq!(
        names(&cache.get(1)),
        vec![
            String::from("First"),
            String::from("Second"),
            String::from("Third")
        ]
    );
    assert_eq!(names(&cache.get(2)), vec![String::from("OtherA")]);
    assert_eq!(names(&cache.get(3)), vec![String::from("OtherB")]);
}

#[test]
fn removal_is_idempotent() {
    let mut cache = DatabaseCharactersCache::new();
    cache.insert(1, chr(7, "Finn"));
    cache.insert(1, chr(8, "Rey"));
    cache.remove(1, 7);
    let after_once = pairs(&cache.get(1));
    cache.remove(1, 7);
    let after_twice = pairs(&cache.get(1));
    assert_eq!(after_once, after_twice);
    assert_eq!(after_once, vec![(8, String::from("Rey"))]);
}

#[test]
fn removing_unknown_id_is_a_no_op() {
    let mut cache = DatabaseCharactersCache::new();
    cache.insert(1, chr(7, "Finn"));
    cache.remove(1, 42);
    cache.remove(5, 7);
    assert_eq!(pairs(&cache.get(1)), vec![(7, String::from("Finn"))]);
}

#[test]
fn unknown_owner_yields_empty_not_failure() {
    let cache = DatabaseCharactersCache::new();
    assert!(cache.get(123).is_empty());
    assert!(cache.search(123, "").is_empty());
    assert!(cache.search_prefix(123, "x").is_empty());
}

#[test]
fn delete_removes_only_the_requesters_copy() {
    let mut cache = DatabaseCharactersCache::new();
    cache.insert(1, chr(7, "Finn"));
    cache.insert(2, chr(9, "Rey"));
    cache.remove(1, 7);
    assert!(cache.get(1).is_empty());
    assert_eq!(pairs(&cache.get(2)), vec![(9, String::from("Rey"))]);
}

#[test]
fn search_ranks_starts_with_before_contains() {
    let rows = vec![row(1, 1, "Zara"), row(1, 2, "Azael"), row(1, 3, "Zahir")];
    let cache = DatabaseCharactersCache::load(&rows);
    assert_eq!(
        names(&cache.search(1, "za")),
        vec![
            String::from("Zara"),
            String::from("Zahir"),
            String::from("Azael")
        ]
    );
}

#[test]
fn search_is_case_insensitive_both_ways() {
    let rows = vec![row(1, 1, "Zara"), row(1, 2, "AZAEL"), row(1, 3, "zahir")];
    let cache = DatabaseCharactersCache::load(&rows);
    let upper_query = names(&cache.search(1, "ZA"));
    assert_eq!(
        upper_query,
        vec![
            String::from("Zara"),
            String::from("zahir"),
            String::from("AZAEL")
        ]
    );
}

#[test]
fn search_excludes_non_matches_and_keeps_no_duplicates() {
    let rows = vec![row(1, 1, "Zeus"), row(1, 2, "Zara"), row(1, 3, "Ares")];
    let cache = DatabaseCharactersCache::load(&rows);
    assert_eq!(names(&cache.search(1, "za")), vec![String::from("Zara")]);
    let all = cache.search(1, "z");
    assert_eq!(
        names(&all),
        vec![String::from("Zeus"), String::from("Zara")]
    );
}

#[test]
fn empty_query_matches_every_character_in_order() {
    let rows = vec![row(1, 1, "Zeus"), row(1, 2, "Zara"), row(1, 3, "Ares")];
    let cache = DatabaseCharactersCache::load(&rows);
    assert_eq!(
        names(&cache.search(1, "")),
        vec![
            String::from("Zeus"),
            String::from("Zara"),
            String::from("Ares")
        ]
    );
}

#[test]
fn prefix_search_keeps_only_starts_with_matches() {
    let rows = vec![row(1, 1, "Zara"), row(1, 2, "Azael"), row(1, 3, "Zahir")];
    let cache = DatabaseCharactersCache::load(&rows);
    assert_eq!(
        names(&cache.search_prefix(1, "za")),
        vec![String::from("Zara"), String::from("Zahir")]
    );
    assert_eq!(
        names(&cache.search_prefix(1, "AZ")),
        vec![String::from("Azael")]
    );
}

#[test]
fn snapshot_lists_each_owner_once_with_their_characters() {
    let rows = vec![row(1, 1, "A"), row(2, 2, "B"), row(1, 3, "C")];
    let cache = DatabaseCharactersCache::load(&rows);
    let snap = cache.snapshot();
    assert_eq!(snap.len(), 2);
    let owners: Vec<u64> = snap.iter().map(|p| p.0).collect();
    assert_eq!(owners, vec![1, 2]);
    assert_eq!(
        pairs(&snap[0].1),
        vec![(1, String::from("A")), (3, String::from("C"))]
    );
    assert_eq!(pairs(&snap[1].1), vec![(2, String::from("B"))]);
}
