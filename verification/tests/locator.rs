use file_relay::locator::{Entry, Locator};

fn dir(path: u32) -> Entry<u32> {
    Entry { path, name: Some(format!("d{}", path)), is_dir: true }
}

fn file(path: u32, name: &str) -> Entry<u32> {
    Entry { path, name: Some(name.to_string()), is_dir: false }
}

#[test]
fn new_locator_starts_with_the_root_alone() {
    let mut locator = Locator::new(7u32, "wanted");
    assert_eq!(locator.next_dir(), Some(7));
    assert_eq!(locator.next_dir(), None);
}

#[test]
fn exhausted_locator_stays_exhausted() {
    let mut locator = Locator::new(1u32, "wanted");
    assert_eq!(locator.next_dir(), Some(1));
    assert_eq!(locator.scan(vec![]), None);
    assert_eq!(locator.next_dir(), None);
    assert_eq!(locator.next_dir(), None);
}

#[test]
fn directory_added_last_is_listed_first() {
    let mut locator = Locator::new(0u32, "wanted");
    assert_eq!(locator.next_dir(), Some(0));
    assert_eq!(locator.scan(vec![dir(1), file(9, "other"), dir(2), dir(3)]), None);
    assert_eq!(locator.next_dir(), Some(3));
    assert_eq!(locator.scan(vec![dir(4), dir(5)]), None);
    assert_eq!(locator.next_dir(), Some(5));
    assert_eq!(locator.next_dir(), Some(4));
    assert_eq!(locator.next_dir(), Some(2));
    assert_eq!(locator.next_dir(), Some(1));
    assert_eq!(locator.next_dir(), None);
}

#[test]
fn first_file_of_the_name_ends_the_search() {
    let mut locator = Locator::new(0u32, "wanted");
    assert_eq!(locator.next_dir(), Some(0));
    let found = locator.scan(vec![
        dir(1),
        file(2, "other"),
        file(3, "wanted"),
        dir(4),
        file(5, "wanted"),
    ]);
    assert_eq!(found, Some(3));
}

#[test]
fn a_hit_drops_the_frontier() {
    let mut locator = Locator::new(0u32, "wanted");
    assert_eq!(locator.next_dir(), Some(0));
    assert_eq!(locator.scan(vec![dir(1), dir(2)]), None);
    assert_eq!(locator.next_dir(), Some(2));
    assert_eq!(locator.scan(vec![dir(3), file(4, "wanted"), dir(5)]), Some(4));
    assert_eq!(locator.next_dir(), None);
}

#[test]
fn a_directory_of_the_name_is_no_hit() {
    let mut locator = Locator::new(0u32, "wanted");
    assert_eq!(locator.next_dir(), Some(0));
    let listing = vec![Entry { path: 1u32, name: Some("wanted".to_string()), is_dir: true }];
    assert_eq!(locator.scan(listing), None);
    assert_eq!(locator.next_dir(), Some(1));
}

#[test]
fn names_are_compared_exactly() {
    let mut locator = Locator::new(0u32, "special_file.txt");
    assert_eq!(locator.next_dir(), Some(0));
    let listing = vec![
        file(1, "Special_file.txt"),
        file(2, "special_file"),
        file(3, "special_file.txt "),
        file(4, "special_file.TXT"),
        file(5, "xspecial_file.txt"),
        file(6, ""),
    ];
    assert_eq!(locator.scan(listing), None);
    assert_eq!(locator.next_dir(), None);
}

#[test]
fn an_entry_without_a_text_name_is_no_hit() {
    let mut locator = Locator::new(0u32, "");
    assert_eq!(locator.next_dir(), Some(0));
    let listing = vec![
        Entry { path: 1u32, name: None, is_dir: false },
        Entry { path: 2u32, name: None, is_dir: true },
    ];
    assert_eq!(locator.scan(listing), None);
    assert_eq!(locator.next_dir(), Some(2));
    assert_eq!(locator.next_dir(), None);
}

#[test]
fn an_empty_name_can_be_sought() {
    let mut locator = Locator::new(0u32, "");
    assert_eq!(locator.next_dir(), Some(0));
    assert_eq!(locator.scan(vec![file(1, "a"), file(2, "")]), Some(2));
}

#[test]
fn paths_of_any_type_pass_through_unchanged() {
    let mut locator = Locator::new(String::from("/"), "wanted");
    assert_eq!(locator.next_dir(), Some(String::from("/")));
    let listing = vec![
        Entry { path: String::from("/a"), name: Some("a".to_string()), is_dir: true },
        Entry { path: String::from("/wanted"), name: Some("wanted".to_string()), is_dir: false },
    ];
    assert_eq!(locator.scan(listing), Some(String::from("/wanted")));
}

#[test]
fn offered_directories_join_the_frontier() {
    let mut locator = Locator::new(0u32, "wanted");
    assert_eq!(locator.next_dir(), Some(0));
    assert_eq!(locator.offer(dir(1)), None);
    assert_eq!(locator.offer(file(2, "other")), None);
    assert_eq!(locator.offer(dir(3)), None);
    assert_eq!(locator.next_dir(), Some(3));
    assert_eq!(locator.next_dir(), Some(1));
    assert_eq!(locator.next_dir(), None);
}

#[test]
fn an_offered_file_of_the_name_ends_the_search() {
    let mut locator = Locator::new(0u32, "wanted");
    assert_eq!(locator.next_dir(), Some(0));
    assert_eq!(locator.offer(dir(1)), None);
    assert_eq!(locator.offer(file(2, "wanted")), Some(2));
    assert_eq!(locator.next_dir(), None);
}

#[test]
fn an_offered_directory_of_the_name_is_searched_in_turn() {
    let mut locator = Locator::new(0u32, "d1");
    assert_eq!(locator.next_dir(), Some(0));
    assert_eq!(locator.offer(dir(1)), None);
    assert_eq!(locator.next_dir(), Some(1));
}
