use oaf::mru_list::MruList;
use oaf::path_string::PathFamily;
use oaf::path_string::PathUnits;
use oaf::path_string::path_to_path_string;
use oaf::path_string::sentinel_prefix;

fn pu(s: &str) -> PathUnits {
    PathUnits::Unix(s.as_bytes().to_vec())
}

fn make_simple_mru() -> MruList {
    let mut mru = MruList::new("mru.txt", 20);
    // Insert in reverse order, so that the list is "a", "b", "c" when done.
    mru.insert(pu("c"));
    mru.insert(pu("b"));
    mru.insert(pu("a"));
    mru.clear_is_changed();
    mru
}

#[test]
fn new_makes_empty_mru() {
    let mru = MruList::new("mru.txt", 20);
    assert_eq!(0, mru.len());
    assert!(mru.is_empty());
    assert!(!mru.is_changed());
}

#[test]
fn remove_can_remove_first_item() {
    let mut mru = make_simple_mru();
    mru.remove(&pu("a"));
    assert!(mru.is_changed());
    assert_eq!(2, mru.len());
    assert_eq!(mru.get(0), &pu("b"));
    assert_eq!(mru.get(1), &pu("c"));
}

#[test]
fn remove_can_remove_last_item() {
    let mut mru = make_simple_mru();
    mru.remove(&pu("c"));
    assert!(mru.is_changed());
    assert_eq!(2, mru.len());
    assert_eq!(mru.get(0), &pu("a"));
    assert_eq!(mru.get(1), &pu("b"));
}

#[test]
fn remove_for_item_that_is_not_in_list_is_noop() {
    let mut mru = make_simple_mru();
    mru.remove(&pu("z"));
    assert!(!mru.is_changed());
    assert_eq!(3, mru.len());
    assert_eq!(mru.get(0), &pu("a"));
    assert_eq!(mru.get(1), &pu("b"));
    assert_eq!(mru.get(2), &pu("c"));
}

#[test]
fn insert_sets_changed_flag() {
    let mut mru = MruList::new("mru.txt", 20);
    mru.insert(pu("a"));
    assert!(mru.is_changed());
}

#[test]
fn insert_can_insert_exactly_max_items() {
    let mut mru = MruList::new("mru.txt", 3);
    mru.insert(pu("a"));
    mru.insert(pu("b"));
    mru.insert(pu("c"));
    assert_eq!(3, mru.len());
    assert_eq!(mru.get(0), &pu("c"));
    assert_eq!(mru.get(1), &pu("b"));
    assert_eq!(mru.get(2), &pu("a"));
}

#[test]
fn insert_can_insert_no_more_than_max_items() {
    let mut mru = MruList::new("mru.txt", 3);
    mru.insert(pu("a"));
    mru.insert(pu("b"));
    mru.insert(pu("c"));
    mru.insert(pu("d"));
    assert_eq!(3, mru.len());
    assert_eq!(mru.get(0), &pu("d"));
    assert_eq!(mru.get(1), &pu("c"));
    assert_eq!(mru.get(2), &pu("b"));
}

#[test]
fn iter_iterates_items_in_order() {
    let mru = make_simple_mru();
    let items = mru.iter();
    let mut it = items.iter();
    assert_eq!(Some(&pu("a")), it.next());
    assert_eq!(Some(&pu("b")), it.next());
    assert_eq!(Some(&pu("c")), it.next());
    assert_eq!(None, it.next());
}

#[test]
fn inserting_an_existing_item_moves_it_to_the_front() {
    let mut mru = make_simple_mru();
    mru.insert(pu("c"));
    assert_eq!(3, mru.len());
    assert_eq!(mru.get(0), &pu("c"));
    assert_eq!(mru.get(1), &pu("a"));
    assert_eq!(mru.get(2), &pu("b"));
}

#[test]
fn filename_is_kept() {
    let mru = MruList::new("mru.txt", 20);
    assert_eq!(mru.filename().as_str(), "mru.txt");
}

#[test]
fn to_lines_compresses_home_and_keeps_escaped_tokens() {
    let mut mru = MruList::new("mru.txt", 20);
    mru.insert(pu("line\nbreak"));
    mru.insert(pu("/home/heart/pics"));
    let lines = mru.to_lines("/home/heart");
    assert_eq!(lines.len(), 2);
    assert_eq!(lines[0], "~/pics");
    assert_eq!(lines[1], path_to_path_string(&pu("line\nbreak")));
    assert!(lines[1].starts_with(sentinel_prefix()));
}

#[test]
fn read_from_lines_expands_skips_and_reverses() {
    let escaped = path_to_path_string(&pu("line\nbreak"));
    let lines = vec![
        String::from("~/pics"),
        String::from("   "),
        format!("{}!!!", sentinel_prefix()),
        escaped,
        String::from("/tmp/x"),
    ];
    let mut mru = MruList::new("mru.txt", 20);
    mru.read_from_lines(&lines, "/home/heart", PathFamily::Unix);
    assert!(!mru.is_changed());
    assert_eq!(3, mru.len());
    // The file's first line ends up most recent.
    assert_eq!(mru.get(0), &pu("/home/heart/pics"));
    assert_eq!(mru.get(1), &pu("line\nbreak"));
    assert_eq!(mru.get(2), &pu("/tmp/x"));
}

#[test]
fn read_from_lines_honours_the_maximum() {
    let lines = vec![
        String::from("/a"),
        String::from("/b"),
        String::from("/c"),
    ];
    let mut mru = MruList::new("mru.txt", 2);
    mru.read_from_lines(&lines, "/home/heart", PathFamily::Unix);
    assert_eq!(2, mru.len());
    assert_eq!(mru.get(0), &pu("/a"));
    assert_eq!(mru.get(1), &pu("/b"));
}

#[test]
fn write_then_read_restores_the_list() {
    let mut mru = MruList::new("mru.txt", 20);
    mru.insert(pu("weird\u{7f}name"));
    mru.insert(pu("/home/heart/work"));
    mru.insert(pu("/etc/hosts"));
    let lines = mru.to_lines("/home/heart");
    let mut back = MruList::new("mru.txt", 20);
    back.read_from_lines(&lines, "/home/heart", PathFamily::Unix);
    assert_eq!(back.len(), mru.len());
    assert_eq!(back.get(0), mru.get(0));
    assert_eq!(back.get(1), mru.get(1));
    assert_eq!(back.get(2), mru.get(2));
}
