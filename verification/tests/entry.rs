use file_organizer::entry::ListItem;

#[test]
fn new_keeps_time_and_path() {
    let item = ListItem::new(1_700_000_000, "/in/a.jpg".to_string());
    assert_eq!(item.metadata, 1_700_000_000);
    assert_eq!(item.file_path, "/in/a.jpg");
}

#[test]
fn new_takes_any_time() {
    let item = ListItem::new(-5, String::new());
    assert_eq!(item.metadata, -5);
    assert_eq!(item.file_path, "");
    assert_eq!(item, ListItem { metadata: -5, file_path: String::new() });
}
