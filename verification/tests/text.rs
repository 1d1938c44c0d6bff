use file_organizer::path::{file_name_of, join_path};
use file_organizer::text::{chars_of, contains, matches_at};

fn chars(text: &str) -> Vec<char> {
    text.chars().collect()
}

#[test]
fn chars_of_reads_every_character() {
    assert_eq!(chars_of("a.jpg"), vec!['a', '.', 'j', 'p', 'g']);
    assert_eq!(chars_of(""), Vec::<char>::new());
    assert_eq!(chars_of("фо"), vec!['ф', 'о']);
}

#[test]
fn contains_finds_a_pattern_anywhere() {
    assert!(contains(&chars("ARCHIVE.JS.BAK"), &chars(".JS")));
    assert!(contains(&chars(".JS"), &chars(".JS")));
    assert!(contains(&chars("X.JS"), &chars(".JS")));
    assert!(contains(&chars(".JSX"), &chars(".JS")));
}

#[test]
fn contains_rejects_what_is_not_there() {
    assert!(!contains(&chars("NOTES.TXT"), &chars(".JS")));
    assert!(!contains(&chars(".J"), &chars(".JS")));
    assert!(!contains(&chars(""), &chars(".JS")));
    assert!(!contains(&chars(".J.S"), &chars(".JS")));
}

#[test]
fn contains_finds_the_empty_pattern() {
    assert!(contains(&chars("abc"), &chars("")));
    assert!(contains(&chars(""), &chars("")));
}

#[test]
fn matches_at_looks_at_one_position() {
    assert!(matches_at(&chars("a.js"), &chars(".js"), 1));
    assert!(!matches_at(&chars("a.js"), &chars(".js"), 0));
    assert!(matches_at(&chars("a.js"), &chars(""), 4));
}

#[test]
fn join_puts_a_slash_between() {
    assert_eq!(join_path("/out", "2023.11.14"), "/out/2023.11.14");
    assert_eq!(join_path("/out/2023.11.14", "a.jpg"), "/out/2023.11.14/a.jpg");
}

#[test]
fn join_keeps_what_it_is_given() {
    assert_eq!(join_path("/out/", "x"), "/out//x");
    assert_eq!(join_path("", "x"), "/x");
    assert_eq!(join_path("out", ""), "out/");
}

#[test]
fn file_name_is_the_last_segment() {
    assert_eq!(file_name_of("/in/a.jpg"), "a.jpg");
    assert_eq!(file_name_of("in/sub/b.png"), "b.png");
}

#[test]
fn file_name_of_a_bare_name_is_the_name() {
    assert_eq!(file_name_of("a.jpg"), "a.jpg");
}

#[test]
fn file_name_of_a_path_that_ends_in_a_slash_is_empty() {
    assert_eq!(file_name_of("/in/"), "");
    assert_eq!(file_name_of("/"), "");
    assert_eq!(file_name_of(""), "");
}

#[test]
fn file_name_keeps_other_scripts() {
    assert_eq!(file_name_of("/входящие/фото.jpg"), "фото.jpg");
}
