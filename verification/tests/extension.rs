use file_organizer::extension::{check_extension, contains_allowed_extension};

#[test]
fn upper_case_extension_matches() {
    assert!(check_extension("Photo.JPG"));
}

#[test]
fn lower_case_extension_matches() {
    assert!(check_extension("photo.jpg"));
}

#[test]
fn mixed_case_extension_matches() {
    assert!(check_extension("scan.PdF"));
    assert!(check_extension("logo.pNg"));
}

#[test]
fn other_extension_does_not_match() {
    assert!(!check_extension("notes.txt"));
}

#[test]
fn extension_in_the_middle_matches() {
    assert!(check_extension("archive.js.bak"));
}

#[test]
fn letters_without_the_dot_do_not_match() {
    assert!(!check_extension("myjs_report.txt"));
    assert!(!check_extension("jpg"));
    assert!(!check_extension("pngpdfjs"));
}

#[test]
fn every_allowed_extension_matches() {
    assert!(check_extension("a.jpg"));
    assert!(check_extension("a.jpeg"));
    assert!(check_extension("a.png"));
    assert!(check_extension("a.pdf"));
    assert!(check_extension("a.js"));
}

#[test]
fn extension_in_a_directory_name_matches() {
    assert!(check_extension("/photos.jpg/readme"));
}

#[test]
fn longer_extension_that_starts_like_an_allowed_one_matches() {
    assert!(check_extension("data.json"));
    assert!(check_extension("page.jsx"));
}

#[test]
fn empty_and_short_names_do_not_match() {
    assert!(!check_extension(""));
    assert!(!check_extension("."));
    assert!(!check_extension(".j"));
    assert!(!check_extension(".jp"));
}

#[test]
fn bare_extension_matches() {
    assert!(check_extension(".js"));
    assert!(check_extension(".JPEG"));
}

#[test]
fn letters_that_become_ascii_in_upper_case_match() {
    // U+017F, the long s, has S as its upper-case form.
    assert!(check_extension("a.j\u{17f}"));
}

#[test]
fn names_in_other_scripts_are_searched_too() {
    assert!(check_extension("фото.jpg"));
    assert!(!check_extension("фото.txt"));
}

#[test]
fn upper_case_text_is_searched_as_it_is() {
    assert!(contains_allowed_extension("PHOTO.JPG"));
    assert!(contains_allowed_extension("ARCHIVE.JS.BAK"));
    assert!(!contains_allowed_extension("NOTES.TXT"));
    assert!(!contains_allowed_extension("photo.jpg"));
}
