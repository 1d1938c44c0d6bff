use file_organizer::entry::ListItem;
use file_organizer::scanner::{
    list_files_in_folder, seconds_to_signed, Created, Found, Probe, ScanError,
};

fn file(path: &str, secs: u64) -> Probe {
    Probe::Found(Found { path: path.to_string(), is_file: true, created: Created::SinceEpoch { secs } })
}

fn directory(path: &str, secs: u64) -> Probe {
    Probe::Found(Found {
        path: path.to_string(),
        is_file: false,
        created: Created::SinceEpoch { secs },
    })
}

fn file_without_creation_time(path: &str) -> Probe {
    Probe::Found(Found { path: path.to_string(), is_file: true, created: Created::Unavailable })
}

fn item(secs: i64, path: &str) -> ListItem {
    ListItem::new(secs, path.to_string())
}

#[test]
fn scan_of_an_empty_folder_is_empty() {
    assert_eq!(list_files_in_folder(Ok(vec![])), Ok(vec![]));
}

#[test]
fn scan_lists_files_in_the_order_of_the_listing() {
    let probes = vec![file("/in/b.txt", 20), file("/in/a.jpg", 1_700_000_000), file("/in/c", 0)];
    assert_eq!(
        list_files_in_folder(Ok(probes)),
        Ok(vec![item(20, "/in/b.txt"), item(1_700_000_000, "/in/a.jpg"), item(0, "/in/c")])
    );
}

#[test]
fn scan_excludes_subdirectories() {
    let probes = vec![file("/in/a.jpg", 1_700_000_000), directory("/in/sub", 1_700_000_001)];
    let files = list_files_in_folder(Ok(probes)).unwrap();
    assert_eq!(files.len(), 1);
    assert_eq!(files, vec![item(1_700_000_000, "/in/a.jpg")]);
}

#[test]
fn scan_excludes_a_subdirectory_wherever_it_stands() {
    let with = vec![directory("/in/x", 1), file("/in/a", 2), directory("/in/y", 3), file("/in/b", 4)];
    let without = vec![file("/in/a", 2), file("/in/b", 4)];
    assert_eq!(list_files_in_folder(Ok(with)), list_files_in_folder(Ok(without)));
}

#[test]
fn scan_skips_files_without_creation_time() {
    let probes = vec![
        file("/in/a.jpg", 10),
        file_without_creation_time("/in/b.jpg"),
        file("/in/c.jpg", 30),
    ];
    assert_eq!(
        list_files_in_folder(Ok(probes)),
        Ok(vec![item(10, "/in/a.jpg"), item(30, "/in/c.jpg")])
    );
}

#[test]
fn scan_counts_regular_files_less_those_without_creation_time() {
    let probes = vec![
        file("/in/1", 1),
        directory("/in/2", 2),
        file_without_creation_time("/in/3"),
        file("/in/4", 4),
        file_without_creation_time("/in/5"),
        file("/in/6", 6),
        Probe::Found(Found { path: "/in/7".to_string(), is_file: false, created: Created::Unavailable }),
    ];
    let regular = 5;
    let lacking = 2;
    assert_eq!(list_files_in_folder(Ok(probes)).unwrap().len(), regular - lacking);
}

#[test]
fn scan_of_only_skipped_entries_is_empty() {
    let probes = vec![directory("/in/d", 1), file_without_creation_time("/in/f")];
    assert_eq!(list_files_in_folder(Ok(probes)), Ok(vec![]));
}

#[test]
fn scan_fails_when_the_directory_cannot_be_opened() {
    assert_eq!(
        list_files_in_folder(Err("No such file or directory (os error 2)".to_string())),
        Err(ScanError::DirectoryAccess {
            reason: "No such file or directory (os error 2)".to_string()
        })
    );
}

#[test]
fn scan_fails_as_a_whole_on_a_metadata_error() {
    let probes = vec![
        file("/in/a.jpg", 10),
        Probe::MetadataFailed { reason: "Permission denied (os error 13)".to_string() },
        file("/in/c.jpg", 30),
    ];
    assert_eq!(
        list_files_in_folder(Ok(probes)),
        Err(ScanError::Metadata { reason: "Permission denied (os error 13)".to_string() })
    );
}

#[test]
fn scan_fails_as_a_whole_on_a_listing_error() {
    let probes = vec![
        file("/in/a.jpg", 10),
        Probe::ListingFailed { reason: "Input/output error (os error 5)".to_string() },
    ];
    assert_eq!(
        list_files_in_folder(Ok(probes)),
        Err(ScanError::DirectoryAccess { reason: "Input/output error (os error 5)".to_string() })
    );
}

#[test]
fn scan_reports_the_first_failure() {
    let probes = vec![
        directory("/in/d", 1),
        Probe::MetadataFailed { reason: "first".to_string() },
        Probe::ListingFailed { reason: "second".to_string() },
    ];
    assert_eq!(
        list_files_in_folder(Ok(probes)),
        Err(ScanError::Metadata { reason: "first".to_string() })
    );
}

#[test]
fn scan_fails_even_when_the_failure_comes_last() {
    let probes = vec![file("/in/a", 1), file("/in/b", 2), Probe::MetadataFailed { reason: "late".to_string() }];
    assert_eq!(
        list_files_in_folder(Ok(probes)),
        Err(ScanError::Metadata { reason: "late".to_string() })
    );
}

#[test]
fn file_older_than_the_epoch_gets_the_clock_reading() {
    let probes = vec![Probe::Found(Found {
        path: "/in/old.jpg".to_string(),
        is_file: true,
        created: Created::BeforeEpoch { clock_secs: 1_700_000_000 },
    })];
    assert_eq!(list_files_in_folder(Ok(probes)), Ok(vec![item(1_700_000_000, "/in/old.jpg")]));
}

#[test]
fn directory_older_than_the_epoch_is_still_excluded() {
    let probes = vec![Probe::Found(Found {
        path: "/in/old".to_string(),
        is_file: false,
        created: Created::BeforeEpoch { clock_secs: 1_700_000_000 },
    })];
    assert_eq!(list_files_in_folder(Ok(probes)), Ok(vec![]));
}

#[test]
fn seconds_keep_their_value_up_to_the_greatest_signed() {
    assert_eq!(seconds_to_signed(0), 0);
    assert_eq!(seconds_to_signed(1_700_000_000), 1_700_000_000);
    assert_eq!(seconds_to_signed(0x7fff_ffff_ffff_ffff), i64::MAX);
}

#[test]
fn seconds_past_the_greatest_signed_wrap() {
    assert_eq!(seconds_to_signed(0x8000_0000_0000_0000), i64::MIN);
    assert_eq!(seconds_to_signed(u64::MAX), -1);
}

#[test]
fn scan_wraps_seconds_past_the_greatest_signed() {
    let probes = vec![file("/in/far", u64::MAX)];
    assert_eq!(list_files_in_folder(Ok(probes)), Ok(vec![item(-1, "/in/far")]));
}

#[test]
fn error_message_is_the_reason() {
    assert_eq!(ScanError::DirectoryAccess { reason: "gone".to_string() }.message(), "gone");
    assert_eq!(ScanError::Metadata { reason: "denied".to_string() }.message(), "denied");
}
