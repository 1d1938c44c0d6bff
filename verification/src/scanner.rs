//! Turning what a directory listing showed into the list of files to
//! organize.

use vstd::prelude::*;

use crate::entry::{entries_of, FileEntry, ListItem};

verus! {

/// What the file system says of the moment a file was created.
#[derive(Debug, PartialEq, Eq)]
pub enum Created {
    /// The platform or the file system keeps no creation time for this file.
    Unavailable,
    /// The file was created `secs` whole seconds after the epoch.
    SinceEpoch { secs: u64 },
    /// The file claims to be older than the epoch. `clock_secs` is the clock's
    /// reading, in whole seconds since the epoch, at the moment this was
    /// found; it stands in for the creation time.
    BeforeEpoch { clock_secs: u64 },
}

/// A directory entry whose metadata could be read.
#[derive(Debug, PartialEq, Eq)]
pub struct Found {
    /// Path of the entry.
    pub path: String,
    /// Whether the entry is a regular file (not a directory or anything else).
    pub is_file: bool,
    /// Its creation time, as far as it is known.
    pub created: Created,
}

/// The outcome of looking at one entry of a directory.
#[derive(Debug, PartialEq, Eq)]
pub enum Probe {
    /// Reading the next entry of the directory failed.
    ListingFailed { reason: String },
    /// The entry was read, its metadata could not be.
    MetadataFailed { reason: String },
    /// The entry and its metadata were read.
    Found(Found),
}

/// Why a scan gave no list.
#[derive(Debug, PartialEq, Eq)]
pub enum ScanError {
    /// The directory could not be opened or listed.
    DirectoryAccess { reason: String },
    /// The metadata of one of its entries could not be read.
    Metadata { reason: String },
}

impl ScanError {
    /// The reason that the file system gave.
    pub fn message(self) -> (text: String)
        ensures
            text == match self {
                ScanError::DirectoryAccess { reason } => reason,
                ScanError::Metadata { reason } => reason,
            },
    {
        match self {
            ScanError::DirectoryAccess { reason } => reason,
            ScanError::Metadata { reason } => reason,
        }
    }
}

/// The signed number that a count of seconds becomes when its 64 bits are
/// read as two's complement.
pub open spec fn signed_seconds(secs: u64) -> int {
    if secs <= i64::MAX {
        secs as int
    } else {
        secs - 0x1_0000_0000_0000_0000
    }
}

/// The entry that a directory entry contributes to a scan, if any: regular
/// files whose creation time is known contribute, nothing else does.
pub open spec fn entry_of(found: Found) -> Option<FileEntry> {
    if !found.is_file {
        None
    } else {
        match found.created {
            Created::Unavailable => None,
            Created::SinceEpoch { secs } => Some(
                FileEntry { seconds: signed_seconds(secs), path: found.path@ },
            ),
            Created::BeforeEpoch { clock_secs } => Some(
                FileEntry { seconds: signed_seconds(clock_secs), path: found.path@ },
            ),
        }
    }
}

/// [`entry_of`] for a probe; a failed probe contributes nothing.
pub open spec fn probe_entry(probe: Probe) -> Option<FileEntry> {
    match probe {
        Probe::Found(found) => entry_of(found),
        _ => None,
    }
}

/// Whether position `at` holds the first failed probe of `probes`.
pub open spec fn first_failure_at(probes: Seq<Probe>, at: int) -> bool {
    &&& 0 <= at < probes.len()
    &&& !(probes[at] is Found)
    &&& forall|j: int| 0 <= j < at ==> probes[j] is Found
}

/// Whether `error` reports what went wrong with `probe`.
pub open spec fn reports(error: ScanError, probe: Probe) -> bool {
    match probe {
        Probe::ListingFailed { reason } => error == (ScanError::DirectoryAccess { reason }),
        Probe::MetadataFailed { reason } => error == (ScanError::Metadata { reason }),
        Probe::Found(_) => false,
    }
}

/// The signed reading of a count of seconds.
pub fn seconds_to_signed(secs: u64) -> (signed: i64)
    ensures
        signed == signed_seconds(secs),
{
    let signed: i64 = #[verifier::truncate] (secs as i64);
    assert(secs <= 0x7fff_ffff_ffff_ffffu64 ==> (secs as i64) as int == secs as int) by (bit_vector);
    assert(secs > 0x7fff_ffff_ffff_ffffu64 ==> (secs as i64) as int == secs as int - 0x1_0000_0000_0000_0000int) by (bit_vector);
    signed
}

/// The entries that a listing without failures yields: one for each regular
/// file whose creation time is known, in the order of the listing.
pub open spec fn scanned(probes: Seq<Probe>) -> Seq<FileEntry> {
    probes.filter_map(|probe: Probe| probe_entry(probe))
}

/// Looking at one more probe adds its entry, if it has one, at the end.
proof fn lemma_scanned_next(probes: Seq<Probe>, i: int)
    requires
        0 <= i < probes.len(),
    ensures
        scanned(probes.take(i + 1)) == match probe_entry(probes[i]) {
            Some(entry) => scanned(probes.take(i)).push(entry),
            None => scanned(probes.take(i)),
        },
{
    let longer = probes.take(i + 1);
    assert(longer.drop_last() == probes.take(i));
    assert(longer.last() == probes[i]);
    match probe_entry(probes[i]) {
        Some(entry) => {
            assert(scanned(probes.take(i)) + seq![entry] == scanned(probes.take(i)).push(entry));
        },
        None => {},
    }
}

/// The files of a folder, from what listing it showed.
///
/// `listing` is the failure to open the directory, or one probe for each of
/// its entries in the order in which they were read. The scan fails as a
/// whole on the first probe that failed; otherwise it yields every regular
/// file whose creation time is known and passes over everything else.
pub fn list_files_in_folder(listing: Result<Vec<Probe>, String>) -> (result: Result<
    Vec<ListItem>,
    ScanError,
>)
    ensures
        match listing {
            Err(reason) => result == Err::<Vec<ListItem>, ScanError>(
                ScanError::DirectoryAccess { reason },
            ),
            Ok(probes) => match result {
                Ok(files) => {
                    &&& forall|i: int| 0 <= i < probes.len() ==> probes[i] is Found
                    &&& entries_of(files@) == scanned(probes@)
                },
                Err(error) => exists|at: int|
                    first_failure_at(probes@, at) && reports(error, probes[at]),
            },
        },
{
    let probes = match listing {
        Err(reason) => {
            return Err(ScanError::DirectoryAccess { reason });
        },
        Ok(probes) => probes,
    };
    let mut files: Vec<ListItem> = Vec::new();
    let mut i: usize = 0;
    assert(probes@.take(0) =~= Seq::<Probe>::empty());
    assert(entries_of(files@) =~= scanned(probes@.take(0)));
    while i < probes.len()
        invariant
            listing == Ok::<Vec<Probe>, String>(probes),
            i <= probes.len(),
            forall|j: int| 0 <= j < i ==> probes[j] is Found,
            entries_of(files@) == scanned(probes@.take(i as int)),
        decreases probes.len() - i,
    {
        proof {
            lemma_scanned_next(probes@, i as int);
        }
        let ghost before = files@;
        match &probes[i] {
            Probe::ListingFailed { reason } => {
                assert(first_failure_at(probes@, i as int));
                return Err(ScanError::DirectoryAccess { reason: reason.clone() });
            },
            Probe::MetadataFailed { reason } => {
                assert(first_failure_at(probes@, i as int));
                return Err(ScanError::Metadata { reason: reason.clone() });
            },
            Probe::Found(found) => {
                if found.is_file {
                    match found.created {
                        Created::Unavailable => {},
                        Created::SinceEpoch { secs } => {
                            files.push(ListItem::new(seconds_to_signed(secs), found.path.clone()));
                            assert(entries_of(files@) =~= entries_of(before).push(
                                entry_of(*found).unwrap(),
                            ));
                        },
                        Created::BeforeEpoch { clock_secs } => {
                            files.push(
                                ListItem::new(seconds_to_signed(clock_secs), found.path.clone()),
                            );
                            assert(entries_of(files@) =~= entries_of(before).push(
                                entry_of(*found).unwrap(),
                            ));
                        },
                    }
                }
            },
        }
        i += 1;
    }
    assert(probes@.take(i as int) =~= probes@);
    Ok(files)
}

/// Whether a probe found a regular file.
pub open spec fn is_regular_file(probe: Probe) -> bool {
    probe matches Probe::Found(found) && found.is_file
}

/// Whether a probe found a regular file whose creation time is not known.
pub open spec fn lacks_creation_time(probe: Probe) -> bool {
    probe matches Probe::Found(found) && found.is_file && found.created is Unavailable
}

/// A scan yields as many entries as the listing has regular files, less those
/// whose creation time is not known.
pub proof fn lemma_scan_count(probes: Seq<Probe>)
    ensures
        scanned(probes).len() == probes.filter(|probe: Probe| is_regular_file(probe)).len()
            - probes.filter(|probe: Probe| lacks_creation_time(probe)).len(),
    decreases probes.len(),
{
    let regular = |probe: Probe| is_regular_file(probe);
    let lacking = |probe: Probe| lacks_creation_time(probe);
    reveal(Seq::filter);
    if probes.len() > 0 {
        lemma_scan_count(probes.drop_last());
        assert(probes.filter(regular).len() == probes.drop_last().filter(regular).len() + (
        if is_regular_file(probes.last()) {
            1int
        } else {
            0int
        }));
        assert(probes.filter(lacking).len() == probes.drop_last().filter(lacking).len() + (
        if lacks_creation_time(probes.last()) {
            1int
        } else {
            0int
        }));
    }
}

/// An entry that is not a regular file, a subdirectory for one, leaves no
/// trace in a scan: the result is the same as if the entry were not there.
pub proof fn lemma_scan_ignores_non_files(probes: Seq<Probe>, at: int)
    requires
        0 <= at < probes.len(),
        probes[at] matches Probe::Found(found) && !found.is_file,
    ensures
        scanned(probes) == scanned(probes.remove(at)),
    decreases probes.len(),
{
    if at == probes.len() - 1 {
        assert(probes.remove(at) == probes.drop_last());
    } else {
        lemma_scan_ignores_non_files(probes.drop_last(), at);
        assert(probes.remove(at).drop_last() == probes.drop_last().remove(at));
        assert(probes.remove(at).last() == probes.last());
    }
}

} // verus!
