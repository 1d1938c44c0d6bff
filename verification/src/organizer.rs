//! Moving the files of a list into folders named after the day of their
//! creation, one step at a time.
//!
//! The organizer touches no file system. It says what is to be done next, a
//! directory to create or a file to move, and is told how that went. What
//! goes wrong with one file never keeps it from the files behind it.

use vstd::prelude::*;

use crate::date::{date_text, destination_folder, utc_date};
use crate::entry::{entries_of, FileEntry, ListItem};
use crate::extension::{check_extension, has_allowed_extension, uppercase_of};
use crate::path::{
    base_name, file_name_of, join, join_path, lemma_base_name_of_join, lemma_base_start,
};

verus! {

/// What the caller reports to the organizer.
#[derive(Clone, Copy, Debug, PartialEq, Eq, Structural)]
pub enum Event {
    /// Nothing has been asked for yet.
    Start,
    /// The directory asked for did not exist and was created.
    DirCreated,
    /// The directory asked for exists already.
    DirExists,
    /// The directory asked for could not be created.
    DirFailed,
    /// The file was moved.
    Moved,
    /// The file could not be moved.
    MoveFailed,
}

impl Event {
    /// Whether this report says that the directory asked for is there. A
    /// directory that existed before counts like one that was just created.
    pub open spec fn directory_ready(self) -> bool {
        self == Event::DirCreated || self == Event::DirExists
    }

    /// Whether this report says that the directory asked for is there.
    pub fn is_directory_ready(self) -> (ready: bool)
        ensures
            ready == self.directory_ready(),
    {
        match self {
            Event::DirCreated => true,
            Event::DirExists => true,
            _ => false,
        }
    }
}

/// What the organizer asks the caller to do.
#[derive(Debug, PartialEq, Eq)]
pub enum Action {
    /// Create the directory `path` and report `DirCreated`, `DirExists` or
    /// `DirFailed`.
    CreateDir { path: String },
    /// Move the file `source` to `destination` and report `Moved` or
    /// `MoveFailed`.
    MoveFile { source: String, destination: String },
    /// The file `source` was created at a moment that has no calendar date,
    /// `seconds` seconds after the epoch, so there is no folder for it. The
    /// organizer has passed over it.
    NoDate { source: String, seconds: i64 },
    /// No file is left to organize.
    Done,
}

/// What an [`Action`] stands for.
pub enum Task {
    CreateDir { path: Seq<char> },
    MoveFile { source: Seq<char>, destination: Seq<char> },
    NoDate { source: Seq<char>, seconds: int },
    Done,
}

impl View for Action {
    type V = Task;

    open spec fn view(&self) -> Task {
        match *self {
            Action::CreateDir { path } => Task::CreateDir { path: path@ },
            Action::MoveFile { source, destination } => Task::MoveFile {
                source: source@,
                destination: destination@,
            },
            Action::NoDate { source, seconds } => Task::NoDate {
                source: source@,
                seconds: seconds as int,
            },
            Action::Done => Task::Done,
        }
    }
}

/// How far the organizer has come.
pub enum Position {
    /// No file is in hand; the files from `from` on are still to be looked at.
    Ready { from: int },
    /// The directory for the file at `index` has been asked for.
    Directory { index: int },
    /// The move of the file at `index` has been asked for.
    Transfer { index: int },
}

/// Whether a file is organized at all: its path passes the extension filter.
pub open spec fn eligible(entry: FileEntry) -> bool {
    has_allowed_extension(uppercase_of(entry.path))
}

/// The first position from `from` on that holds an eligible file, or the
/// length of the list if there is none.
pub open spec fn next_eligible(files: Seq<FileEntry>, from: int) -> int
    decreases files.len() - from,
{
    if from >= files.len() {
        files.len() as int
    } else if from >= 0 && eligible(files[from]) {
        from
    } else {
        next_eligible(files, from + 1)
    }
}

/// The directory below `parent` into which a file goes, if the moment of its
/// creation has a date.
pub open spec fn destination_dir(parent: Seq<char>, entry: FileEntry) -> Option<Seq<char>> {
    match utc_date(entry.seconds) {
        Some(date) => Some(join(parent, date_text(date))),
        None => None,
    }
}

/// The path to which a file is moved: its own name, in the directory `dir`.
pub open spec fn destination_path(dir: Seq<char>, entry: FileEntry) -> Seq<char> {
    join(dir, base_name(entry.path))
}

/// What the organizer does when it has no file in hand: it turns to the first
/// eligible file from `from` on and asks for its directory. A file without a
/// date is reported and passed over. Without an eligible file it is done.
pub open spec fn turn_to(files: Seq<FileEntry>, parent: Seq<char>, from: int) -> (Position, Task) {
    let at = next_eligible(files, from);
    if at >= files.len() {
        (Position::Ready { from: files.len() as int }, Task::Done)
    } else {
        match destination_dir(parent, files[at]) {
            Some(dir) => (Position::Directory { index: at }, Task::CreateDir { path: dir }),
            None => (
                Position::Ready { from: at + 1 },
                Task::NoDate { source: files[at].path, seconds: files[at].seconds },
            ),
        }
    }
}

/// The organizer's rule: where it stands and what it asks for after `event`
/// was reported at `position`.
///
/// With no file in hand it turns to the next one, whatever was reported.
/// While it waits for a directory, a directory that was created or was there
/// already lets the file be moved; any other report gives the file up. While
/// it waits for a move, any report settles the file. A file given up or
/// settled makes way for the files behind it.
pub open spec fn step_of(
    files: Seq<FileEntry>,
    parent: Seq<char>,
    position: Position,
    event: Event,
) -> (Position, Task) {
    match position {
        Position::Ready { from } => turn_to(files, parent, from),
        Position::Directory { index } => {
            if event.directory_ready() {
                (
                    Position::Transfer { index },
                    Task::MoveFile {
                        source: files[index].path,
                        destination: destination_path(
                            destination_dir(parent, files[index]).unwrap(),
                            files[index],
                        ),
                    },
                )
            } else {
                turn_to(files, parent, index + 1)
            }
        },
        Position::Transfer { index } => turn_to(files, parent, index + 1),
    }
}

enum Stage {
    Ready { from: usize },
    Directory { index: usize, dir: String },
    Transfer { index: usize },
}

/// The state of one run over a list of files.
pub struct Organizer {
    files: Vec<ListItem>,
    parent: String,
    stage: Stage,
}

impl Organizer {
    #[verifier::type_invariant]
    spec fn well_formed(&self) -> bool {
        match self.stage {
            Stage::Ready { from } => from <= self.files.len(),
            Stage::Directory { index, dir } => {
                &&& index < self.files.len()
                &&& destination_dir(self.parent@, self.files[index as int]@) == Some(dir@)
            },
            Stage::Transfer { index } => index < self.files.len(),
        }
    }

    /// The files of this run.
    pub closed spec fn files(&self) -> Seq<FileEntry> {
        entries_of(self.files@)
    }

    /// The folder below which the dated folders are made.
    pub closed spec fn parent(&self) -> Seq<char> {
        self.parent@
    }

    /// How far the run has come.
    pub closed spec fn position(&self) -> Position {
        match self.stage {
            Stage::Ready { from } => Position::Ready { from: from as int },
            Stage::Directory { index, dir } => Position::Directory { index: index as int },
            Stage::Transfer { index } => Position::Transfer { index: index as int },
        }
    }

    /// A run over `file_list` that sorts into folders below
    /// `parent_folder_path`. Nothing has been asked for yet.
    pub fn new(file_list: Vec<ListItem>, parent_folder_path: String) -> (organizer: Organizer)
        ensures
            organizer.files() == entries_of(file_list@),
            organizer.parent() == parent_folder_path@,
            organizer.position() == (Position::Ready { from: 0 }),
            in_range(organizer.files(), organizer.position()),
    {
        Organizer { files: file_list, parent: parent_folder_path, stage: Stage::Ready { from: 0 } }
    }

    /// Takes the report on what was last asked for (`Event::Start` where
    /// nothing was) and says what to do next, by the rule [`step_of`].
    pub fn step(&mut self, event: Event) -> (action: Action)
        ensures
            final(self).files() == old(self).files(),
            final(self).parent() == old(self).parent(),
            (final(self).position(), action@) == step_of(
                old(self).files(),
                old(self).parent(),
                old(self).position(),
                event,
            ),
            in_range(old(self).files(), old(self).position()),
            in_range(final(self).files(), final(self).position()),
    {
        proof {
            use_type_invariant(&*self);
            lemma_step_advances(self.files(), self.parent(), self.position(), event);
        }
        match &self.stage {
            Stage::Ready { from } => {
                let from = *from;
                self.turn_to(from)
            },
            Stage::Directory { index, dir } => {
                let index = *index;
                if event.is_directory_ready() {
                    let source = self.files[index].file_path.clone();
                    let name = file_name_of(source.as_str());
                    let destination = join_path(dir.as_str(), name.as_str());
                    self.stage = Stage::Transfer { index };
                    Action::MoveFile { source, destination }
                } else {
                    self.turn_to(index + 1)
                }
            },
            Stage::Transfer { index } => {
                let index = *index;
                self.turn_to(index + 1)
            },
        }
    }

    fn turn_to(&mut self, from: usize) -> (action: Action)
        requires
            from <= old(self).files.len(),
        ensures
            final(self).files == old(self).files,
            final(self).parent == old(self).parent,
            (final(self).position(), action@) == turn_to(
                old(self).files(),
                old(self).parent(),
                from as int,
            ),
    {
        let mut at: usize = from;
        while at < self.files.len()
            invariant
                from <= at <= self.files.len(),
                self.files == old(self).files,
                self.parent == old(self).parent,
                next_eligible(self.files(), at as int) == next_eligible(self.files(), from as int),
            decreases self.files.len() - at,
        {
            let file = &self.files[at];
            if check_extension(file.file_path.as_str()) {
                match destination_folder(file.metadata) {
                    Some(folder) => {
                        let dir = join_path(self.parent.as_str(), folder.as_str());
                        let action = Action::CreateDir { path: dir.clone() };
                        self.stage = Stage::Directory { index: at, dir };
                        return action;
                    },
                    None => {
                        let action = Action::NoDate {
                            source: file.file_path.clone(),
                            seconds: file.metadata,
                        };
                        self.stage = Stage::Ready { from: at + 1 };
                        return action;
                    },
                }
            }
            at += 1;
        }
        self.stage = Stage::Ready { from: at };
        Action::Done
    }
}

/// Whether a position lies within a list of files.
pub open spec fn in_range(files: Seq<FileEntry>, position: Position) -> bool {
    match position {
        Position::Ready { from } => 0 <= from <= files.len(),
        Position::Directory { index } => 0 <= index < files.len(),
        Position::Transfer { index } => 0 <= index < files.len(),
    }
}

/// How much of the work lies behind a position: three steps for each file
/// passed, and one or two for the file in hand.
pub open spec fn progress(position: Position) -> int {
    match position {
        Position::Ready { from } => 3 * from,
        Position::Directory { index } => 3 * index + 1,
        Position::Transfer { index } => 3 * index + 2,
    }
}

/// The organizer turns to the first eligible file it has not yet passed, and
/// to no other: the files it skips on the way are not eligible.
pub proof fn lemma_next_eligible(files: Seq<FileEntry>, from: int)
    requires
        0 <= from <= files.len(),
    ensures
        from <= next_eligible(files, from) <= files.len(),
        next_eligible(files, from) < files.len() ==> eligible(files[next_eligible(files, from)]),
        forall|i: int| from <= i < next_eligible(files, from) ==> !eligible(#[trigger] files[i]),
    decreases files.len() - from,
{
    if from < files.len() && !eligible(files[from]) {
        lemma_next_eligible(files, from + 1);
    }
}

/// A directory that exists already is as good as one just created: the file
/// is moved either way. Running over the same files again therefore never
/// fails at the directories that the first run made.
pub proof fn lemma_existing_directory_is_success(
    files: Seq<FileEntry>,
    parent: Seq<char>,
    index: int,
)
    ensures
        step_of(files, parent, Position::Directory { index }, Event::DirExists) == step_of(
            files,
            parent,
            Position::Directory { index },
            Event::DirCreated,
        ),
        step_of(files, parent, Position::Directory { index }, Event::DirExists).1 is MoveFile,
{
}

/// What goes wrong with one file stays with that file. Whether its directory
/// could not be created, its move failed or its move went well, the organizer
/// goes on in the same way: with the first eligible file behind it.
pub proof fn lemma_failure_is_isolated(files: Seq<FileEntry>, parent: Seq<char>, index: int)
    ensures
        step_of(files, parent, Position::Directory { index }, Event::DirFailed) == turn_to(
            files,
            parent,
            index + 1,
        ),
        step_of(files, parent, Position::Transfer { index }, Event::MoveFailed) == turn_to(
            files,
            parent,
            index + 1,
        ),
        step_of(files, parent, Position::Transfer { index }, Event::Moved) == turn_to(
            files,
            parent,
            index + 1,
        ),
{
}

/// Every step but the last brings the run forward, and never past the end of
/// the list: after at most three steps for each file the organizer is done.
pub proof fn lemma_step_advances(
    files: Seq<FileEntry>,
    parent: Seq<char>,
    position: Position,
    event: Event,
)
    requires
        in_range(files, position),
    ensures
        in_range(files, step_of(files, parent, position, event).0),
        progress(step_of(files, parent, position, event).0) <= 3 * files.len(),
        step_of(files, parent, position, event).1 is Done || progress(
            step_of(files, parent, position, event).0,
        ) > progress(position),
        step_of(files, parent, position, event).1 is Done ==> step_of(
            files,
            parent,
            position,
            event,
        ).0 == (Position::Ready { from: files.len() as int }),
{
    match position {
        Position::Ready { from } => lemma_next_eligible(files, from),
        Position::Directory { index } => lemma_next_eligible(files, index + 1),
        Position::Transfer { index } => lemma_next_eligible(files, index + 1),
    }
}

/// Only eligible files are touched: whatever the organizer asks for after it
/// has turned to the files from `from` on concerns an eligible file.
pub proof fn lemma_turn_to_eligible(files: Seq<FileEntry>, parent: Seq<char>, from: int)
    requires
        0 <= from <= files.len(),
    ensures
        match turn_to(files, parent, from) {
            (Position::Directory { index }, Task::CreateDir { path }) => {
                &&& index == next_eligible(files, from)
                &&& eligible(files[index])
                &&& Some(path) == destination_dir(parent, files[index])
            },
            (Position::Ready { from: behind }, Task::NoDate { source, seconds }) => {
                &&& behind == next_eligible(files, from) + 1
                &&& eligible(files[behind - 1])
                &&& utc_date(files[behind - 1].seconds) is None
                &&& source == files[behind - 1].path
                &&& seconds == files[behind - 1].seconds
            },
            (Position::Ready { from: behind }, Task::Done) => {
                &&& behind == files.len()
                &&& forall|i: int| from <= i < files.len() ==> !eligible(#[trigger] files[i])
            },
            _ => false,
        },
{
    lemma_next_eligible(files, from);
}

/// A file keeps its name when it is moved: the last segment of the path it
/// goes to is the last segment of the path it comes from.
pub proof fn lemma_move_keeps_name(dir: Seq<char>, entry: FileEntry)
    ensures
        base_name(destination_path(dir, entry)) == base_name(entry.path),
{
    lemma_base_start(entry.path);
    lemma_base_name_of_join(dir, base_name(entry.path));
}

} // verus!
