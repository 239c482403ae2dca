//! The way of one file through a run: read its metadata, classify it, make
//! sure of its directories, find it a free name, copy it.
//!
//! A [`FileTask`] decides and counts; whoever runs it reads, creates and
//! copies. The task says what is to be done, is told how it went, and says
//! what is to be done next, until the file has come to its end.
use crate::exif::{ExifData, ExifError};
use crate::global_configuration::{GlobalConfiguration, Settings};
use crate::paths::{
    file_name, file_name_of, join, joined, lemma_joined_lies_below, lemma_relative_is_not_rooted,
    lies_below, relative_path, relative_to,
};
use crate::reporting::{next_count, End, Outcome, Report, Reporting};
use crate::sanitizer::{is_safe, Directory};
use crate::text::views_of;
use vstd::prelude::*;
use vstd::string::StringExecFns;

verus! {

/// What the reason of an error starts with where a file could not be read.
pub const IO_ERROR_PREFIX: &'static str = "IO error: ";

/// The reason of the error of a file whose path names no file.
pub const NO_FILE_NAME: &'static str = "the path has no file name";

/// The reason of the error of a task that was told of something it had not
/// asked for.
pub const UNEXPECTED_EVENT: &'static str = "unexpected event";

/// What a task waits for.
#[derive(Debug)]
pub enum FileState {
    /// The metadata of the file.
    AwaitingMetadata,
    /// The directory named first in `remaining`, below `directory`; the
    /// others follow, each below the one before.
    EnsuringDirectories { directory: String, remaining: Vec<String> },
    /// A free name at or near `desired`.
    ResolvingPlacement { desired: String },
    /// The copy of the file to its place in the sorted tree.
    Copying { destination: String },
    /// The copy of the file to the place for unclassified images.
    CopyingUnsorted { destination: String },
    /// Nothing: the file has come to its end.
    Finished(Outcome),
}

/// What a task is told.
#[derive(Debug)]
pub enum FileEvent {
    /// The metadata was read and classified.
    MetadataRead(ExifData),
    /// The metadata could not be had.
    MetadataFailed(ExifError),
    /// The directory exists.
    DirectoryEnsured,
    /// The path is free for the file.
    PlacementResolved(String),
    /// The file was copied.
    Copied,
    /// What was asked for has failed; the text says why.
    Failed(String),
}

/// What a task asks for.
#[derive(Debug)]
pub enum FileAction {
    /// Read and classify the metadata of the file.
    ReadMetadata { file: String },
    /// Make sure that the directory `child` exists below `parent`.
    EnsureDirectory { parent: String, child: String },
    /// Find a free name at or near `desired`.
    ResolvePlacement { desired: String },
    /// Copy the file.
    CopyFile { from: String, to: String },
    /// Make sure that the directory of `to` exists, and copy the file.
    CopyUnsorted { from: String, to: String },
}

/// A [`FileState`] as plain value.
pub enum Stage {
    AwaitingMetadata,
    EnsuringDirectories { directory: Seq<char>, remaining: Seq<Seq<char>> },
    ResolvingPlacement { desired: Seq<char> },
    Copying { destination: Seq<char> },
    CopyingUnsorted { destination: Seq<char> },
    Finished(End),
}

/// A [`FileAction`] as plain value.
pub enum Todo {
    ReadMetadata { file: Seq<char> },
    EnsureDirectory { parent: Seq<char>, child: Seq<char> },
    ResolvePlacement { desired: Seq<char> },
    CopyFile { from: Seq<char>, to: Seq<char> },
    CopyUnsorted { from: Seq<char>, to: Seq<char> },
}

impl View for FileState {
    type V = Stage;

    open spec fn view(&self) -> Stage {
        match *self {
            FileState::AwaitingMetadata => Stage::AwaitingMetadata,
            FileState::EnsuringDirectories { directory, remaining } => Stage::EnsuringDirectories {
                directory: directory@,
                remaining: views_of(remaining@),
            },
            FileState::ResolvingPlacement { desired } => Stage::ResolvingPlacement {
                desired: desired@,
            },
            FileState::Copying { destination } => Stage::Copying { destination: destination@ },
            FileState::CopyingUnsorted { destination } => Stage::CopyingUnsorted {
                destination: destination@,
            },
            FileState::Finished(outcome) => Stage::Finished(outcome@),
        }
    }
}

impl View for FileAction {
    type V = Todo;

    open spec fn view(&self) -> Todo {
        match *self {
            FileAction::ReadMetadata { file } => Todo::ReadMetadata { file: file@ },
            FileAction::EnsureDirectory { parent, child } => Todo::EnsureDirectory {
                parent: parent@,
                child: child@,
            },
            FileAction::ResolvePlacement { desired } => Todo::ResolvePlacement {
                desired: desired@,
            },
            FileAction::CopyFile { from, to } => Todo::CopyFile { from: from@, to: to@ },
            FileAction::CopyUnsorted { from, to } => Todo::CopyUnsorted { from: from@, to: to@ },
        }
    }
}

/// The names of the directories that an image goes below, outermost first:
/// period and place, and the device where it counts.
pub open spec fn segments_of(data: ExifData, use_device: bool) -> Seq<Seq<char>> {
    if use_device {
        seq![data.year_month@, data.place@, data.device@]
    } else {
        seq![data.year_month@, data.place@]
    }
}

/// What an image is classified by: its period, its place and, where the
/// device counts, its device. Every part is a safe directory name.
#[derive(Debug)]
pub struct ClassificationKey {
    pub period: Directory,
    pub place: Directory,
    pub device: Option<Directory>,
}

impl ClassificationKey {
    /// The parts of the key, outermost first.
    pub open spec fn parts(self) -> Seq<Seq<char>> {
        match self.device {
            Some(device) => seq![self.period@, self.place@, device@],
            None => seq![self.period@, self.place@],
        }
    }

    /// The key of an image with the given metadata.
    pub fn new(data: &ExifData, use_device: bool) -> (key: ClassificationKey)
        ensures
            key.parts() == segments_of(*data, use_device),
            key.period@ == data.year_month@,
            key.place@ == data.place@,
            key.device.is_some() == use_device,
    {
        ClassificationKey {
            period: data.year_month.clone(),
            place: data.place.clone(),
            device: if use_device {
                Some(data.device.clone())
            } else {
                None
            },
        }
    }

    /// The names of the directories of the key, outermost first; each holds
    /// letters, digits, underscores and spaces only.
    pub fn segments(&self) -> (r: Vec<String>)
        ensures
            views_of(r@) == self.parts(),
            2 <= r.len() <= 3,
            forall|i: int| 0 <= i < r.len() ==> is_safe(#[trigger] views_of(r@)[i]),
    {
        let mut segments: Vec<String> = Vec::new();
        segments.push(self.period.get().clone());
        segments.push(self.place.get().clone());
        match &self.device {
            Some(device) => {
                segments.push(device.get().clone());
            },
            None => {},
        }
        assert(views_of(segments@) =~= self.parts());
        segments
    }
}

/// The directory that an image goes to: below the root of the sorted tree,
/// the directories of its classification, each below the one before.
pub open spec fn destination_directory(root: Seq<char>, segments: Seq<Seq<char>>) -> Seq<char>
    decreases segments.len(),
{
    if segments.len() == 0 {
        root
    } else {
        joined(destination_directory(root, segments.drop_last()), segments.last())
    }
}

/// What follows once every directory exists: the file is to get a name in
/// `directory`, its own if that is free. A path that names no file is an
/// error.
pub open spec fn after_directories(file: Seq<char>, directory: Seq<char>) -> Stage {
    match file_name_of(file) {
        Some(name) => Stage::ResolvingPlacement { desired: joined(directory, name) },
        None => Stage::Finished(End::Errored(NO_FILE_NAME@)),
    }
}

/// Where an image that cannot be classified is copied to: below the
/// directory for unclassified images, along the way that leads to the file
/// from the directory whose images are sorted.
pub open spec fn unsorted_destination(settings: Settings, file: Seq<char>) -> Seq<char> {
    joined(settings.unsorted_images_directory, relative_to(settings.source_directory, file))
}

/// The end of a task that is told of something it does not wait for: an
/// error, with the reason of the failure where it is told of one.
pub open spec fn ended_by(event: FileEvent) -> Stage {
    match event {
        FileEvent::Failed(reason) => Stage::Finished(End::Errored(reason@)),
        _ => Stage::Finished(End::Errored(UNEXPECTED_EVENT@)),
    }
}

/// What a task waits for after it was told `event`.
///
/// Metadata that was read leads to the directories of the classification,
/// then to a free name, then to the copy, then to the end as sorted. A file
/// that is no image is skipped. An image without metadata, or with
/// coordinates that cannot be decoded, is copied below the directory for
/// unclassified images and ends as unsorted. A file that cannot be read,
/// and any step that fails, ends as an error. So does a task that is told
/// of something it did not ask for. A task that has come to its end stays
/// there.
pub open spec fn next_stage(
    file: Seq<char>,
    stage: Stage,
    event: FileEvent,
    settings: Settings,
) -> Stage {
    match stage {
        Stage::AwaitingMetadata => match event {
            FileEvent::MetadataRead(data) => Stage::EnsuringDirectories {
                directory: settings.sorted_images_directory,
                remaining: segments_of(data, settings.use_device),
            },
            FileEvent::MetadataFailed(ExifError::IO(reason)) => Stage::Finished(
                End::Errored(IO_ERROR_PREFIX@ + reason@),
            ),
            FileEvent::MetadataFailed(ExifError::NotImageFile(_)) => Stage::Finished(End::Skipped),
            FileEvent::MetadataFailed(_) => Stage::CopyingUnsorted {
                destination: unsorted_destination(settings, file),
            },
            _ => ended_by(event),
        },
        Stage::EnsuringDirectories { directory, remaining } => match event {
            FileEvent::DirectoryEnsured => if remaining.len() == 0 {
                after_directories(file, directory)
            } else if remaining.len() == 1 {
                after_directories(file, joined(directory, remaining[0]))
            } else {
                Stage::EnsuringDirectories {
                    directory: joined(directory, remaining[0]),
                    remaining: remaining.drop_first(),
                }
            },
            _ => ended_by(event),
        },
        Stage::ResolvingPlacement { desired } => match event {
            FileEvent::PlacementResolved(path) => Stage::Copying { destination: path@ },
            _ => ended_by(event),
        },
        Stage::Copying { destination } => match event {
            FileEvent::Copied => Stage::Finished(End::Sorted),
            _ => ended_by(event),
        },
        Stage::CopyingUnsorted { destination } => match event {
            FileEvent::Copied => Stage::Finished(End::Unsorted),
            _ => ended_by(event),
        },
        Stage::Finished(end) => Stage::Finished(end),
    }
}

/// What a task asks for while it waits; nothing once the file has come to
/// its end.
pub open spec fn todo_of(file: Seq<char>, stage: Stage) -> Option<Todo> {
    match stage {
        Stage::AwaitingMetadata => Some(Todo::ReadMetadata { file }),
        Stage::EnsuringDirectories { directory, remaining } => Some(
            Todo::EnsureDirectory {
                parent: directory,
                child: if remaining.len() == 0 {
                    Seq::empty()
                } else {
                    remaining[0]
                },
            },
        ),
        Stage::ResolvingPlacement { desired } => Some(Todo::ResolvePlacement { desired }),
        Stage::Copying { destination } => Some(Todo::CopyFile { from: file, to: destination }),
        Stage::CopyingUnsorted { destination } => Some(
            Todo::CopyUnsorted { from: file, to: destination },
        ),
        Stage::Finished(_) => None,
    }
}

/// The tallies after a task was told `event`: metadata that was read is
/// noted with its place, device and period; the end of the file is counted
/// when the task reaches it, and only then.
pub open spec fn report_after_event(
    report: Report,
    file: Seq<char>,
    stage: Stage,
    event: FileEvent,
    settings: Settings,
) -> Report {
    let noted = match (stage, event) {
        (Stage::AwaitingMetadata, FileEvent::MetadataRead(data)) => report.with_classification(
            data.year_month@,
            data.place@,
            data.device@,
        ),
        _ => report,
    };
    match stage {
        Stage::Finished(_) => report,
        _ => match next_stage(file, stage, event, settings) {
            Stage::Finished(end) => noted.with_outcome(file, end),
            _ => noted,
        },
    }
}

/// Ends a task that is told of something it does not wait for.
fn end_by(event: FileEvent) -> (state: FileState)
    ensures
        state@ == ended_by(event),
{
    match event {
        FileEvent::Failed(reason) => FileState::Finished(Outcome::Errored(reason)),
        _ => FileState::Finished(Outcome::Errored(UNEXPECTED_EVENT.to_owned())),
    }
}

/// The way of one file through the run, between two steps.
#[derive(Debug)]
pub struct FileTask {
    file: String,
    state: FileState,
}

impl FileTask {
    /// The path of the file.
    pub closed spec fn file(&self) -> Seq<char> {
        self.file@
    }

    /// What the task waits for.
    pub closed spec fn stage(&self) -> Stage {
        self.state@
    }

    /// A task for the file at the given path. It waits for the metadata.
    pub fn new(file: String) -> (task: FileTask)
        ensures
            task.file() == file@,
            task.stage() == Stage::AwaitingMetadata,
    {
        FileTask { file, state: FileState::AwaitingMetadata }
    }

    /// The path of the file.
    pub fn path(&self) -> (r: &str)
        ensures
            r@ == self.file(),
    {
        self.file.as_str()
    }

    /// What the task waits for.
    pub fn state(&self) -> (r: &FileState)
        ensures
            r@ == self.stage(),
    {
        &self.state
    }

    /// The end that the file has come to, once it has.
    pub fn outcome(&self) -> (r: Option<&Outcome>)
        ensures
            match r {
                Some(outcome) => self.stage() == Stage::Finished(outcome@),
                None => !(self.stage() is Finished),
            },
    {
        match &self.state {
            FileState::Finished(outcome) => Some(outcome),
            _ => None,
        }
    }

    /// What is to be done for the task to go on; `None` once the file has
    /// come to its end.
    pub fn action(&self) -> (r: Option<FileAction>)
        ensures
            match r {
                Some(action) => todo_of(self.file(), self.stage()) == Some(action@),
                None => todo_of(self.file(), self.stage()).is_none(),
            },
    {
        match &self.state {
            FileState::AwaitingMetadata => Some(
                FileAction::ReadMetadata { file: self.file.clone() },
            ),
            FileState::EnsuringDirectories { directory, remaining } => {
                let child = if remaining.len() == 0 {
                    String::new()
                } else {
                    remaining[0].clone()
                };
                Some(FileAction::EnsureDirectory { parent: directory.clone(), child })
            },
            FileState::ResolvingPlacement { desired } => Some(
                FileAction::ResolvePlacement { desired: desired.clone() },
            ),
            FileState::Copying { destination } => Some(
                FileAction::CopyFile { from: self.file.clone(), to: destination.clone() },
            ),
            FileState::CopyingUnsorted { destination } => Some(
                FileAction::CopyUnsorted { from: self.file.clone(), to: destination.clone() },
            ),
            FileState::Finished(_) => None,
        }
    }

    /// Takes what the task is told, decides what it waits for next, and
    /// counts what there is to count.
    pub fn step(
        self,
        event: FileEvent,
        configuration: &GlobalConfiguration,
        reporting: &mut Reporting,
    ) -> (task: FileTask)
        ensures
            task.file() == self.file(),
            task.stage() == next_stage(self.file(), self.stage(), event, configuration@),
            final(reporting)@ == report_after_event(
                old(reporting)@,
                self.file(),
                self.stage(),
                event,
                configuration@,
            ),
    {
        let file = self.file;
        let next = match self.state {
            FileState::AwaitingMetadata => match event {
                FileEvent::MetadataRead(data) => {
                    reporting.record_classification(
                        data.year_month.get().as_str(),
                        data.place.get().as_str(),
                        data.device.get().as_str(),
                    );
                    let key = ClassificationKey::new(&data, *configuration.use_device());
                    let remaining = key.segments();
                    FileState::EnsuringDirectories {
                        directory: configuration.sorted_images_directory_as_path().to_owned(),
                        remaining,
                    }
                },
                FileEvent::MetadataFailed(ExifError::IO(reason)) => {
                    let mut text = IO_ERROR_PREFIX.to_owned();
                    text.append(reason.as_str());
                    FileState::Finished(Outcome::Errored(text))
                },
                FileEvent::MetadataFailed(ExifError::NotImageFile(_)) => FileState::Finished(
                    Outcome::Skipped,
                ),
                FileEvent::MetadataFailed(_) => {
                    let way = relative_path(
                        configuration.source_directory_as_path(),
                        file.as_str(),
                    );
                    FileState::CopyingUnsorted {
                        destination: join(
                            configuration.unsorted_images_directory_as_path(),
                            way.as_str(),
                        ),
                    }
                },
                event => end_by(event),
            },
            FileState::EnsuringDirectories { directory, remaining } => match event {
                FileEvent::DirectoryEnsured => {
                    let mut remaining = remaining;
                    if remaining.len() <= 1 {
                        let reached = if remaining.len() == 0 {
                            directory
                        } else {
                            join(directory.as_str(), remaining[0].as_str())
                        };
                        match file_name(file.as_str()) {
                            Some(name) => FileState::ResolvingPlacement {
                                desired: join(reached.as_str(), name.as_str()),
                            },
                            None => FileState::Finished(Outcome::Errored(NO_FILE_NAME.to_owned())),
                        }
                    } else {
                        let ghost before = views_of(remaining@);
                        let child = remaining.remove(0);
                        assert(views_of(remaining@) =~= before.drop_first());
                        FileState::EnsuringDirectories {
                            directory: join(directory.as_str(), child.as_str()),
                            remaining,
                        }
                    }
                },
                event => end_by(event),
            },
            FileState::ResolvingPlacement { desired } => match event {
                FileEvent::PlacementResolved(path) => FileState::Copying { destination: path },
                event => end_by(event),
            },
            FileState::Copying { destination } => match event {
                FileEvent::Copied => FileState::Finished(Outcome::Sorted),
                event => end_by(event),
            },
            FileState::CopyingUnsorted { destination } => match event {
                FileEvent::Copied => FileState::Finished(Outcome::Unsorted),
                event => end_by(event),
            },
            FileState::Finished(outcome) => {
                return FileTask { file, state: FileState::Finished(outcome) };
            },
        };
        match &next {
            FileState::Finished(outcome) => {
                reporting.record_outcome(file.as_str(), outcome);
            },
            _ => {},
        }
        FileTask { file, state: next }
    }
}

/// What holds of every stage that a task can reach: while directories are
/// made sure of, one at least and three at most are left.
pub open spec fn stage_inv(stage: Stage) -> bool {
    stage matches Stage::EnsuringDirectories { remaining, .. } ==> 1 <= remaining.len() <= 3
}

/// How much a task may still ask for.
pub struct Budget {
    /// Readings of metadata.
    pub reads: nat,
    /// Directories to make sure of.
    pub directories: nat,
    /// Searches for a free name.
    pub placements: nat,
    /// Copies of the file.
    pub copies: nat,
    /// Steps until the end.
    pub steps: nat,
}

/// What a task in the given stage may still ask for, at most.
pub open spec fn budget_of(stage: Stage) -> Budget {
    match stage {
        Stage::AwaitingMetadata => Budget {
            reads: 1,
            directories: 3,
            placements: 1,
            copies: 1,
            steps: 6,
        },
        Stage::EnsuringDirectories { remaining, .. } => Budget {
            reads: 0,
            directories: remaining.len(),
            placements: 1,
            copies: 1,
            steps: remaining.len() + 2,
        },
        Stage::ResolvingPlacement { .. } => Budget {
            reads: 0,
            directories: 0,
            placements: 1,
            copies: 1,
            steps: 2,
        },
        Stage::Copying { .. } => Budget {
            reads: 0,
            directories: 0,
            placements: 0,
            copies: 1,
            steps: 1,
        },
        Stage::CopyingUnsorted { .. } => Budget {
            reads: 0,
            directories: 0,
            placements: 0,
            copies: 1,
            steps: 1,
        },
        Stage::Finished(_) => Budget {
            reads: 0,
            directories: 0,
            placements: 0,
            copies: 0,
            steps: 0,
        },
    }
}

/// What the request of a stage takes from the budget.
pub open spec fn cost_of(todo: Option<Todo>) -> Budget {
    match todo {
        Some(Todo::ReadMetadata { .. }) => Budget {
            reads: 1,
            directories: 0,
            placements: 0,
            copies: 0,
            steps: 1,
        },
        Some(Todo::EnsureDirectory { .. }) => Budget {
            reads: 0,
            directories: 1,
            placements: 0,
            copies: 0,
            steps: 1,
        },
        Some(Todo::ResolvePlacement { .. }) => Budget {
            reads: 0,
            directories: 0,
            placements: 1,
            copies: 0,
            steps: 1,
        },
        Some(Todo::CopyFile { .. }) => Budget {
            reads: 0,
            directories: 0,
            placements: 0,
            copies: 1,
            steps: 1,
        },
        Some(Todo::CopyUnsorted { .. }) => Budget {
            reads: 0,
            directories: 0,
            placements: 0,
            copies: 1,
            steps: 1,
        },
        None => Budget { reads: 0, directories: 0, placements: 0, copies: 0, steps: 0 },
    }
}

/// Every step uses up what it asks for. A task that starts by waiting for
/// the metadata therefore reads them once at most, makes sure of three
/// directories at most, searches one free name at most, copies once at
/// most, and comes to its end after six steps at most.
pub proof fn lemma_step_within_budget(
    file: Seq<char>,
    stage: Stage,
    event: FileEvent,
    settings: Settings,
)
    requires
        stage_inv(stage),
    ensures
        ({
            let next = next_stage(file, stage, event, settings);
            let cost = cost_of(todo_of(file, stage));
            let before = budget_of(stage);
            let after = budget_of(next);
            &&& stage_inv(next)
            &&& after.reads + cost.reads <= before.reads
            &&& after.directories + cost.directories <= before.directories
            &&& after.placements + cost.placements <= before.placements
            &&& after.copies + cost.copies <= before.copies
            &&& after.steps + cost.steps <= before.steps
        }),
{
}

/// A step that fails ends the task as an error, with the reason given.
pub proof fn lemma_failure_ends_task(
    file: Seq<char>,
    stage: Stage,
    reason: String,
    settings: Settings,
)
    requires
        !(stage is Finished),
    ensures
        next_stage(file, stage, FileEvent::Failed(reason), settings) == Stage::Finished(
            End::Errored(reason@),
        ),
{
}

/// The end of a file is counted once, when its task reaches it: the tally
/// of that end goes up by one, starting over at zero after the largest
/// `u32`. A task that goes on counts no end; a task at its end counts
/// nothing more and stays where it is.
pub proof fn lemma_end_counted_once(
    report: Report,
    file: Seq<char>,
    stage: Stage,
    event: FileEvent,
    settings: Settings,
)
    ensures
        ({
            let next = next_stage(file, stage, event, settings);
            let after = report_after_event(report, file, stage, event, settings);
            let reached = !(stage is Finished) && next is Finished;
            &&& stage is Finished ==> next == stage && after == report
            &&& after.sorted == if reached && next == Stage::Finished(End::Sorted) {
                next_count(report.sorted)
            } else {
                report.sorted
            }
            &&& after.unsorted == if reached && next == Stage::Finished(End::Unsorted) {
                next_count(report.unsorted)
            } else {
                report.unsorted
            }
            &&& after.errors == if reached && (next matches Stage::Finished(End::Errored(_))) {
                next_count(report.errors)
            } else {
                report.errors
            }
            &&& after.error_details.len() == report.error_details.len() + if reached && (
            next matches Stage::Finished(End::Errored(_))) {
                1nat
            } else {
                0nat
            }
            &&& after.duplicates == report.duplicates
            &&& after.directories == report.directories
        }),
{
}

/// Wherever the file lies, and whatever the settings, the copy of an image
/// that cannot be classified goes below the directory for unclassified
/// images: the path of the copy starts with that directory, followed by a
/// separator unless the directory is empty or ends in one, and by the way to
/// the file, which is never rooted.
pub proof fn lemma_unsorted_copy_lies_below(settings: Settings, file: Seq<char>)
    ensures
        settings.unsorted_images_directory.is_prefix_of(unsorted_destination(settings, file)),
        lies_below(settings.unsorted_images_directory, unsorted_destination(settings, file)),
        unsorted_destination(settings, file) == settings.unsorted_images_directory + (if
            settings.unsorted_images_directory.len() == 0
            || settings.unsorted_images_directory.last() == '/' {
            Seq::<char>::empty()
        } else {
            seq!['/']
        }) + relative_to(settings.source_directory, file),
{
    let way = relative_to(settings.source_directory, file);
    lemma_relative_is_not_rooted(settings.source_directory, file);
    lemma_joined_lies_below(settings.unsorted_images_directory, way);
    assert(settings.unsorted_images_directory + Seq::<char>::empty() + way
        =~= settings.unsorted_images_directory + way);
}

/// An image without metadata, or with coordinates that cannot be decoded,
/// whose copy succeeds, ends as unsorted and is counted once: the tally of
/// unsorted images and that of all images go up by one, starting over at
/// zero after the largest `u32`; nothing else changes.
pub proof fn lemma_unsorted_image_counted_once(
    report: Report,
    file: Seq<char>,
    error: ExifError,
    settings: Settings,
)
    requires
        error is NoExifData || error is Decoding,
    ensures
        ({
            let first = FileEvent::MetadataFailed(error);
            let waiting = next_stage(file, Stage::AwaitingMetadata, first, settings);
            let noted = report_after_event(report, file, Stage::AwaitingMetadata, first, settings);
            let end = next_stage(file, waiting, FileEvent::Copied, settings);
            let counted = report_after_event(noted, file, waiting, FileEvent::Copied, settings);
            &&& waiting == Stage::CopyingUnsorted {
                destination: unsorted_destination(settings, file),
            }
            &&& noted == report
            &&& end == Stage::Finished(End::Unsorted)
            &&& counted == (Report {
                unsorted: next_count(report.unsorted),
                images: next_count(report.images),
                ..report
            })
            &&& report.unsorted < u32::MAX ==> counted.unsorted == report.unsorted + 1
        }),
{
}

/// The stage that a series of events leads to, the first event taken first.
pub open spec fn stage_after(
    file: Seq<char>,
    stage: Stage,
    events: Seq<FileEvent>,
    settings: Settings,
) -> Stage
    decreases events.len(),
{
    if events.len() == 0 {
        stage
    } else {
        stage_after(
            file,
            next_stage(file, stage, events[0], settings),
            events.drop_first(),
            settings,
        )
    }
}

/// An image whose metadata were read, and whose directories all came to
/// exist, is to get its own file name in the directory of its
/// classification below the root of the sorted tree.
pub proof fn lemma_sorted_image_goes_to_its_classification(
    file: Seq<char>,
    data: ExifData,
    settings: Settings,
)
    ensures
        ({
            let segments = segments_of(data, settings.use_device);
            let ensured = Seq::new(segments.len(), |i: int| FileEvent::DirectoryEnsured);
            stage_after(
                file,
                Stage::AwaitingMetadata,
                seq![FileEvent::MetadataRead(data)] + ensured,
                settings,
            ) == after_directories(
                file,
                destination_directory(settings.sorted_images_directory, segments),
            )
        }),
{
    let segments = segments_of(data, settings.use_device);
    let ensured = Seq::new(segments.len(), |i: int| FileEvent::DirectoryEnsured);
    let events = seq![FileEvent::MetadataRead(data)] + ensured;
    let root = settings.sorted_images_directory;
    reveal_with_fuel(stage_after, 6);
    reveal_with_fuel(destination_directory, 5);
    let e1 = events.drop_first();
    let e2 = e1.drop_first();
    let e3 = e2.drop_first();
    let s1 = segments.drop_first();
    let s2 = s1.drop_first();
    let p1 = segments.drop_last();
    let p2 = p1.drop_last();
    assert(e1 =~= ensured);
    assert(e1[0] is DirectoryEnsured);
    assert(e2[0] is DirectoryEnsured);
    assert(s1[0] == segments[1]);
    assert(p1[0] == segments[0]);
    if settings.use_device {
        let e4 = e3.drop_first();
        assert(e3[0] is DirectoryEnsured);
        assert(e4.len() == 0);
        assert(s2[0] == segments[2]);
        assert(p1.last() == segments[1]);
        assert(p2.last() == segments[0]);
        assert(p2.drop_last().len() == 0);
    } else {
        assert(e3.len() == 0);
        assert(p1.last() == segments[0]);
        assert(p1.drop_last().len() == 0);
    }
}

} // verus!
