//! Files that are received: kept apart until they are complete, then published without replacing
//! anything, all of them or none.
use vstd::prelude::*;
use crate::destination::DestinationError;
use crate::file_name::{trim_tail, without_tail};
use crate::ident::{hyphenated, law_id_text_is_plain, TransferId};
use crate::io_kind::IoErrorKind;
use crate::manifest::ManifestError;
use crate::path::{lemma_single_part, portable, sanitize_relative_path, sanitized};
use crate::resume::texts;
use crate::scan::{begins_with, starts_with};
use crate::settings::{below, join_path};
use crate::source_scan::EntryKind;
use crate::source_walk::{
    by_name, directory_models, listed_models, DirectoryModel, Listed, ListedModel, ScanQuestion,
    WalkDirectory,
};
use crate::text::{chars_of, same_text};

verus! {

#[derive(Debug, Clone, Copy, PartialEq, Eq, Structural)]
pub enum ReceiveStagingError {
    Destination(DestinationError),
    DestinationChanged,
    EmptyOutput,
    InvalidOutputPath,
    SymlinkOutput,
    Conflict,
    Io(IoErrorKind),
    Rollback(IoErrorKind),
}

impl ReceiveStagingError {
    pub fn message(self) -> (text: &'static str)
        ensures
            text@ == match self {
                ReceiveStagingError::Destination(_) => "receive destination is invalid"@,
                ReceiveStagingError::DestinationChanged =>
                    "receive destination changed during transfer"@,
                ReceiveStagingError::EmptyOutput => "receive output is empty"@,
                ReceiveStagingError::InvalidOutputPath => "receive output path is invalid"@,
                ReceiveStagingError::SymlinkOutput => "receive output contains a symbolic link"@,
                ReceiveStagingError::Conflict =>
                    "receive output conflicts with an existing destination entry"@,
                ReceiveStagingError::Io(_) => "receive staging I/O failed"@,
                ReceiveStagingError::Rollback(_) => "receive staging rollback failed"@,
            },
    {
        match self {
            Self::Destination(_) => "receive destination is invalid",
            Self::DestinationChanged => "receive destination changed during transfer",
            Self::EmptyOutput => "receive output is empty",
            Self::InvalidOutputPath => "receive output path is invalid",
            Self::SymlinkOutput => "receive output contains a symbolic link",
            Self::Conflict => "receive output conflicts with an existing destination entry",
            Self::Io(_) => "receive staging I/O failed",
            Self::Rollback(_) => "receive staging rollback failed",
        }
    }
}

#[derive(Debug, Clone, Copy, PartialEq, Eq, Structural)]
pub struct ReceiveFinalizeReport {
    cleanup_failed: bool,
}

impl ReceiveFinalizeReport {
    pub closed spec fn leftover(self) -> bool {
        self.cleanup_failed
    }

    /// A report on whether the staging directory could not be removed.
    pub closed spec fn of(cleanup_failed: bool) -> ReceiveFinalizeReport {
        ReceiveFinalizeReport { cleanup_failed }
    }

    pub fn cleanup_failed(self) -> (failed: bool)
        ensures
            failed == self.leftover(),
            self == Self::of(failed),
    {
        self.cleanup_failed
    }
}

/// The name of a staging directory.
pub open spec fn staging_name_of(id: TransferId) -> Seq<char> {
    ".drift-staging-"@ + hyphenated(id.bits())
}

pub fn staging_name(id: TransferId) -> (name: String)
    ensures
        name@ == staging_name_of(id),
{
    let mut name = ".drift-staging-".to_owned();
    name.append(id.to_text().as_str());
    name
}

pub open spec fn staging_named(name: Seq<char>) -> bool {
    begins_with(name, ".drift-staging-"@)
}

pub fn is_receive_staging_name(name: &str) -> (is: bool)
    ensures
        is == staging_named(name@),
{
    let chars = chars_of(name);
    let prefix = chars_of(".drift-staging-");
    starts_with(&chars, &prefix)
}

/// A staging directory named by itself, without a directory above it.
pub open spec fn staging_path(path: Seq<char>) -> bool {
    let name = without_tail(path);
    !name.contains('/') && staging_named(name)
}

pub fn is_receive_staging_path(path: &str) -> (is: bool)
    ensures
        is == staging_path(path@),
{
    let chars = chars_of(path);
    let name = trim_tail(&chars);
    let mut i: usize = 0;
    while i < name.len()
        invariant
            i <= name@.len(),
            name@ == without_tail(path@),
            forall|k: int| 0 <= k < i ==> name@[k] != '/',
        decreases name@.len() - i,
    {
        if name[i] == '/' {
            assert(name@.contains('/'));
            return false;
        }
        i = i + 1;
    }
    let prefix = chars_of(".drift-staging-");
    starts_with(name, &prefix)
}

/// A place to receive to before anything is published.
#[derive(Clone)]
pub struct ReceiveStaging {
    destination: String,
    path: String,
    relative_path: String,
    existing_destination_entries: Vec<String>,
}

#[verifier::ext_equal]
pub struct StagingModel {
    pub destination: Seq<char>,
    pub path: Seq<char>,
    pub relative_path: Seq<char>,
    pub existing: Seq<Seq<char>>,
}

impl View for ReceiveStaging {
    type V = StagingModel;

    open spec fn view(&self) -> StagingModel {
        StagingModel {
            destination: self.destination_spec(),
            path: self.path_spec(),
            relative_path: self.relative_path_spec(),
            existing: self.existing_spec(),
        }
    }
}

impl ReceiveStaging {
    pub closed spec fn destination_spec(self) -> Seq<char> {
        self.destination@
    }

    pub closed spec fn path_spec(self) -> Seq<char> {
        self.path@
    }

    pub closed spec fn relative_path_spec(self) -> Seq<char> {
        self.relative_path@
    }

    /// What was in the destination when the staging directory was made.
    pub closed spec fn existing_spec(self) -> Seq<Seq<char>> {
        texts(self.existing_destination_entries@)
    }

    /// A staging directory in `destination`, named by `id`, beside the entries that are there.
    pub fn create(destination: &str, id: TransferId, existing: Vec<String>) -> (staging: Self)
        ensures
            staging.destination_spec() == destination@,
            staging.relative_path_spec() == staging_name_of(id),
            staging.path_spec() == below(destination@, staging_name_of(id)),
            staging.existing_spec() == texts(existing@),
    {
        let relative_path = staging_name(id);
        let path = join_path(destination, relative_path.as_str());
        Self {
            destination: destination.to_owned(),
            path,
            relative_path,
            existing_destination_entries: existing,
        }
    }

    pub fn destination(&self) -> (destination: &str)
        ensures
            destination@ == self.destination_spec(),
    {
        self.destination.as_str()
    }

    pub fn path(&self) -> (path: &str)
        ensures
            path@ == self.path_spec(),
    {
        self.path.as_str()
    }

    pub fn relative_path(&self) -> (path: &str)
        ensures
            path@ == self.relative_path_spec(),
    {
        self.relative_path.as_str()
    }

    pub fn description(&self) -> (text: &'static str)
        ensures
            text@ == "ReceiveStaging { destination_configured: true, staging_configured: true }"@,
    {
        "ReceiveStaging { destination_configured: true, staging_configured: true }"
    }

    /// An entry of the destination that was not there before and is no staging directory.
    pub open spec fn unexpected(self, entry: Seq<char>) -> bool {
        entry != self.relative_path_spec() && !staging_named(entry)
            && !self.existing_spec().contains(entry)
    }

    fn existed(&self, entry: &str) -> (existed: bool)
        ensures
            existed == self.existing_spec().contains(entry@),
    {
        let mut i: usize = 0;
        while i < self.existing_destination_entries.len()
            invariant
                i <= self.existing_destination_entries@.len(),
                forall|k: int| 0 <= k < i ==> self.existing_spec()[k] != entry@,
            decreases self.existing_destination_entries@.len() - i,
        {
            if same_text(self.existing_destination_entries[i].as_str(), entry) {
                assert(self.existing_spec()[i as int] == entry@);
                return true;
            }
            i = i + 1;
        }
        assert(!self.existing_spec().contains(entry@));
        false
    }

    /// Nothing may have been put into the destination past the staging directory.
    pub fn reject_unexpected_destination_entries(&self, current: &Vec<String>) -> (result: Result<
        (),
        ReceiveStagingError,
    >)
        ensures
            result == (if exists|i: int|
                0 <= i < current@.len() && self.unexpected(#[trigger] texts(current@)[i]) {
                Err::<(), ReceiveStagingError>(ReceiveStagingError::DestinationChanged)
            } else {
                Ok(())
            }),
    {
        let mut i: usize = 0;
        while i < current.len()
            invariant
                i <= current@.len(),
                forall|k: int| 0 <= k < i ==> !self.unexpected(#[trigger] texts(current@)[k]),
            decreases current@.len() - i,
        {
            let entry = current[i].as_str();
            assert(texts(current@)[i as int] == entry@);
            if !same_text(entry, self.relative_path.as_str()) && !is_receive_staging_name(entry)
                && !self.existed(entry) {
                assert(self.unexpected(texts(current@)[i as int]));
                return Err(ReceiveStagingError::DestinationChanged);
            }
            i = i + 1;
        }
        Ok(())
    }
}

/// The staging directory must still be a directory.
pub open spec fn staging_root_fault(found: Result<EntryKind, IoErrorKind>) -> Option<
    ReceiveStagingError,
> {
    match found {
        Err(kind) => Some(ReceiveStagingError::Io(kind)),
        Ok(kind) => if kind == EntryKind::Directory {
            None
        } else {
            Some(ReceiveStagingError::SymlinkOutput)
        },
    }
}

pub fn validate_staging_root(found: Result<EntryKind, IoErrorKind>) -> (result: Result<
    (),
    ReceiveStagingError,
>)
    ensures
        result == (match staging_root_fault(found) {
            Some(error) => Err(error),
            None => Ok::<(), ReceiveStagingError>(()),
        }),
{
    match found {
        Err(kind) => Err(ReceiveStagingError::Io(kind)),
        Ok(kind) => match kind {
            EntryKind::Directory => Ok(()),
            _ => Err(ReceiveStagingError::SymlinkOutput),
        },
    }
}

/// What to do about a staging directory that is no longer needed.
#[derive(Debug, Clone, Copy, PartialEq, Eq, Structural)]
pub enum CleanupStep {
    RemoveTree,
    Nothing,
}

pub open spec fn cleanup_step(found: Result<EntryKind, IoErrorKind>) -> Result<
    CleanupStep,
    ReceiveStagingError,
> {
    match found {
        Ok(kind) => if kind == EntryKind::Symlink {
            Err(ReceiveStagingError::SymlinkOutput)
        } else {
            Ok(CleanupStep::RemoveTree)
        },
        Err(kind) => if kind == IoErrorKind::NotFound {
            Ok(CleanupStep::Nothing)
        } else {
            Err(ReceiveStagingError::Io(kind))
        },
    }
}

impl ReceiveStaging {
    /// What is to be done about the staging directory, by what was found at its path.
    pub fn cleanup(&self, found: Result<EntryKind, IoErrorKind>) -> (result: Result<
        CleanupStep,
        ReceiveStagingError,
    >)
        ensures
            result == cleanup_step(found),
    {
        match found {
            Ok(kind) => match kind {
                EntryKind::Symlink => Err(ReceiveStagingError::SymlinkOutput),
                _ => Ok(CleanupStep::RemoveTree),
            },
            Err(kind) => match kind {
                IoErrorKind::NotFound => Ok(CleanupStep::Nothing),
                _ => Err(ReceiveStagingError::Io(kind)),
            },
        }
    }
}

/// What the file system said about received output.
pub enum TreeAnswer {
    Inspected(EntryKind),
    Entries(Vec<Listed>),
    Failed(IoErrorKind),
}

/// Where a check of received output stands: what is still to be looked at, and the directory that
/// is to be listed next, if one is.
#[verifier::ext_equal]
pub struct TreeModel {
    pub pending: Seq<DirectoryModel>,
    pub listing: Option<DirectoryModel>,
}

impl TreeModel {
    /// The next question. Nothing is asked about a path that is not safe.
    pub open spec fn question(self) -> Result<ScanQuestion, ReceiveStagingError> {
        match self.listing {
            Some(directory) => Ok(ScanQuestion::List { place: directory.place }),
            None => if self.pending.len() == 0 {
                Ok(ScanQuestion::Nothing)
            } else if sanitized(self.pending.last().relative_path) is Err {
                Err(ReceiveStagingError::InvalidOutputPath)
            } else {
                Ok(ScanQuestion::Inspect { place: self.pending.last().place })
            },
        }
    }

    pub open spec fn answered_by(self, answer: TreeAnswer) -> bool {
        match answer {
            TreeAnswer::Inspected(_) => self.listing is None && self.pending.len() > 0,
            TreeAnswer::Entries(_) => self.listing is Some,
            TreeAnswer::Failed(_) => true,
        }
    }

    /// Where the check stands after an answer, or what is wrong with the output.
    pub open spec fn after(self, answer: TreeAnswer) -> Result<TreeModel, ReceiveStagingError> {
        match answer {
            TreeAnswer::Failed(kind) => Err(ReceiveStagingError::Io(kind)),
            TreeAnswer::Inspected(kind) => match kind {
                EntryKind::Symlink => Err(ReceiveStagingError::SymlinkOutput),
                EntryKind::Other => Err(ReceiveStagingError::InvalidOutputPath),
                EntryKind::File { .. } => Ok(
                    TreeModel { pending: self.pending.drop_last(), ..self },
                ),
                EntryKind::Directory => Ok(
                    TreeModel {
                        pending: self.pending.drop_last(),
                        listing: Some(self.pending.last()),
                    },
                ),
            },
            TreeAnswer::Entries(entries) => Ok(
                TreeModel {
                    pending: self.pending + placed_below(
                        self.listing->Some_0.relative_path,
                        by_name(listed_models(entries@)),
                    ),
                    listing: None,
                },
            ),
        }
    }
}

/// The entries of a directory with the paths they have.
pub open spec fn placed_below(directory: Seq<char>, entries: Seq<ListedModel>) -> Seq<
    DirectoryModel,
> {
    entries.map_values(
        |entry: ListedModel|
            DirectoryModel {
                place: entry.place,
                relative_path: below(directory, entry.name),
            },
    )
}

/// Checks received output: plain files and directories under safe paths, and nothing else.
pub struct StagedTree {
    pending: Vec<WalkDirectory>,
    listing: Option<WalkDirectory>,
}

impl View for StagedTree {
    type V = TreeModel;

    closed spec fn view(&self) -> TreeModel {
        TreeModel {
            pending: directory_models(self.pending@),
            listing: match self.listing {
                Some(directory) => Some(directory@),
                None => None,
            },
        }
    }
}

impl StagedTree {
    /// Starts with one entry of the staging directory.
    pub fn new(place: usize, name: &str) -> (tree: Self)
        ensures
            tree@ == (TreeModel {
                pending: seq![DirectoryModel { place, relative_path: name@ }],
                listing: None,
            }),
    {
        let mut pending: Vec<WalkDirectory> = Vec::new();
        let entry = WalkDirectory { place, relative_path: name.to_owned() };
        pending.push(entry);
        assert(directory_models(pending@) =~= seq![entry@]);
        Self { pending, listing: None }
    }

    pub fn question(&self) -> (result: Result<ScanQuestion, ReceiveStagingError>)
        ensures
            result == self@.question(),
    {
        match &self.listing {
            Some(directory) => Ok(ScanQuestion::List { place: directory.place }),
            None => {
                if self.pending.len() == 0 {
                    return Ok(ScanQuestion::Nothing);
                }
                let last = &self.pending[self.pending.len() - 1];
                assert(self@.pending.last() == last@);
                if sanitize_relative_path(last.relative_path.as_str()).is_err() {
                    return Err(ReceiveStagingError::InvalidOutputPath);
                }
                Ok(ScanQuestion::Inspect { place: last.place })
            },
        }
    }

    pub fn answer(self, answer: TreeAnswer) -> (result: Result<Self, ReceiveStagingError>)
        requires
            self@.answered_by(answer),
        ensures
            match self@.after(answer) {
                Ok(next) => result matches Ok(tree) && tree@ == next,
                Err(error) => result == Err::<StagedTree, ReceiveStagingError>(error),
            },
    {
        let mut pending = self.pending;
        let ghost before = pending@;
        match answer {
            TreeAnswer::Failed(kind) => Err(ReceiveStagingError::Io(kind)),
            TreeAnswer::Inspected(kind) => match kind {
                EntryKind::Symlink => Err(ReceiveStagingError::SymlinkOutput),
                EntryKind::Other => Err(ReceiveStagingError::InvalidOutputPath),
                EntryKind::File { .. } => {
                    let _ = pending.pop();
                    assert(directory_models(pending@) =~= directory_models(before).drop_last());
                    Ok(Self { pending, listing: None })
                },
                EntryKind::Directory => {
                    let listing = pending.pop();
                    assert(directory_models(pending@) =~= directory_models(before).drop_last());
                    assert(listing->Some_0@ == directory_models(before).last());
                    Ok(Self { pending, listing })
                },
            },
            TreeAnswer::Entries(entries) => {
                let sorted = crate::source_walk::sort_by_name(&entries);
                let ghost ordered = by_name(listed_models(entries@));
                if let Some(directory) = self.listing {
                    let ghost placed = placed_below(directory.relative_path@, ordered);
                    let mut i: usize = 0;
                    assert(directory_models(before) + placed.take(0) =~= directory_models(before));
                    while i < sorted.len()
                        invariant
                            i <= sorted@.len(),
                            listed_models(sorted@) == ordered,
                            placed == placed_below(directory.relative_path@, ordered),
                            directory_models(pending@) == directory_models(before) + placed.take(
                                i as int,
                            ),
                        decreases sorted@.len() - i,
                    {
                        let ghost sofar = pending@;
                        let entry = WalkDirectory {
                            place: sorted[i].place,
                            relative_path: join_path(
                                directory.relative_path.as_str(),
                                sorted[i].name.as_str(),
                            ),
                        };
                        pending.push(entry);
                        assert(ordered[i as int] == sorted@[i as int]@);
                        assert(entry@ == placed[i as int]);
                        assert(directory_models(pending@) =~= directory_models(sofar).push(entry@));
                        assert(directory_models(before) + placed.take(i as int + 1)
                            =~= directory_models(sofar).push(placed[i as int]));
                        i = i + 1;
                    }
                    assert(placed.take(i as int) =~= placed);
                }
                Ok(Self { pending, listing: None })
            },
        }
    }
}

/// What is done next to publish received entries.
#[derive(Debug, Clone, Copy, PartialEq, Eq)]
pub enum PublishStep {
    Publish { entry: usize },
    TakeBack { entry: usize },
    RemoveStaging,
    Finished(Result<ReceiveFinalizeReport, ReceiveStagingError>),
}

/// Publishing entries one after the other, and taking them back where one cannot be.
#[derive(Debug, Clone, Copy, PartialEq, Eq)]
pub struct Publication {
    /// How many entries there are.
    pub count: usize,
    /// How many of them, from the first on, are at their final place.
    pub visible: usize,
    pub stage: PublishStage,
}

#[derive(Debug, Clone, Copy, PartialEq, Eq)]
pub enum PublishStage {
    Publishing,
    TakingBack { cause: ReceiveStagingError },
    Removing,
    Finished { outcome: Result<ReceiveFinalizeReport, ReceiveStagingError> },
}

impl Publication {
    pub open spec fn well_formed(self) -> bool {
        &&& self.visible <= self.count
        &&& self.stage == PublishStage::Publishing ==> self.visible < self.count
        &&& self.stage is TakingBack ==> 0 < self.visible < self.count && !(
        self.stage->cause is Rollback)
        &&& self.stage == PublishStage::Removing ==> self.visible == self.count
        &&& self.stage matches PublishStage::Finished { outcome } ==> match outcome {
            Ok(_) => self.visible == self.count,
            Err(error) => if error is Rollback {
                0 < self.visible < self.count
            } else {
                self.visible == 0
            },
        }
    }

    /// Starts with the entries of the staging directory; there must be some.
    pub fn new(count: usize) -> (result: Result<Self, ReceiveStagingError>)
        ensures
            if count == 0 {
                result == Err::<Publication, ReceiveStagingError>(ReceiveStagingError::EmptyOutput)
            } else {
                result == Ok::<Publication, ReceiveStagingError>(
                    Publication { count, visible: 0, stage: PublishStage::Publishing },
                ) && result->Ok_0.well_formed()
            },
    {
        if count == 0 {
            return Err(ReceiveStagingError::EmptyOutput);
        }
        Ok(Self { count, visible: 0, stage: PublishStage::Publishing })
    }

    pub open spec fn step_spec(self) -> PublishStep {
        match self.stage {
            PublishStage::Publishing => PublishStep::Publish { entry: self.visible },
            PublishStage::TakingBack { .. } => PublishStep::TakeBack {
                entry: (self.visible - 1) as usize,
            },
            PublishStage::Removing => PublishStep::RemoveStaging,
            PublishStage::Finished { outcome } => PublishStep::Finished(outcome),
        }
    }

    /// What to do next.
    pub fn step(&self) -> (step: PublishStep)
        requires
            self.well_formed(),
        ensures
            step == self.step_spec(),
    {
        match self.stage {
            PublishStage::Publishing => PublishStep::Publish { entry: self.visible },
            PublishStage::TakingBack { .. } => PublishStep::TakeBack { entry: self.visible - 1 },
            PublishStage::Removing => PublishStep::RemoveStaging,
            PublishStage::Finished { outcome } => PublishStep::Finished(outcome),
        }
    }

    /// Where publishing stands after a step was done, or could not be.
    pub open spec fn after(self, done: Result<(), IoErrorKind>) -> Publication {
        match self.stage {
            PublishStage::Publishing => match done {
                Ok(_) => Publication {
                    visible: (self.visible + 1) as usize,
                    stage: if self.visible + 1 == self.count {
                        PublishStage::Removing
                    } else {
                        PublishStage::Publishing
                    },
                    ..self
                },
                Err(kind) => {
                    let cause = if kind == IoErrorKind::AlreadyExists {
                        ReceiveStagingError::Conflict
                    } else {
                        ReceiveStagingError::Io(kind)
                    };
                    Publication {
                        stage: if self.visible == 0 {
                            PublishStage::Finished { outcome: Err(cause) }
                        } else {
                            PublishStage::TakingBack { cause }
                        },
                        ..self
                    }
                },
            },
            PublishStage::TakingBack { cause } => match done {
                Ok(_) => Publication {
                    visible: (self.visible - 1) as usize,
                    stage: if self.visible == 1 {
                        PublishStage::Finished { outcome: Err(cause) }
                    } else {
                        self.stage
                    },
                    ..self
                },
                Err(kind) => Publication {
                    stage: PublishStage::Finished {
                        outcome: Err(ReceiveStagingError::Rollback(kind)),
                    },
                    ..self
                },
            },
            PublishStage::Removing => Publication {
                stage: PublishStage::Finished {
                    outcome: Ok(ReceiveFinalizeReport::of(done is Err)),
                },
                ..self
            },
            PublishStage::Finished { .. } => self,
        }
    }

    pub fn done(self, done: Result<(), IoErrorKind>) -> (next: Self)
        requires
            self.well_formed(),
        ensures
            next == self.after(done),
            next.well_formed(),
    {
        match self.stage {
            PublishStage::Publishing => match done {
                Ok(()) => {
                    let visible: usize = self.visible + 1;
                    let stage = if visible == self.count {
                        PublishStage::Removing
                    } else {
                        PublishStage::Publishing
                    };
                    Self { count: self.count, visible, stage }
                },
                Err(kind) => {
                    let cause = match kind {
                        IoErrorKind::AlreadyExists => ReceiveStagingError::Conflict,
                        _ => ReceiveStagingError::Io(kind),
                    };
                    let stage = if self.visible == 0 {
                        PublishStage::Finished { outcome: Err(cause) }
                    } else {
                        PublishStage::TakingBack { cause }
                    };
                    Self { count: self.count, visible: self.visible, stage }
                },
            },
            PublishStage::TakingBack { cause } => match done {
                Ok(()) => {
                    let visible: usize = self.visible - 1;
                    let stage = if visible == 0 {
                        PublishStage::Finished { outcome: Err(cause) }
                    } else {
                        self.stage
                    };
                    Self { count: self.count, visible, stage }
                },
                Err(kind) => Self {
                    count: self.count,
                    visible: self.visible,
                    stage: PublishStage::Finished {
                        outcome: Err(ReceiveStagingError::Rollback(kind)),
                    },
                },
            },
            PublishStage::Removing => Self {
                count: self.count,
                visible: self.visible,
                stage: PublishStage::Finished {
                    outcome: Ok(ReceiveFinalizeReport { cleanup_failed: done.is_err() }),
                },
            },
            PublishStage::Finished { .. } => self,
        }
    }
}

/// All or nothing: a publication that succeeded shows every entry, and one that failed shows none,
/// unless taking one back failed too, and then it says so.
pub proof fn law_publication_is_all_or_nothing(
    publication: Publication,
    outcome: Result<ReceiveFinalizeReport, ReceiveStagingError>,
)
    requires
        publication.well_formed(),
        publication.step_spec() == PublishStep::Finished(outcome),
    ensures
        outcome is Ok ==> publication.visible == publication.count,
        outcome matches Err(error) ==> publication.visible == 0 || error is Rollback,
{
}

/// Every step brings a publication nearer to its end.
pub proof fn law_publication_ends(publication: Publication, done: Result<(), IoErrorKind>)
    requires
        publication.well_formed(),
        !(publication.stage is Finished),
    ensures
        publication_rank(publication.after(done)) < publication_rank(publication),
{
}

pub open spec fn publication_rank(publication: Publication) -> int {
    match publication.stage {
        PublishStage::Publishing => 2 * publication.count - publication.visible + 2,
        PublishStage::TakingBack { .. } => publication.visible + 1,
        PublishStage::Removing => 1,
        PublishStage::Finished { .. } => 0,
    }
}

/// The name of a staging directory is a safe relative path, and names a directory by itself.
pub proof fn law_staging_name_is_safe(id: TransferId)
    ensures
        sanitized(staging_name_of(id)) == Ok::<Seq<char>, ManifestError>(staging_name_of(id)),
        staging_path(staging_name_of(id)),
{
    let name = staging_name_of(id);
    reveal_strlit(".drift-staging-");
    let prefix = ".drift-staging-"@;
    law_id_text_is_plain(id.bits());
    assert forall|i: int| 0 <= i < name.len() implies name[i] != '/' && name[i] != '\\' && name[i]
        != '\0' by {
        if i < prefix.len() {
            assert(name[i] == prefix[i]);
        } else {
            assert(name[i] == hyphenated(id.bits())[i - prefix.len()]);
        }
    }
    assert(portable(name) =~= name);
    lemma_single_part(name);
    assert(name[1] == 'd');
    assert(name != seq!['.']);
    assert(name.len() > 2);
    assert(without_tail(name) == name);
    law_staging_name_is_recognised(id);
}

/// A staging directory is known as one by its name.
pub proof fn law_staging_name_is_recognised(id: TransferId)
    ensures
        staging_named(staging_name_of(id)),
{
    let prefix = ".drift-staging-"@;
    assert(staging_name_of(id).take(prefix.len() as int) =~= prefix);
}

} // verus!
