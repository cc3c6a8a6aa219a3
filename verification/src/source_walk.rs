//! The walk through selected paths, question by question.
use vstd::prelude::*;
use crate::ident::{marked_random, TransferId};
use crate::io_kind::IoErrorKind;
use crate::manifest::{
    file_models, size_sum, FileEntry, FileModel, ManifestModel, TransferManifest,
};
use crate::path::{sanitize_relative_path, sanitized};
use crate::path_order::{any_conflict, some_conflict, sorted_positions, the_order, views};
use crate::settings::{below, join_path};
use crate::source_scan::{
    check_cancelled, ensure_readable_file, map_manifest_error, map_source_io_error, readable,
    scanned_models, source_error_of, EntryKind, ScannedFile, ScannedModel, SelectedPath,
    SourceRoot, SourceScan, SourceScanError, MAX_SCAN_DIRECTORY_ENTRIES,
};
use crate::text::{chars_of, same_text};

verus! {

/// An entry of a directory: the caller's number for its place, and its name.
pub struct Listed {
    pub place: usize,
    pub name: String,
}

#[verifier::ext_equal]
pub struct ListedModel {
    pub place: usize,
    pub name: Seq<char>,
}

impl View for Listed {
    type V = ListedModel;

    open spec fn view(&self) -> ListedModel {
        ListedModel { place: self.place, name: self.name@ }
    }
}

pub open spec fn listed_models(entries: Seq<Listed>) -> Seq<ListedModel> {
    entries.map_values(|entry: Listed| entry@)
}

/// A directory: the caller's number for its place, and where it goes.
pub struct WalkDirectory {
    pub place: usize,
    pub relative_path: String,
}

#[verifier::ext_equal]
pub struct DirectoryModel {
    pub place: usize,
    pub relative_path: Seq<char>,
}

impl View for WalkDirectory {
    type V = DirectoryModel;

    open spec fn view(&self) -> DirectoryModel {
        DirectoryModel { place: self.place, relative_path: self.relative_path@ }
    }
}

pub open spec fn directory_models(directories: Seq<WalkDirectory>) -> Seq<DirectoryModel> {
    directories.map_values(|directory: WalkDirectory| directory@)
}

/// What the file system is to be asked next.
#[derive(Debug, Clone, Copy, PartialEq, Eq, Structural)]
pub enum ScanQuestion {
    Inspect { place: usize },
    List { place: usize },
    Nothing,
}

/// What the file system said. `cancelled` tells that a listing was cut short by the user.
pub enum ScanAnswer {
    Inspected(EntryKind),
    Entries { entries: Vec<Listed>, cancelled: bool },
    Failed(IoErrorKind),
}

#[derive(Debug, Clone, Copy, PartialEq, Eq, Structural)]
pub enum ScanStage {
    Root,
    Directory,
    Listing,
    Entry,
    Finished,
}

#[verifier::ext_equal]
pub struct RootModel {
    pub path: Seq<char>,
    pub file_count: nat,
    pub total_bytes: nat,
}

pub open spec fn root_models(roots: Seq<SourceRoot>) -> Seq<RootModel> {
    roots.map_values(
        |root: SourceRoot|
            RootModel {
                path: root.path_spec(),
                file_count: root.count_spec() as nat,
                total_bytes: root.total_spec() as nat,
            },
    )
}

#[verifier::ext_equal]
pub struct SelectedModel {
    pub path: Seq<char>,
    pub name: Option<Seq<char>>,
}

impl View for SelectedPath {
    type V = SelectedModel;

    open spec fn view(&self) -> SelectedModel {
        SelectedModel { path: self.path@, name: crate::text::optional_text(self.name) }
    }
}

pub open spec fn selected_models(paths: Seq<SelectedPath>) -> Seq<SelectedModel> {
    paths.map_values(|path: SelectedPath| path@)
}

/// Where a walk stands.
#[verifier::ext_equal]
pub struct WalkModel {
    pub sources: Seq<SelectedModel>,
    pub root: nat,
    pub names: Seq<Seq<char>>,
    pub files: Seq<ScannedModel>,
    pub roots: Seq<RootModel>,
    pub first_file: nat,
    pub pending: Seq<DirectoryModel>,
    pub directory: DirectoryModel,
    pub entries: Seq<ListedModel>,
    pub stage: ScanStage,
}

/// The sizes of the files together.
pub open spec fn bytes_in(files: Seq<ScannedModel>) -> nat
    decreases files.len(),
{
    if files.len() == 0 {
        0
    } else {
        bytes_in(files.drop_last()) + files.last().size as nat
    }
}

/// How many files the selected paths brought together.
pub open spec fn root_counts(roots: Seq<RootModel>) -> nat
    decreases roots.len(),
{
    if roots.len() == 0 {
        0
    } else {
        root_counts(roots.drop_last()) + roots.last().file_count
    }
}

/// How many bytes the selected paths brought together.
pub open spec fn root_bytes(roots: Seq<RootModel>) -> nat
    decreases roots.len(),
{
    if roots.len() == 0 {
        0
    } else {
        root_bytes(roots.drop_last()) + roots.last().total_bytes
    }
}

/// A directory's entries by name.
pub open spec fn by_name(entries: Seq<ListedModel>) -> Seq<ListedModel> {
    let order = the_order(entries.map_values(|entry: ListedModel| entry.name));
    Seq::new(entries.len(), |i: int| entries[order[i] as int])
}

/// There is one root for each selected path, in order, and none without a file.
pub open spec fn roots_of(sources: Seq<SelectedModel>, roots: Seq<RootModel>) -> bool {
    &&& roots.len() == sources.len()
    &&& forall|i: int|
        0 <= i < roots.len() ==> (#[trigger] roots[i]).path == sources[i].path
            && roots[i].file_count > 0
}

impl WalkModel {
    /// The walk through `sources`, before the first question.
    pub open spec fn start(sources: Seq<SelectedModel>) -> WalkModel {
        WalkModel {
            sources,
            root: 0,
            names: Seq::empty(),
            files: Seq::empty(),
            roots: Seq::empty(),
            first_file: 0,
            pending: Seq::empty(),
            directory: DirectoryModel { place: 0, relative_path: Seq::empty() },
            entries: Seq::empty(),
            stage: ScanStage::Root,
        }
    }

    /// There is something to ask about at every stage, and the selected paths that are done, one by
    /// one, account for the files before those of the current one.
    pub open spec fn well_formed(self) -> bool {
        &&& self.root <= self.sources.len() <= usize::MAX
        &&& self.first_file <= self.files.len()
        &&& self.stage == ScanStage::Root ==> self.root < self.sources.len() && self.first_file
            == self.files.len()
        &&& self.stage == ScanStage::Directory ==> self.pending.len() > 0
        &&& self.stage == ScanStage::Entry ==> self.entries.len() > 0
        &&& self.stage != ScanStage::Finished ==> self.root < self.sources.len()
        &&& self.stage == ScanStage::Finished ==> self.root == self.sources.len()
            && self.first_file == self.files.len()
        &&& roots_of(self.sources.take(self.root as int), self.roots)
        &&& root_counts(self.roots) == self.first_file
        &&& root_bytes(self.roots) == bytes_in(self.files.take(self.first_file as int))
        &&& forall|i: int|
            0 <= i < self.files.len() ==> sanitized((#[trigger] self.files[i]).relative_path)
                == Ok::<Seq<char>, crate::manifest::ManifestError>(self.files[i].relative_path)
    }

    /// Where an entry of the current directory goes.
    pub open spec fn entry_path(self, entry: ListedModel) -> Seq<char> {
        below(self.directory.relative_path, entry.name)
    }

    /// The next question. Whoever cancels is heard before every selected path, every directory and
    /// every entry.
    pub open spec fn question(self, cancelled: bool) -> Result<ScanQuestion, SourceScanError> {
        match self.stage {
            ScanStage::Root => if cancelled {
                Err(SourceScanError::Cancelled)
            } else {
                Ok(ScanQuestion::Inspect { place: self.root as usize })
            },
            ScanStage::Directory => if cancelled {
                Err(SourceScanError::Cancelled)
            } else {
                Ok(ScanQuestion::Inspect { place: self.pending.last().place })
            },
            ScanStage::Listing => Ok(ScanQuestion::List { place: self.directory.place }),
            ScanStage::Entry => if cancelled {
                Err(SourceScanError::Cancelled)
            } else if sanitized(self.entry_path(self.entries.last())) is Err {
                Err(SourceScanError::InvalidRelativePath)
            } else {
                Ok(ScanQuestion::Inspect { place: self.entries.last().place })
            },
            ScanStage::Finished => Ok(ScanQuestion::Nothing),
        }
    }

    /// The end of a selected path: it must have brought a file.
    pub open spec fn root_closed(self) -> Result<WalkModel, SourceScanError> {
        let found = self.files.skip(self.first_file as int);
        if found.len() == 0 {
            Err(SourceScanError::EmptyDirectory)
        } else if bytes_in(found) > u64::MAX {
            Err(SourceScanError::SizeOverflow)
        } else {
            Ok(
                WalkModel {
                    root: self.root + 1,
                    roots: self.roots.push(
                        RootModel {
                            path: self.sources[self.root as int].path,
                            file_count: found.len(),
                            total_bytes: bytes_in(found),
                        },
                    ),
                    first_file: self.files.len(),
                    stage: if self.root + 1 < self.sources.len() {
                        ScanStage::Root
                    } else {
                        ScanStage::Finished
                    },
                    ..self
                },
            )
        }
    }

    /// On to the next entry, the next directory or the next selected path.
    pub open spec fn advanced(self) -> Result<WalkModel, SourceScanError> {
        if self.entries.len() > 0 {
            Ok(WalkModel { stage: ScanStage::Entry, ..self })
        } else if self.pending.len() > 0 {
            Ok(WalkModel { stage: ScanStage::Directory, ..self })
        } else {
            self.root_closed()
        }
    }

    pub open spec fn with_file(
        self,
        relative_path: Seq<char>,
        size: u64,
        modified_at: Option<u64>,
    ) -> WalkModel {
        WalkModel {
            files: self.files.push(ScannedModel { relative_path, size, modified_at }),
            ..self
        }
    }

    /// A selected path was looked at.
    pub open spec fn root_inspected(self, kind: EntryKind) -> Result<WalkModel, SourceScanError> {
        let name = self.sources[self.root as int].name;
        if kind == EntryKind::Symlink {
            Err(SourceScanError::SymlinkNotAllowed)
        } else if name is None {
            Err(SourceScanError::InvalidRoot)
        } else if sanitized(name->Some_0) is Err {
            Err(SourceScanError::InvalidRelativePath)
        } else {
            let relative = sanitized(name->Some_0)->Ok_0;
            let named = WalkModel { names: self.names.push(relative), ..self };
            if self.names.contains(relative) {
                Err(SourceScanError::DuplicatePath)
            } else {
                match kind {
                    EntryKind::File { size, modified_at, mode } => if !readable(mode) {
                        Err(SourceScanError::Unreadable)
                    } else {
                        named.with_file(relative, size, modified_at).root_closed()
                    },
                    EntryKind::Directory => Ok(
                        WalkModel {
                            pending: seq![
                                DirectoryModel {
                                    place: self.root as usize,
                                    relative_path: relative,
                                },
                            ],
                            stage: ScanStage::Directory,
                            ..named
                        },
                    ),
                    _ => Err(SourceScanError::UnsupportedFileType),
                }
            }
        }
    }

    /// A directory was looked at, before it is listed.
    pub open spec fn directory_inspected(self, kind: EntryKind) -> Result<
        WalkModel,
        SourceScanError,
    > {
        match kind {
            EntryKind::Symlink => Err(SourceScanError::SymlinkNotAllowed),
            EntryKind::Directory => Ok(
                WalkModel {
                    pending: self.pending.drop_last(),
                    directory: self.pending.last(),
                    stage: ScanStage::Listing,
                    ..self
                },
            ),
            _ => Err(SourceScanError::UnsupportedFileType),
        }
    }

    /// A directory was listed. Its entries are taken from the last name to the first.
    pub open spec fn directory_listed(self, entries: Seq<ListedModel>, cancelled: bool) -> Result<
        WalkModel,
        SourceScanError,
    > {
        if entries.len() > MAX_SCAN_DIRECTORY_ENTRIES {
            Err(SourceScanError::TooManyEntries)
        } else if cancelled {
            Err(SourceScanError::Cancelled)
        } else {
            (WalkModel { entries: by_name(entries), ..self }).advanced()
        }
    }

    /// An entry of a directory was looked at.
    pub open spec fn entry_inspected(self, kind: EntryKind) -> Result<WalkModel, SourceScanError> {
        let entry = self.entries.last();
        let rest = WalkModel { entries: self.entries.drop_last(), ..self };
        match sanitized(self.entry_path(entry)) {
            Err(_) => Err(SourceScanError::InvalidRelativePath),
            Ok(relative) => match kind {
                EntryKind::Symlink => Err(SourceScanError::SymlinkNotAllowed),
                EntryKind::Directory => (WalkModel {
                    pending: self.pending.push(
                        DirectoryModel { place: entry.place, relative_path: relative },
                    ),
                    ..rest
                }).advanced(),
                EntryKind::File { size, modified_at, mode } => if !readable(mode) {
                    Err(SourceScanError::Unreadable)
                } else {
                    rest.with_file(relative, size, modified_at).advanced()
                },
                EntryKind::Other => Err(SourceScanError::UnsupportedFileType),
            },
        }
    }

    /// The answer is one to the question that was asked.
    pub open spec fn answered_by(self, answer: ScanAnswer) -> bool {
        match answer {
            ScanAnswer::Inspected(_) => self.stage == ScanStage::Root || self.stage
                == ScanStage::Directory || self.stage == ScanStage::Entry,
            ScanAnswer::Entries { .. } => self.stage == ScanStage::Listing,
            ScanAnswer::Failed(_) => self.stage != ScanStage::Finished,
        }
    }

    /// Where the walk stands after an answer, or why it ends.
    pub open spec fn after(self, answer: ScanAnswer) -> Result<WalkModel, SourceScanError> {
        match answer {
            ScanAnswer::Failed(kind) => Err(source_error_of(kind)),
            ScanAnswer::Entries { entries, cancelled } => self.directory_listed(
                listed_models(entries@),
                cancelled,
            ),
            ScanAnswer::Inspected(kind) => match self.stage {
                ScanStage::Root => self.root_inspected(kind),
                ScanStage::Directory => self.directory_inspected(kind),
                _ => self.entry_inspected(kind),
            },
        }
    }
}

/// A walk through selected paths.
pub struct SourceWalk {
    sources: Vec<SelectedPath>,
    root: usize,
    names: Vec<String>,
    files: Vec<ScannedFile>,
    roots: Vec<SourceRoot>,
    first_file: usize,
    pending: Vec<WalkDirectory>,
    directory: WalkDirectory,
    entries: Vec<Listed>,
    stage: ScanStage,
}

impl View for SourceWalk {
    type V = WalkModel;

    closed spec fn view(&self) -> WalkModel {
        WalkModel {
            sources: selected_models(self.sources@),
            root: self.root as nat,
            names: crate::resume::texts(self.names@),
            files: scanned_models(self.files@),
            roots: root_models(self.roots@),
            first_file: self.first_file as nat,
            pending: directory_models(self.pending@),
            directory: self.directory@,
            entries: listed_models(self.entries@),
            stage: self.stage,
        }
    }
}

proof fn lemma_bytes_in_monotone(files: Seq<ScannedModel>, count: int)
    requires
        0 <= count <= files.len(),
    ensures
        bytes_in(files.take(count)) <= bytes_in(files),
    decreases files.len(),
{
    if count < files.len() {
        assert(files.drop_last().take(count) =~= files.take(count));
        lemma_bytes_in_monotone(files.drop_last(), count);
    } else {
        assert(files.take(count) =~= files);
    }
}

fn sum_from(files: &Vec<ScannedFile>, first: usize) -> (sum: Option<u64>)
    requires
        first <= files@.len(),
    ensures
        match sum {
            Some(total) => total == bytes_in(scanned_models(files@).skip(first as int)),
            None => bytes_in(scanned_models(files@).skip(first as int)) > u64::MAX,
        },
{
    let ghost found = scanned_models(files@).skip(first as int);
    let mut total: u64 = 0;
    let mut i: usize = first;
    while i < files.len()
        invariant
            first <= i <= files@.len(),
            found == scanned_models(files@).skip(first as int),
            total == bytes_in(found.take(i - first)),
        decreases files@.len() - i,
    {
        assert(found.take(i - first + 1).drop_last() =~= found.take(i - first));
        assert(found.take(i - first + 1).last() == files@[i as int]@);
        match total.checked_add(files[i].size) {
            Some(sum) => {
                total = sum;
            },
            None => {
                proof {
                    lemma_bytes_in_monotone(found, i - first + 1);
                }
                return None;
            },
        }
        i = i + 1;
    }
    assert(found.take(i - first) =~= found);
    Some(total)
}

pub(crate) fn sort_by_name(entries: &Vec<Listed>) -> (sorted: Vec<Listed>)
    ensures
        listed_models(sorted@) == by_name(listed_models(entries@)),
{
    let ghost models = listed_models(entries@);
    let ghost names = models.map_values(|entry: ListedModel| entry.name);
    let mut keys: Vec<Vec<char>> = Vec::new();
    let mut i: usize = 0;
    while i < entries.len()
        invariant
            i <= entries@.len(),
            models == listed_models(entries@),
            names == models.map_values(|entry: ListedModel| entry.name),
            views(keys@) == names.take(i as int),
        decreases entries@.len() - i,
    {
        let ghost before = keys@;
        let key = chars_of(entries[i].name.as_str());
        keys.push(key);
        assert(views(keys@) =~= views(before).push(key@));
        assert(names.take(i as int + 1) =~= names.take(i as int).push(names[i as int]));
        i = i + 1;
    }
    assert(names.take(i as int) =~= names);
    let order = sorted_positions(&keys);
    let mut sorted: Vec<Listed> = Vec::new();
    let mut k: usize = 0;
    while k < order.len()
        invariant
            k <= order@.len(),
            order@.len() == entries@.len(),
            models == listed_models(entries@),
            order@ == the_order(names),
            names == models.map_values(|entry: ListedModel| entry.name),
            forall|j: int| 0 <= j < order@.len() ==> #[trigger] order@[j] < entries@.len(),
            listed_models(sorted@) == by_name(models).take(k as int),
        decreases order@.len() - k,
    {
        let at: usize = order[k];
        let ghost before = sorted@;
        let entry = Listed { place: entries[at].place, name: entries[at].name.clone() };
        sorted.push(entry);
        assert(entry@ == models[at as int]);
        assert(listed_models(sorted@) =~= listed_models(before).push(entry@));
        assert(by_name(models).take(k as int + 1) =~= by_name(models).take(k as int).push(
            by_name(models)[k as int],
        ));
        k = k + 1;
    }
    assert(by_name(models).take(k as int) =~= by_name(models));
    sorted
}

impl SourceWalk {
    /// Starts a walk. The places of the selected paths are their positions.
    pub fn new(sources: Vec<SelectedPath>) -> (result: Result<Self, SourceScanError>)
        ensures
            if sources@.len() == 0 {
                result == Err::<SourceWalk, SourceScanError>(SourceScanError::EmptySelection)
            } else {
                result matches Ok(walk) && walk@ == WalkModel::start(selected_models(sources@))
                    && walk@.well_formed()
            },
    {
        let count: usize = sources.len();
        if count == 0 {
            return Err(SourceScanError::EmptySelection);
        }
        let walk = Self {
            sources,
            root: 0,
            names: Vec::new(),
            files: Vec::new(),
            roots: Vec::new(),
            first_file: 0,
            pending: Vec::new(),
            directory: WalkDirectory { place: 0, relative_path: String::new() },
            entries: Vec::new(),
            stage: ScanStage::Root,
        };
        proof {
            assert(walk@.names =~= Seq::<Seq<char>>::empty());
            assert(walk@.files =~= Seq::<ScannedModel>::empty());
            assert(walk@.roots =~= Seq::<RootModel>::empty());
            assert(walk@.pending =~= Seq::<DirectoryModel>::empty());
            assert(walk@.entries =~= Seq::<ListedModel>::empty());
            assert(walk@.directory.relative_path =~= Seq::<char>::empty());
        }
        Ok(walk)
    }

    pub fn stage(&self) -> (stage: ScanStage)
        ensures
            stage == self@.stage,
    {
        self.stage
    }

    /// What to ask next.
    pub fn question(&self, cancelled: bool) -> (result: Result<ScanQuestion, SourceScanError>)
        requires
            self@.well_formed(),
        ensures
            result == self@.question(cancelled),
    {
        match self.stage {
            ScanStage::Root => {
                check_cancelled(cancelled)?;
                Ok(ScanQuestion::Inspect { place: self.root })
            },
            ScanStage::Directory => {
                check_cancelled(cancelled)?;
                let last = &self.pending[self.pending.len() - 1];
                assert(self@.pending.last() == last@);
                Ok(ScanQuestion::Inspect { place: last.place })
            },
            ScanStage::Listing => Ok(ScanQuestion::List { place: self.directory.place }),
            ScanStage::Entry => {
                check_cancelled(cancelled)?;
                let entry = &self.entries[self.entries.len() - 1];
                assert(self@.entries.last() == entry@);
                let path = join_path(
                    self.directory.relative_path.as_str(),
                    entry.name.as_str(),
                );
                if sanitize_relative_path(path.as_str()).is_err() {
                    return Err(SourceScanError::InvalidRelativePath);
                }
                Ok(ScanQuestion::Inspect { place: entry.place })
            },
            ScanStage::Finished => Ok(ScanQuestion::Nothing),
        }
    }

    fn push_file(&mut self, relative_path: String, size: u64, modified_at: Option<u64>)
        ensures
            final(self)@ == old(self)@.with_file(relative_path@, size, modified_at),
            final(self).sources == old(self).sources,
    {
        let ghost before = self.files@;
        let file = ScannedFile { relative_path, size, modified_at };
        self.files.push(file);
        assert(scanned_models(self.files@) =~= scanned_models(before).push(file@));
    }

    fn close_root(&mut self) -> (result: Result<(), SourceScanError>)
        requires
            old(self)@.root < old(self)@.sources.len(),
            old(self)@.first_file <= old(self)@.files.len(),
        ensures
            match old(self)@.root_closed() {
                Ok(next) => result is Ok && final(self)@ == next,
                Err(error) => result == Err::<(), SourceScanError>(error),
            },
    {
        let ghost found = self@.files.skip(self.first_file as int);
        if self.files.len() == self.first_file {
            return Err(SourceScanError::EmptyDirectory);
        }
        let total: u64 = match sum_from(&self.files, self.first_file) {
            Some(total) => total,
            None => {
                return Err(SourceScanError::SizeOverflow);
            },
        };
        let ghost before = self.roots@;
        let root = SourceRoot::of(
            self.sources[self.root].path.clone(),
            self.files.len() - self.first_file,
            total,
        );
        self.roots.push(root);
        assert(root_models(self.roots@) =~= root_models(before).push(
            RootModel {
                path: old(self)@.sources[old(self)@.root as int].path,
                file_count: found.len(),
                total_bytes: bytes_in(found),
            },
        ));
        let count: usize = self.sources.len();
        self.root = self.root + 1;
        self.first_file = self.files.len();
        self.stage = if self.root < count {
            ScanStage::Root
        } else {
            ScanStage::Finished
        };
        Ok(())
    }

    fn advance(&mut self) -> (result: Result<(), SourceScanError>)
        requires
            old(self)@.root < old(self)@.sources.len(),
            old(self)@.first_file <= old(self)@.files.len(),
        ensures
            match old(self)@.advanced() {
                Ok(next) => result is Ok && final(self)@ == next,
                Err(error) => result == Err::<(), SourceScanError>(error),
            },
    {
        if self.entries.len() > 0 {
            self.stage = ScanStage::Entry;
            return Ok(());
        }
        if self.pending.len() > 0 {
            self.stage = ScanStage::Directory;
            return Ok(());
        }
        self.close_root()
    }

    fn knows_name(&self, name: &str) -> (known: bool)
        ensures
            known == self@.names.contains(name@),
    {
        let mut i: usize = 0;
        while i < self.names.len()
            invariant
                i <= self.names@.len(),
                forall|k: int| 0 <= k < i ==> self@.names[k] != name@,
            decreases self.names@.len() - i,
        {
            if same_text(self.names[i].as_str(), name) {
                assert(self@.names[i as int] == name@);
                return true;
            }
            i = i + 1;
        }
        assert(!self@.names.contains(name@));
        false
    }

    fn inspect_root(&mut self, kind: EntryKind) -> (result: Result<(), SourceScanError>)
        requires
            old(self)@.well_formed(),
            old(self)@.stage == ScanStage::Root,
        ensures
            match old(self)@.root_inspected(kind) {
                Ok(next) => result is Ok && final(self)@ == next,
                Err(error) => result == Err::<(), SourceScanError>(error),
            },
    {
        if let EntryKind::Symlink = kind {
            return Err(SourceScanError::SymlinkNotAllowed);
        }
        assert(self@.sources[self.root as int] == self.sources@[self.root as int]@);
        let relative: String = match &self.sources[self.root].name {
            None => {
                return Err(SourceScanError::InvalidRoot);
            },
            Some(name) => match sanitize_relative_path(name.as_str()) {
                Ok(relative) => relative,
                Err(_) => {
                    return Err(SourceScanError::InvalidRelativePath);
                },
            },
        };
        if self.knows_name(relative.as_str()) {
            return Err(SourceScanError::DuplicatePath);
        }
        let ghost before = self.names@;
        let copy = relative.clone();
        self.names.push(copy);
        assert(crate::resume::texts(self.names@) =~= crate::resume::texts(before).push(relative@));
        match kind {
            EntryKind::File { size, modified_at, mode } => {
                ensure_readable_file(mode)?;
                self.push_file(relative, size, modified_at);
                self.close_root()
            },
            EntryKind::Directory => {
                let directory = WalkDirectory { place: self.root, relative_path: relative };
                let mut pending: Vec<WalkDirectory> = Vec::new();
                pending.push(directory);
                self.pending = pending;
                self.stage = ScanStage::Directory;
                assert(directory_models(self.pending@) =~= seq![directory@]);
                Ok(())
            },
            _ => Err(SourceScanError::UnsupportedFileType),
        }
    }

    fn inspect_directory(&mut self, kind: EntryKind) -> (result: Result<(), SourceScanError>)
        requires
            old(self)@.well_formed(),
            old(self)@.stage == ScanStage::Directory,
        ensures
            match old(self)@.directory_inspected(kind) {
                Ok(next) => result is Ok && final(self)@ == next,
                Err(error) => result == Err::<(), SourceScanError>(error),
            },
    {
        match kind {
            EntryKind::Symlink => Err(SourceScanError::SymlinkNotAllowed),
            EntryKind::Directory => {
                let ghost before = self.pending@;
                if let Some(directory) = self.pending.pop() {
                    assert(directory@ == directory_models(before).last());
                    self.directory = directory;
                }
                self.stage = ScanStage::Listing;
                assert(directory_models(self.pending@) =~= directory_models(before).drop_last());
                Ok(())
            },
            _ => Err(SourceScanError::UnsupportedFileType),
        }
    }

    fn list_directory(&mut self, entries: Vec<Listed>, cancelled: bool) -> (result: Result<
        (),
        SourceScanError,
    >)
        requires
            old(self)@.well_formed(),
            old(self)@.stage == ScanStage::Listing,
        ensures
            match old(self)@.directory_listed(listed_models(entries@), cancelled) {
                Ok(next) => result is Ok && final(self)@ == next,
                Err(error) => result == Err::<(), SourceScanError>(error),
            },
    {
        if entries.len() > MAX_SCAN_DIRECTORY_ENTRIES {
            return Err(SourceScanError::TooManyEntries);
        }
        check_cancelled(cancelled)?;
        self.entries = sort_by_name(&entries);
        self.advance()
    }

    fn inspect_entry(&mut self, kind: EntryKind) -> (result: Result<(), SourceScanError>)
        requires
            old(self)@.well_formed(),
            old(self)@.stage == ScanStage::Entry,
        ensures
            match old(self)@.entry_inspected(kind) {
                Ok(next) => result is Ok && final(self)@ == next,
                Err(error) => result == Err::<(), SourceScanError>(error),
            },
    {
        let ghost before = self.entries@;
        match self.entries.pop() {
            None => Err(SourceScanError::Unavailable),
            Some(entry) => {
                assert(entry@ == listed_models(before).last());
                assert(listed_models(self.entries@) =~= listed_models(before).drop_last());
                let path = join_path(
                    self.directory.relative_path.as_str(),
                    entry.name.as_str(),
                );
                let relative: String = match sanitize_relative_path(path.as_str()) {
                    Ok(relative) => relative,
                    Err(_) => {
                        return Err(SourceScanError::InvalidRelativePath);
                    },
                };
                match kind {
                    EntryKind::Symlink => Err(SourceScanError::SymlinkNotAllowed),
                    EntryKind::Directory => {
                        let ghost waiting = self.pending@;
                        let directory = WalkDirectory {
                            place: entry.place,
                            relative_path: relative,
                        };
                        self.pending.push(directory);
                        assert(directory_models(self.pending@) =~= directory_models(waiting).push(
                            directory@,
                        ));
                        self.advance()
                    },
                    EntryKind::File { size, modified_at, mode } => {
                        ensure_readable_file(mode)?;
                        self.push_file(relative, size, modified_at);
                        self.advance()
                    },
                    EntryKind::Other => Err(SourceScanError::UnsupportedFileType),
                }
            },
        }
    }

    /// Takes the answer to the last question.
    pub fn answer(&mut self, answer: ScanAnswer) -> (result: Result<(), SourceScanError>)
        requires
            old(self)@.well_formed(),
            old(self)@.answered_by(answer),
        ensures
            match old(self)@.after(answer) {
                Ok(next) => result is Ok && final(self)@ == next && final(self)@.well_formed(),
                Err(error) => result == Err::<(), SourceScanError>(error),
            },
    {
        proof {
            if self@.after(answer) is Ok {
                law_walk_stays_well_formed(self@, answer);
            }
        }
        match answer {
            ScanAnswer::Failed(kind) => Err(map_source_io_error(kind)),
            ScanAnswer::Entries { entries, cancelled } => self.list_directory(entries, cancelled),
            ScanAnswer::Inspected(kind) => match self.stage {
                ScanStage::Root => self.inspect_root(kind),
                ScanStage::Directory => self.inspect_directory(kind),
                _ => self.inspect_entry(kind),
            },
        }
    }
}

/// The files in the order of their paths.
pub open spec fn by_path(files: Seq<ScannedModel>) -> Seq<ScannedModel> {
    let order = the_order(paths_of(files));
    Seq::new(files.len(), |i: int| files[order[i] as int])
}

pub open spec fn paths_of(files: Seq<ScannedModel>) -> Seq<Seq<char>> {
    files.map_values(|file: ScannedModel| file.relative_path)
}

/// What a finished walk gives: the files by path, unless two of them cannot both be sent.
pub open spec fn finished(walk: WalkModel, cancelled: bool) -> Result<
    Seq<ScannedModel>,
    SourceScanError,
> {
    if cancelled {
        Err(SourceScanError::Cancelled)
    } else if some_conflict(paths_of(walk.files)) {
        Err(SourceScanError::DuplicatePath)
    } else if walk.files.len() == 0 {
        Err(SourceScanError::InvalidRelativePath)
    } else if bytes_in(by_path(walk.files)) > u64::MAX {
        Err(SourceScanError::SizeOverflow)
    } else {
        Ok(by_path(walk.files))
    }
}

/// The manifest entry of a file found.
pub open spec fn entry_of(entry: FileModel, file: ScannedModel) -> bool {
    &&& entry.relative_path == file.relative_path
    &&& entry.size == file.size
    &&& entry.modified_at == file.modified_at
    &&& entry.digest is None
    &&& marked_random(entry.file_id)
}

proof fn lemma_same_sizes(entries: Seq<FileModel>, files: Seq<ScannedModel>)
    requires
        entries.len() == files.len(),
        forall|i: int| 0 <= i < files.len() ==> (#[trigger] entries[i]).size == files[i].size,
    ensures
        size_sum(entries) == bytes_in(files),
    decreases files.len(),
{
    if files.len() > 0 {
        assert forall|i: int| 0 <= i < files.drop_last().len() implies (
        #[trigger] entries.drop_last()[i]).size == files.drop_last()[i].size by {
            assert(entries[i].size == files[i].size);
        }
        lemma_same_sizes(entries.drop_last(), files.drop_last());
    }
}

impl SourceWalk {
    /// Ends a walk that has nothing left to ask: builds the manifest, files in the order of their
    /// paths, each with a fresh identifier.
    pub fn finish(self, cancelled: bool) -> (result: Result<SourceScan, SourceScanError>)
        requires
            self@.well_formed(),
            self@.stage == ScanStage::Finished,
        ensures
            match finished(self@, cancelled) {
                Err(error) => result == Err::<SourceScan, SourceScanError>(error),
                Ok(files) => result matches Ok(scan) && {
                    let manifest = scan.manifest_spec();
                    &&& root_models(scan.roots_spec()) == self@.roots
                    &&& roots_of(self@.sources, root_models(scan.roots_spec()))
                    &&& crate::resume::texts(scan.source_paths_spec()) == self@.sources.map_values(
                        |source: SelectedModel| source.path,
                    )
                    &&& marked_random(manifest.transfer_id.bits())
                    &&& manifest@.files.len() == files.len()
                    &&& forall|i: int|
                        0 <= i < files.len() ==> entry_of(
                            #[trigger] manifest@.files[i],
                            files[i],
                        )
                    &&& manifest.total_size == bytes_in(files)
                    &&& manifest@.fault() is None
                },
            },
    {
        check_cancelled(cancelled)?;
        let ghost models = self@.files;
        let mut keys: Vec<Vec<char>> = Vec::new();
        let mut i: usize = 0;
        while i < self.files.len()
            invariant
                i <= self.files@.len(),
                models == scanned_models(self.files@),
                views(keys@) == paths_of(models).take(i as int),
            decreases self.files@.len() - i,
        {
            let ghost before = keys@;
            let key = chars_of(self.files[i].relative_path.as_str());
            keys.push(key);
            assert(views(keys@) =~= views(before).push(key@));
            assert(paths_of(models).take(i as int + 1) =~= paths_of(models).take(i as int).push(
                paths_of(models)[i as int],
            ));
            i = i + 1;
        }
        assert(paths_of(models).take(i as int) =~= paths_of(models));
        if any_conflict(&keys) {
            return Err(SourceScanError::DuplicatePath);
        }
        let order = sorted_positions(&keys);
        let ghost sorted = by_path(models);
        let mut entries: Vec<FileEntry> = Vec::new();
        let mut k: usize = 0;
        while k < order.len()
            invariant
                k <= order@.len(),
                order@.len() == self.files@.len(),
                self@.well_formed(),
                models == self@.files,
                models == scanned_models(self.files@),
                sorted == by_path(models),
                order@ == the_order(paths_of(models)),
                forall|j: int| 0 <= j < order@.len() ==> #[trigger] order@[j] < self.files@.len(),
                entries@.len() == k,
                forall|j: int|
                    0 <= j < k ==> entry_of((#[trigger] entries@[j])@, sorted[j]),
            decreases order@.len() - k,
        {
            let at: usize = order[k];
            let file = &self.files[at];
            assert(models[at as int] == file@);
            assert(sorted[k as int] == file@);
            match FileEntry::new(file.relative_path.as_str(), file.size) {
                Ok(entry) => {
                    let stamped = FileEntry {
                        file_id: entry.file_id,
                        relative_path: entry.relative_path,
                        size: entry.size,
                        modified_at: file.modified_at,
                        digest: None,
                    };
                    assert(entry_of(stamped@, sorted[k as int]));
                    entries.push(stamped);
                },
                Err(error) => {
                    return Err(map_manifest_error(error));
                },
            }
            k = k + 1;
        }
        proof {
            let listed = file_models(entries@);
            assert forall|j: int| 0 <= j < sorted.len() implies (#[trigger] listed[j]).size
                == sorted[j].size by {
                assert(entry_of(entries@[j]@, sorted[j]));
            }
            lemma_same_sizes(listed, sorted);
        }
        match TransferManifest::new(TransferId::new(), entries) {
            Err(error) => Err(map_manifest_error(error)),
            Ok(manifest) => {
                let mut source_paths: Vec<String> = Vec::new();
                let mut s: usize = 0;
                let ghost paths = self@.sources.map_values(|source: SelectedModel| source.path);
                while s < self.sources.len()
                    invariant
                        s <= self.sources@.len(),
                        paths == self@.sources.map_values(|source: SelectedModel| source.path),
                        crate::resume::texts(source_paths@) == paths.take(s as int),
                    decreases self.sources@.len() - s,
                {
                    let ghost before = source_paths@;
                    let path = self.sources[s].path.clone();
                    source_paths.push(path);
                    assert(crate::resume::texts(source_paths@) =~= crate::resume::texts(
                        before,
                    ).push(path@));
                    assert(paths.take(s as int + 1) =~= paths.take(s as int).push(
                        paths[s as int],
                    ));
                    s = s + 1;
                }
                assert(paths.take(s as int) =~= paths);
                assert forall|j: int| 0 <= j < sorted.len() implies entry_of(
                    #[trigger] manifest@.files[j],
                    sorted[j],
                ) by {
                    assert(manifest@.files[j] == entries@[j]@);
                }
                proof {
                    law_finished_walk_gives_valid_manifest(self@, manifest@);
                }
                Ok(SourceScan::of(source_paths, self.roots, manifest))
            },
        }
    }
}

/// The manifest of a finished walk is valid: every path is safe, no two are in conflict, and the
/// total is the sum of the sizes.
pub proof fn law_finished_walk_gives_valid_manifest(walk: WalkModel, manifest: ManifestModel)
    requires
        walk.well_formed(),
        finished(walk, false) is Ok,
        walk.files.len() <= usize::MAX,
        manifest.files.len() == walk.files.len(),
        forall|i: int|
            0 <= i < walk.files.len() ==> entry_of(
                #[trigger] manifest.files[i],
                by_path(walk.files)[i],
            ),
        manifest.total_size == bytes_in(by_path(walk.files)),
    ensures
        manifest.fault() is None,
{
    let files = walk.files;
    let sorted = by_path(files);
    let order = the_order(paths_of(files));
    crate::path_order::lemma_order_exists(paths_of(files));
    assert forall|i: int| 0 <= i < manifest.files.len() implies sanitized(
        (#[trigger] manifest.files[i]).relative_path,
    ) == Ok::<Seq<char>, crate::manifest::ManifestError>(sorted[i].relative_path) by {
        assert(entry_of(manifest.files[i], sorted[i]));
        assert(order[i] < paths_of(files).len());
        assert(sorted[i] == files[order[i] as int]);
    }
    let safe = crate::manifest::safe_paths(manifest.files);
    if some_conflict(safe) {
        let (i, j) = choose|i: int, j: int|
            0 <= i < j < safe.len() && crate::path_order::conflict(
                #[trigger] safe[i],
                #[trigger] safe[j],
            );
        let x = order[i] as int;
        let y = order[j] as int;
        assert(sanitized(manifest.files[i].relative_path) is Ok);
        assert(sanitized(manifest.files[j].relative_path) is Ok);
        assert(paths_of(files)[x] == safe[i]);
        assert(paths_of(files)[y] == safe[j]);
        crate::path_order::lemma_order_distinct(paths_of(files), order, i, j);
        if x < y {
            assert(crate::path_order::conflict(paths_of(files)[x], paths_of(files)[y]));
        } else {
            assert(crate::path_order::conflict(paths_of(files)[y], paths_of(files)[x]));
        }
    }
    lemma_same_sizes(manifest.files, sorted);
    crate::manifest::law_valid_manifest(manifest);
}

proof fn lemma_bytes_in_two_parts(files: Seq<ScannedModel>, count: int)
    requires
        0 <= count <= files.len(),
    ensures
        bytes_in(files) == bytes_in(files.take(count)) + bytes_in(files.skip(count)),
    decreases files.len(),
{
    if count == files.len() {
        assert(files.take(count) =~= files);
        assert(files.skip(count).len() == 0);
    } else {
        lemma_bytes_in_two_parts(files.drop_last(), count);
        assert(files.drop_last().take(count) =~= files.take(count));
        assert(files.drop_last().skip(count) =~= files.skip(count).drop_last());
    }
}

proof fn lemma_close_keeps_tally(walk: WalkModel)
    requires
        walk.first_file <= walk.files.len(),
        root_counts(walk.roots) == walk.first_file,
        root_bytes(walk.roots) == bytes_in(walk.files.take(walk.first_file as int)),
        walk.root_closed() is Ok,
    ensures
        ({
            let next = walk.root_closed()->Ok_0;
            &&& root_counts(next.roots) == next.first_file
            &&& root_bytes(next.roots) == bytes_in(next.files.take(next.first_file as int))
        }),
{
    let next = walk.root_closed()->Ok_0;
    lemma_bytes_in_two_parts(walk.files, walk.first_file as int);
    assert(next.roots.drop_last() =~= walk.roots);
    assert(next.files.take(next.files.len() as int) =~= walk.files);
}

/// The sum of some numbers.
pub open spec fn total(values: Seq<nat>) -> nat
    decreases values.len(),
{
    if values.len() == 0 {
        0
    } else {
        total(values.drop_last()) + values.last()
    }
}

proof fn lemma_without_one(values: Seq<nat>, at: int)
    requires
        0 <= at < values.len(),
    ensures
        total(values) == total(values.remove(at)) + values[at],
    decreases values.len(),
{
    if at == values.len() - 1 {
        assert(values.remove(at) =~= values.drop_last());
    } else {
        lemma_without_one(values.drop_last(), at);
        assert(values.remove(at).drop_last() =~= values.drop_last().remove(at));
        assert(values.remove(at).last() == values.last());
    }
}

/// Numbers add up to the same in whatever order they are listed.
pub proof fn lemma_same_total_reordered(values: Seq<nat>, order: Seq<usize>)
    requires
        order.len() == values.len() <= usize::MAX,
        forall|i: int| 0 <= i < order.len() ==> 0 <= #[trigger] order[i] < values.len(),
        forall|x: int| 0 <= x < values.len() ==> #[trigger] order.contains(x as usize),
        forall|i: int, j: int| 0 <= i < j < order.len() ==> order[i] != order[j],
    ensures
        total(Seq::new(values.len(), |i: int| values[order[i] as int])) == total(values),
    decreases values.len(),
{
    let listed = Seq::new(values.len(), |i: int| values[order[i] as int]);
    if values.len() > 0 {
        let last = values.len() - 1;
        assert(order.contains(last as usize));
        let at = choose|i: int| 0 <= i < order.len() && order[i] == last as usize;
        let rest = order.remove(at);
        assert forall|i: int| 0 <= i < rest.len() implies 0 <= #[trigger] rest[i] < last by {
            if i < at {
                assert(order[i] != order[at]);
            } else {
                assert(order[at] != order[i + 1]);
            }
        }
        assert forall|x: int| 0 <= x < last implies #[trigger] rest.contains(x as usize) by {
            assert(order.contains(x as usize));
            let i = choose|i: int| 0 <= i < order.len() && order[i] == x as usize;
            if i < at {
                assert(rest[i] == x as usize);
            } else {
                assert(rest[i - 1] == x as usize);
            }
        }
        lemma_same_total_reordered(values.drop_last(), rest);
        lemma_without_one(listed, at);
        assert(listed.remove(at) =~= Seq::new(
            values.drop_last().len(),
            |i: int| values.drop_last()[rest[i] as int],
        ));
    }
}

spec fn sizes(files: Seq<ScannedModel>) -> Seq<nat> {
    files.map_values(|file: ScannedModel| file.size as nat)
}

proof fn lemma_bytes_are_total(files: Seq<ScannedModel>)
    ensures
        bytes_in(files) == total(sizes(files)),
    decreases files.len(),
{
    if files.len() > 0 {
        lemma_bytes_are_total(files.drop_last());
        assert(sizes(files.drop_last()) =~= sizes(files).drop_last());
    }
}

/// What the selected paths amount to adds up: together they count the files of the manifest, and
/// their bytes are its total.
pub proof fn law_totals_add_up(walk: WalkModel)
    requires
        walk.well_formed(),
        walk.stage == ScanStage::Finished,
        walk.files.len() <= usize::MAX,
    ensures
        root_counts(walk.roots) == by_path(walk.files).len(),
        root_bytes(walk.roots) == bytes_in(by_path(walk.files)),
{
    let paths = paths_of(walk.files);
    let order = the_order(paths);
    crate::path_order::lemma_order_exists(paths);
    assert forall|i: int, j: int| 0 <= i < j < order.len() implies order[i] != order[j] by {
        crate::path_order::lemma_order_distinct(paths, order, i, j);
    }
    lemma_same_total_reordered(sizes(walk.files), order);
    assert(sizes(by_path(walk.files)) =~= Seq::new(
        sizes(walk.files).len(),
        |i: int| sizes(walk.files)[order[i] as int],
    ));
    lemma_bytes_are_total(walk.files);
    lemma_bytes_are_total(by_path(walk.files));
    assert(walk.files.take(walk.first_file as int) =~= walk.files);
}

/// What a finished walk tells of the selected paths is told of every one of them, in order, and each
/// has brought at least one file.
pub proof fn law_roots_are_the_selection(walk: WalkModel)
    requires
        walk.well_formed(),
        walk.stage == ScanStage::Finished,
    ensures
        roots_of(walk.sources, walk.roots),
{
    assert(walk.sources.take(walk.root as int) =~= walk.sources);
}

/// After every answer there is something to ask about again, every file found goes to a safe path,
/// and the selected paths that are done account for their files.
pub proof fn law_walk_stays_well_formed(walk: WalkModel, answer: ScanAnswer)
    requires
        walk.well_formed(),
        walk.answered_by(answer),
        walk.after(answer) is Ok,
    ensures
        walk.after(answer)->Ok_0.well_formed(),
{
    if let ScanAnswer::Inspected(kind) = answer {
        if walk.stage == ScanStage::Root {
            crate::path::law_sanitize_idempotent(walk.sources[walk.root as int].name->Some_0);
        } else if walk.stage == ScanStage::Entry {
            crate::path::law_sanitize_idempotent(walk.entry_path(walk.entries.last()));
        }
    }
    let first = walk.first_file as int;
    let next = walk.after(answer)->Ok_0;
    assert(next.files.take(first) =~= walk.files.take(first));
    if next.root != walk.root {
        let done = WalkModel { root: walk.root, roots: walk.roots, first_file: walk.first_file, ..next };
        assert(done.root_closed()->Ok_0.roots == next.roots);
        lemma_close_keeps_tally(done);
    }
}

} // verus!
