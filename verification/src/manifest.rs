//! The files of a transfer.
use vstd::prelude::*;
use crate::ident::{marked_random, random_id, TransferId};
use crate::path::{sanitize_relative_path, sanitized};
use crate::path_order::{any_conflict, some_conflict, views};
use crate::text::{chars_of, copy_optional, optional_text};

verus! {

#[derive(Debug, Clone, Copy, PartialEq, Eq, Structural)]
pub enum ManifestError {
    Empty,
    EmptyPath,
    AbsolutePath,
    InvalidComponent,
    NulByte,
    SizeOverflow,
    DuplicatePath,
    InvalidChunkSize,
}

impl ManifestError {
    pub open spec fn text(self) -> Seq<char> {
        match self {
            ManifestError::Empty => "manifest must contain at least one file"@,
            ManifestError::EmptyPath => "file path is empty"@,
            ManifestError::AbsolutePath => "file path must be relative"@,
            ManifestError::InvalidComponent => "file path contains an invalid component"@,
            ManifestError::NulByte => "file path contains a NUL byte"@,
            ManifestError::SizeOverflow => "file size total overflow"@,
            ManifestError::DuplicatePath =>
                "manifest contains duplicate or conflicting file paths"@,
            ManifestError::InvalidChunkSize => "chunk size must be greater than zero"@,
        }
    }

    pub fn message(self) -> (text: &'static str)
        ensures
            text@ == self.text(),
    {
        match self {
            Self::Empty => "manifest must contain at least one file",
            Self::EmptyPath => "file path is empty",
            Self::AbsolutePath => "file path must be relative",
            Self::InvalidComponent => "file path contains an invalid component",
            Self::NulByte => "file path contains a NUL byte",
            Self::SizeOverflow => "file size total overflow",
            Self::DuplicatePath => "manifest contains duplicate or conflicting file paths",
            Self::InvalidChunkSize => "chunk size must be greater than zero",
        }
    }
}

/// One file: its identifier, where it goes below the destination, and what is known of it.
#[derive(Debug, Clone, PartialEq, Eq)]
pub struct FileEntry {
    pub file_id: u128,
    pub relative_path: String,
    pub size: u64,
    pub modified_at: Option<u64>,
    pub digest: Option<String>,
}

#[verifier::ext_equal]
pub struct FileModel {
    pub file_id: u128,
    pub relative_path: Seq<char>,
    pub size: u64,
    pub modified_at: Option<u64>,
    pub digest: Option<Seq<char>>,
}

impl View for FileEntry {
    type V = FileModel;

    open spec fn view(&self) -> FileModel {
        FileModel {
            file_id: self.file_id,
            relative_path: self.relative_path@,
            size: self.size,
            modified_at: self.modified_at,
            digest: optional_text(self.digest),
        }
    }
}

/// The entry of a file under a given identifier, with nothing known of it but its size.
pub open spec fn fresh_entry(file_id: u128, path: Seq<char>, size: u64) -> Result<
    FileModel,
    ManifestError,
> {
    match sanitized(path) {
        Ok(relative_path) => Ok(
            FileModel { file_id, relative_path, size, modified_at: None, digest: None },
        ),
        Err(error) => Err(error),
    }
}

impl FileEntry {
    /// An entry with a fresh random identifier.
    pub fn new(relative_path: &str, size: u64) -> (result: Result<Self, ManifestError>)
        ensures
            match result {
                Ok(entry) => {
                    &&& fresh_entry(entry.file_id, relative_path@, size) == Ok::<
                        FileModel,
                        ManifestError,
                    >(entry@)
                    &&& marked_random(entry.file_id)
                },
                Err(error) => sanitized(relative_path@) == Err::<Seq<char>, ManifestError>(error),
            },
    {
        Self::with_id(random_id(), relative_path, size)
    }

    pub fn with_id(file_id: u128, relative_path: &str, size: u64) -> (result: Result<
        Self,
        ManifestError,
    >)
        ensures
            match result {
                Ok(entry) => fresh_entry(file_id, relative_path@, size) == Ok::<
                    FileModel,
                    ManifestError,
                >(entry@),
                Err(error) => fresh_entry(file_id, relative_path@, size) == Err::<
                    FileModel,
                    ManifestError,
                >(error),
            },
    {
        let relative_path = sanitize_relative_path(relative_path)?;
        Ok(Self { file_id, relative_path, size, modified_at: None, digest: None })
    }
}

impl FileEntry {
    pub fn copied(&self) -> (copy: Self)
        ensures
            copy@ == self@,
    {
        Self {
            file_id: self.file_id,
            relative_path: self.relative_path.as_str().to_owned(),
            size: self.size,
            modified_at: self.modified_at,
            digest: copy_optional(&self.digest),
        }
    }
}

#[derive(Debug, Clone, PartialEq, Eq)]
pub struct TransferManifest {
    pub transfer_id: TransferId,
    pub files: Vec<FileEntry>,
    pub total_size: u64,
}

#[verifier::ext_equal]
pub struct ManifestModel {
    pub transfer_id: TransferId,
    pub files: Seq<FileModel>,
    pub total_size: u64,
}

pub open spec fn file_models(files: Seq<FileEntry>) -> Seq<FileModel> {
    files.map_values(|file: FileEntry| file@)
}

impl View for TransferManifest {
    type V = ManifestModel;

    open spec fn view(&self) -> ManifestModel {
        ManifestModel {
            transfer_id: self.transfer_id,
            files: file_models(self.files@),
            total_size: self.total_size,
        }
    }
}

impl TransferManifest {
    /// The same files as those of another transfer.
    pub fn for_transfer(&self, transfer_id: TransferId) -> (copy: Self)
        ensures
            copy@ == (ManifestModel { transfer_id, ..self@ }),
    {
        let mut files: Vec<FileEntry> = Vec::new();
        let ghost models = file_models(self.files@);
        let mut i: usize = 0;
        while i < self.files.len()
            invariant
                i <= self.files@.len(),
                models == file_models(self.files@),
                file_models(files@) == models.take(i as int),
            decreases self.files@.len() - i,
        {
            let ghost before = files@;
            let file = self.files[i].copied();
            files.push(file);
            assert(file_models(files@) =~= file_models(before).push(file@));
            assert(models.take(i as int + 1) =~= models.take(i as int).push(models[i as int]));
            i = i + 1;
        }
        assert(models.take(i as int) =~= models);
        Self { transfer_id, files, total_size: self.total_size }
    }
}

/// The sizes of all files together.
pub open spec fn size_sum(files: Seq<FileModel>) -> nat
    decreases files.len(),
{
    if files.len() == 0 {
        0
    } else {
        size_sum(files.drop_last()) + files.last().size as nat
    }
}

/// The first file, in order, whose path is not safe.
pub open spec fn path_fault(files: Seq<FileModel>) -> Option<ManifestError>
    decreases files.len(),
{
    if files.len() == 0 {
        None
    } else {
        match path_fault(files.drop_last()) {
            Some(error) => Some(error),
            None => match sanitized(files.last().relative_path) {
                Ok(_) => None,
                Err(error) => Some(error),
            },
        }
    }
}

pub open spec fn safe_paths(files: Seq<FileModel>) -> Seq<Seq<char>> {
    files.map_values(|file: FileModel| sanitized(file.relative_path)->Ok_0)
}

impl ManifestModel {
    /// What is wrong with a manifest, if anything.
    pub open spec fn fault(self) -> Option<ManifestError> {
        if self.files.len() == 0 {
            Some(ManifestError::Empty)
        } else {
            match path_fault(self.files) {
                Some(error) => Some(error),
                None => if some_conflict(safe_paths(self.files)) {
                    Some(ManifestError::DuplicatePath)
                } else if size_sum(self.files) != self.total_size {
                    Some(ManifestError::SizeOverflow)
                } else {
                    None
                },
            }
        }
    }
}

proof fn lemma_size_sum_monotone(files: Seq<FileModel>, count: int)
    requires
        0 <= count <= files.len(),
    ensures
        size_sum(files.take(count)) <= size_sum(files),
    decreases files.len(),
{
    if count < files.len() {
        assert(files.drop_last().take(count) =~= files.take(count));
        lemma_size_sum_monotone(files.drop_last(), count);
    } else {
        assert(files.take(count) =~= files);
    }
}

proof fn lemma_path_fault_prefix(files: Seq<FileModel>, count: int)
    requires
        0 <= count <= files.len(),
        path_fault(files.take(count)) is Some,
    ensures
        path_fault(files) == path_fault(files.take(count)),
    decreases files.len(),
{
    if count < files.len() {
        assert(files.drop_last().take(count) =~= files.take(count));
        lemma_path_fault_prefix(files.drop_last(), count);
    } else {
        assert(files.take(count) =~= files);
    }
}

/// The sizes of all files together, where they fit a 64-bit number.
fn checked_size_sum(files: &Vec<FileEntry>) -> (sum: Option<u64>)
    ensures
        match sum {
            Some(value) => value == size_sum(file_models(files@)),
            None => size_sum(file_models(files@)) > u64::MAX,
        },
{
    let ghost models = file_models(files@);
    let mut total: u64 = 0;
    let mut i: usize = 0;
    while i < files.len()
        invariant
            i <= files@.len(),
            models == file_models(files@),
            total == size_sum(models.take(i as int)),
        decreases files@.len() - i,
    {
        assert(models.take(i as int + 1).drop_last() =~= models.take(i as int));
        assert(models.take(i as int + 1).last() == files@[i as int]@);
        match total.checked_add(files[i].size) {
            Some(sum) => {
                total = sum;
            },
            None => {
                proof {
                    lemma_size_sum_monotone(models, i as int + 1);
                }
                return None;
            },
        }
        i = i + 1;
    }
    assert(models.take(i as int) =~= models);
    Some(total)
}

impl TransferManifest {
    pub fn new(transfer_id: TransferId, files: Vec<FileEntry>) -> (result: Result<
        Self,
        ManifestError,
    >)
        ensures
            match result {
                Ok(manifest) => {
                    &&& files@.len() > 0
                    &&& manifest.transfer_id == transfer_id
                    &&& manifest.files == files
                    &&& manifest.total_size == size_sum(file_models(files@))
                },
                Err(error) => error == (if files@.len() == 0 {
                    ManifestError::Empty
                } else {
                    ManifestError::SizeOverflow
                }),
            },
            result is Err <==> files@.len() == 0 || size_sum(file_models(files@)) > u64::MAX,
    {
        if files.is_empty() {
            return Err(ManifestError::Empty);
        }
        match checked_size_sum(&files) {
            Some(total_size) => Ok(Self { transfer_id, files, total_size }),
            None => Err(ManifestError::SizeOverflow),
        }
    }

    pub fn validate(&self) -> (result: Result<(), ManifestError>)
        ensures
            result == (match self@.fault() {
                Some(error) => Err(error),
                None => Ok::<(), ManifestError>(()),
            }),
    {
        let ghost models = self@.files;
        if self.files.is_empty() {
            return Err(ManifestError::Empty);
        }
        let mut paths: Vec<Vec<char>> = Vec::new();
        let mut i: usize = 0;
        assert(views(paths@) =~= safe_paths(models.take(0)));
        while i < self.files.len()
            invariant
                i <= self.files@.len(),
                self.files@.len() > 0,
                models == self@.files,
                path_fault(models.take(i as int)) is None,
                views(paths@) == safe_paths(models.take(i as int)),
            decreases self.files@.len() - i,
        {
            let ghost next = models.take(i as int + 1);
            assert(next.drop_last() =~= models.take(i as int));
            assert(next.last() == self.files@[i as int]@);
            match sanitize_relative_path(self.files[i].relative_path.as_str()) {
                Ok(path) => {
                    let ghost before = paths@;
                    let chars = chars_of(path.as_str());
                    paths.push(chars);
                    assert(views(paths@) =~= views(before).push(chars@));
                    assert(safe_paths(next) =~= safe_paths(models.take(i as int)).push(chars@));
                },
                Err(error) => {
                    proof {
                        lemma_path_fault_prefix(models, i as int + 1);
                    }
                    return Err(error);
                },
            }
            i = i + 1;
        }
        assert(models.take(i as int) =~= models);
        if any_conflict(&paths) {
            return Err(ManifestError::DuplicatePath);
        }
        match checked_size_sum(&self.files) {
            Some(total) => if total != self.total_size {
                Err(ManifestError::SizeOverflow)
            } else {
                Ok(())
            },
            None => Err(ManifestError::SizeOverflow),
        }
    }
}

proof fn lemma_no_path_fault(files: Seq<FileModel>)
    requires
        forall|i: int| 0 <= i < files.len() ==> sanitized((#[trigger] files[i]).relative_path) is Ok,
    ensures
        path_fault(files) is None,
    decreases files.len(),
{
    if files.len() > 0 {
        assert forall|i: int| 0 <= i < files.drop_last().len() implies sanitized(
            (#[trigger] files.drop_last()[i]).relative_path,
        ) is Ok by {
            assert(files.drop_last()[i] == files[i]);
        }
        lemma_no_path_fault(files.drop_last());
        assert(files.last() == files[files.len() - 1]);
    }
}

/// A manifest is valid exactly if it has files, every path is safe, no two paths are in conflict,
/// and its total is the sum of the sizes.
pub proof fn law_valid_manifest(manifest: ManifestModel)
    ensures
        manifest.fault() is None <==> {
            &&& manifest.files.len() > 0
            &&& forall|i: int|
                0 <= i < manifest.files.len() ==> sanitized(
                    (#[trigger] manifest.files[i]).relative_path,
                ) is Ok
            &&& !some_conflict(safe_paths(manifest.files))
            &&& size_sum(manifest.files) == manifest.total_size
        },
{
    if forall|i: int|
        0 <= i < manifest.files.len() ==> sanitized(
            (#[trigger] manifest.files[i]).relative_path,
        ) is Ok {
        lemma_no_path_fault(manifest.files);
    }
    if path_fault(manifest.files) is None {
        lemma_path_fault_none(manifest.files);
    }
}

proof fn lemma_path_fault_none(files: Seq<FileModel>)
    requires
        path_fault(files) is None,
    ensures
        forall|i: int| 0 <= i < files.len() ==> sanitized((#[trigger] files[i]).relative_path) is Ok,
    decreases files.len(),
{
    if files.len() > 0 {
        lemma_path_fault_none(files.drop_last());
        assert forall|i: int| 0 <= i < files.len() implies sanitized(
            (#[trigger] files[i]).relative_path,
        ) is Ok by {
            if i < files.len() - 1 {
                assert(files.drop_last()[i] == files[i]);
            }
        }
    }
}

/// The sizes of two runs of files add up, and each file counts with its own size.
pub proof fn law_sizes_add_up(files: Seq<FileModel>, file: FileModel)
    ensures
        size_sum(Seq::<FileModel>::empty()) == 0,
        size_sum(files.push(file)) == size_sum(files) + file.size,
{
    assert(files.push(file).drop_last() =~= files);
}

/// A manifest is refused for the first of these reasons that holds: it has no files, a path is not
/// safe, two paths are in conflict, its total is not the sum of the sizes.
pub proof fn law_manifests_are_refused_for_cause(manifest: ManifestModel)
    ensures
        manifest.files.len() == 0 <==> manifest.fault() == Some(ManifestError::Empty),
        manifest.files.len() > 0 && (forall|i: int|
            0 <= i < manifest.files.len() ==> sanitized(
                (#[trigger] manifest.files[i]).relative_path,
            ) is Ok) ==> (manifest.fault() == Some(ManifestError::DuplicatePath) <==> some_conflict(
            safe_paths(manifest.files),
        )),
        manifest.fault() == Some(ManifestError::SizeOverflow) ==> size_sum(manifest.files)
            != manifest.total_size,
        (exists|i: int|
            0 <= i < manifest.files.len() && sanitized(
                (#[trigger] manifest.files[i]).relative_path,
            ) is Err) ==> manifest.fault() is Some && manifest.fault() != Some(
            ManifestError::DuplicatePath,
        ) && manifest.fault() != Some(ManifestError::SizeOverflow),
        forall|i: int|
            0 <= i < manifest.files.len() && sanitized(manifest.files[i].relative_path) is Ok
                ==> #[trigger] safe_paths(manifest.files)[i] == sanitized(
                manifest.files[i].relative_path,
            )->Ok_0,
{
    if forall|i: int|
        0 <= i < manifest.files.len() ==> sanitized(
            (#[trigger] manifest.files[i]).relative_path,
        ) is Ok {
        lemma_no_path_fault(manifest.files);
    }
    if path_fault(manifest.files) is None {
        lemma_path_fault_none(manifest.files);
    }
    lemma_path_fault_kinds(manifest.files);
}

proof fn lemma_path_fault_kinds(files: Seq<FileModel>)
    ensures
        path_fault(files) matches Some(error) ==> error != ManifestError::Empty && error
            != ManifestError::DuplicatePath && error != ManifestError::SizeOverflow,
    decreases files.len(),
{
    if files.len() > 0 {
        lemma_path_fault_kinds(files.drop_last());
    }
}

/// A new entry is at the safe path that its path stands for, as long as it is said to be, and
/// nothing else is known of it; it is refused exactly if there is no safe path.
pub proof fn law_new_entries(file_id: u128, path: Seq<char>, size: u64)
    ensures
        fresh_entry(file_id, path, size) is Ok <==> sanitized(path) is Ok,
        fresh_entry(file_id, path, size) matches Ok(entry) ==> {
            &&& entry.file_id == file_id
            &&& sanitized(path) == Ok::<Seq<char>, ManifestError>(entry.relative_path)
            &&& entry.size == size
            &&& entry.modified_at is None
            &&& entry.digest is None
        },
        fresh_entry(file_id, path, size) matches Err(error) ==> sanitized(path) == Err::<
            Seq<char>,
            ManifestError,
        >(error),
{
}

} // verus!
