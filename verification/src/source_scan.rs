//! Finding the files to send below the paths that a user selected. The file system is asked from
//! outside; what to ask next, and what the answers mean, is decided here.
use vstd::prelude::*;
use crate::io_kind::IoErrorKind;
use crate::manifest::{ManifestError, TransferManifest};
use crate::text::{decimal, push_decimal};

verus! {

/// How many entries a directory may have.
pub const MAX_SCAN_DIRECTORY_ENTRIES: usize = 1024;

#[derive(Debug, Clone, Copy, PartialEq, Eq, Structural)]
pub enum SourceScanError {
    EmptySelection,
    Unavailable,
    Unreadable,
    SymlinkNotAllowed,
    UnsupportedFileType,
    EmptyDirectory,
    InvalidRoot,
    TooManyEntries,
    DuplicatePath,
    InvalidRelativePath,
    SizeOverflow,
    Cancelled,
}

impl SourceScanError {
    pub fn message(self) -> (text: &'static str)
        ensures
            text@ == match self {
                SourceScanError::EmptySelection =>
                    "source selection must contain at least one path"@,
                SourceScanError::Unavailable => "source path is unavailable"@,
                SourceScanError::Unreadable => "source path is unreadable"@,
                SourceScanError::SymlinkNotAllowed =>
                    "symbolic links are not supported as send sources"@,
                SourceScanError::UnsupportedFileType =>
                    "source contains an unsupported file type"@,
                SourceScanError::EmptyDirectory => "source directory contains no regular files"@,
                SourceScanError::InvalidRoot => "source path has no valid name"@,
                SourceScanError::TooManyEntries => "source directory contains too many entries"@,
                SourceScanError::DuplicatePath =>
                    "source contains duplicate or conflicting output paths"@,
                SourceScanError::InvalidRelativePath =>
                    "source path cannot be represented as a relative manifest path"@,
                SourceScanError::SizeOverflow => "source size total overflowed"@,
                SourceScanError::Cancelled => "source scan was cancelled"@,
            },
    {
        match self {
            Self::EmptySelection => "source selection must contain at least one path",
            Self::Unavailable => "source path is unavailable",
            Self::Unreadable => "source path is unreadable",
            Self::SymlinkNotAllowed => "symbolic links are not supported as send sources",
            Self::UnsupportedFileType => "source contains an unsupported file type",
            Self::EmptyDirectory => "source directory contains no regular files",
            Self::InvalidRoot => "source path has no valid name",
            Self::TooManyEntries => "source directory contains too many entries",
            Self::DuplicatePath => "source contains duplicate or conflicting output paths",
            Self::InvalidRelativePath =>
                "source path cannot be represented as a relative manifest path",
            Self::SizeOverflow => "source size total overflowed",
            Self::Cancelled => "source scan was cancelled",
        }
    }
}

pub open spec fn source_error_of(kind: IoErrorKind) -> SourceScanError {
    if kind == IoErrorKind::PermissionDenied {
        SourceScanError::Unreadable
    } else {
        SourceScanError::Unavailable
    }
}

pub fn map_source_io_error(kind: IoErrorKind) -> (error: SourceScanError)
    ensures
        error == source_error_of(kind),
{
    match kind {
        IoErrorKind::PermissionDenied => SourceScanError::Unreadable,
        _ => SourceScanError::Unavailable,
    }
}

pub open spec fn scan_error_of(error: ManifestError) -> SourceScanError {
    if error == ManifestError::SizeOverflow {
        SourceScanError::SizeOverflow
    } else {
        SourceScanError::InvalidRelativePath
    }
}

pub fn map_manifest_error(error: ManifestError) -> (mapped: SourceScanError)
    ensures
        mapped == scan_error_of(error),
{
    match error {
        ManifestError::SizeOverflow => SourceScanError::SizeOverflow,
        _ => SourceScanError::InvalidRelativePath,
    }
}

pub fn check_cancelled(cancelled: bool) -> (result: Result<(), SourceScanError>)
    ensures
        result == (if cancelled {
            Err::<(), SourceScanError>(SourceScanError::Cancelled)
        } else {
            Ok(())
        }),
{
    if cancelled {
        Err(SourceScanError::Cancelled)
    } else {
        Ok(())
    }
}

/// A selected path: its text, and the name of what it leads to, if it has one.
pub struct SelectedPath {
    pub path: String,
    pub name: Option<String>,
}

/// What is found at a path, links not followed.
#[derive(Debug, Clone, Copy, PartialEq, Eq, Structural)]
pub enum EntryKind {
    Symlink,
    Directory,
    File { size: u64, modified_at: Option<u64>, mode: u32 },
    Other,
}

/// Some read permission is set.
pub open spec fn readable(mode: u32) -> bool {
    mode & 0o444 != 0
}

pub fn ensure_readable_file(mode: u32) -> (result: Result<(), SourceScanError>)
    ensures
        result == (if readable(mode) {
            Ok::<(), SourceScanError>(())
        } else {
            Err(SourceScanError::Unreadable)
        }),
        result is Ok <==> mode & 0o400 != 0 || mode & 0o040 != 0 || mode & 0o004 != 0,
{
    proof {
        law_any_right_to_read_will_do(mode);
    }
    if mode & 0o444 == 0 {
        return Err(SourceScanError::Unreadable);
    }
    Ok(())
}

/// A file found: where it goes, how long it is and when it was changed.
pub struct ScannedFile {
    pub relative_path: String,
    pub size: u64,
    pub modified_at: Option<u64>,
}

#[verifier::ext_equal]
pub struct ScannedModel {
    pub relative_path: Seq<char>,
    pub size: u64,
    pub modified_at: Option<u64>,
}

impl View for ScannedFile {
    type V = ScannedModel;

    open spec fn view(&self) -> ScannedModel {
        ScannedModel {
            relative_path: self.relative_path@,
            size: self.size,
            modified_at: self.modified_at,
        }
    }
}

pub open spec fn scanned_models(files: Seq<ScannedFile>) -> Seq<ScannedModel> {
    files.map_values(|file: ScannedFile| file@)
}

/// What a selected path amounts to.
#[derive(Clone, PartialEq, Eq)]
pub struct SourceRoot {
    path: String,
    file_count: usize,
    total_bytes: u64,
}

impl SourceRoot {
    pub closed spec fn path_spec(self) -> Seq<char> {
        self.path@
    }

    pub closed spec fn count_spec(self) -> usize {
        self.file_count
    }

    pub closed spec fn total_spec(self) -> u64 {
        self.total_bytes
    }

    pub(crate) fn of(path: String, file_count: usize, total_bytes: u64) -> (root: Self)
        ensures
            root.path_spec() == path@,
            root.count_spec() == file_count,
            root.total_spec() == total_bytes,
    {
        Self { path, file_count, total_bytes }
    }

    /// The selected path.
    pub fn path(&self) -> (path: &str)
        ensures
            path@ == self.path_spec(),
    {
        self.path.as_str()
    }

    /// How many files were found below it.
    pub fn file_count(&self) -> (count: usize)
        ensures
            count == self.count_spec(),
    {
        self.file_count
    }

    /// The sizes of those files together.
    pub fn total_bytes(&self) -> (total: u64)
        ensures
            total == self.total_spec(),
    {
        self.total_bytes
    }

    pub open spec fn text(self) -> Seq<char> {
        "SourceRoot { path_configured: true, file_count: "@ + decimal(self.count_spec() as nat)
            + ", total_bytes: "@ + decimal(self.total_spec() as nat) + " }"@
    }

    pub fn description(&self) -> (text: String)
        ensures
            text@ == self.text(),
    {
        let mut text = "SourceRoot { path_configured: true, file_count: ".to_owned();
        push_decimal(&mut text, self.file_count as u64);
        text.append(", total_bytes: ");
        push_decimal(&mut text, self.total_bytes);
        text.append(" }");
        text
    }
}

/// A finished scan.
#[derive(Clone, PartialEq, Eq)]
pub struct SourceScan {
    source_paths: Vec<String>,
    roots: Vec<SourceRoot>,
    manifest: TransferManifest,
}

impl SourceScan {
    pub closed spec fn source_paths_spec(self) -> Seq<String> {
        self.source_paths@
    }

    pub closed spec fn roots_spec(self) -> Seq<SourceRoot> {
        self.roots@
    }

    pub closed spec fn manifest_spec(self) -> TransferManifest {
        self.manifest
    }

    pub(crate) fn of(
        source_paths: Vec<String>,
        roots: Vec<SourceRoot>,
        manifest: TransferManifest,
    ) -> (scan: Self)
        ensures
            scan.source_paths_spec() == source_paths@,
            scan.roots_spec() == roots@,
            scan.manifest_spec() == manifest,
    {
        Self { source_paths, roots, manifest }
    }

    /// The paths as they were selected.
    pub fn source_paths(&self) -> (paths: &[String])
        ensures
            paths@ == self.source_paths_spec(),
    {
        self.source_paths.as_slice()
    }

    /// What each selected path amounts to.
    pub fn roots(&self) -> (roots: &[SourceRoot])
        ensures
            roots@ == self.roots_spec(),
    {
        self.roots.as_slice()
    }

    /// The manifest of everything found.
    pub fn manifest(&self) -> (manifest: &TransferManifest)
        ensures
            *manifest == self.manifest_spec(),
    {
        &self.manifest
    }

    pub fn file_count(&self) -> (count: usize)
        ensures
            count == self.manifest_spec().files@.len(),
    {
        self.manifest.files.len()
    }

    pub fn total_bytes(&self) -> (total: u64)
        ensures
            total == self.manifest_spec().total_size,
    {
        self.manifest.total_size
    }

    pub open spec fn text(self) -> Seq<char> {
        "SourceScan { source_count: "@ + decimal(self.source_paths_spec().len())
            + ", file_count: "@ + decimal(self.manifest_spec().files@.len()) + ", total_bytes: "@
            + decimal(self.manifest_spec().total_size as nat) + " }"@
    }

    pub fn description(&self) -> (text: String)
        ensures
            text@ == self.text(),
    {
        let mut text = "SourceScan { source_count: ".to_owned();
        push_decimal(&mut text, self.source_paths.len() as u64);
        text.append(", file_count: ");
        push_decimal(&mut text, self.manifest.files.len() as u64);
        text.append(", total_bytes: ");
        push_decimal(&mut text, self.manifest.total_size);
        text.append(" }");
        text
    }
}

/// A file with the owner's, the group's or the others' right to read can be read, and one with none
/// of the three cannot.
pub proof fn law_any_right_to_read_will_do(mode: u32)
    ensures
        readable(mode) <==> mode & 0o400 != 0 || mode & 0o040 != 0 || mode & 0o004 != 0,
{
    assert((mode & 0o444 != 0) <==> (mode & 0o400 != 0 || mode & 0o040 != 0 || mode & 0o004 != 0))
        by (bit_vector);
}

/// Only a missing right makes a path unreadable; every other fault of the file system makes it
/// unavailable.
pub proof fn law_faults_tell_what_is_missing(kind: IoErrorKind)
    ensures
        source_error_of(kind) == SourceScanError::Unreadable <==> kind
            == IoErrorKind::PermissionDenied,
        source_error_of(kind) == SourceScanError::Unavailable <==> kind
            != IoErrorKind::PermissionDenied,
{
}

/// A manifest that is too large is told as such, and one that is wrong otherwise as a path that
/// cannot be sent.
pub proof fn law_manifest_faults_are_told(error: ManifestError)
    ensures
        scan_error_of(ManifestError::SizeOverflow) == SourceScanError::SizeOverflow,
        error != ManifestError::SizeOverflow ==> scan_error_of(error)
            == SourceScanError::InvalidRelativePath,
{
}

} // verus!
