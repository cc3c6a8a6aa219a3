//! What is remembered of an interrupted transfer.
use vstd::prelude::*;
use crate::chunks::chunk_count;
use crate::ident::TransferId;
use crate::manifest::{ManifestError, ManifestModel, TransferManifest};
use crate::path::{sanitize_relative_path, sanitized};
use crate::text::{
    blank, decimal, is_blank, is_space, optional_text, push_decimal, same_optional_text,
};

verus! {

pub const RESUME_SCHEMA_VERSION: u32 = 2;

pub const DEFAULT_RESUME_CHUNK_SIZE: u64 = 4_194_304;

#[derive(Clone, PartialEq, Eq)]
pub enum ResumeRequest {
    Send { source_paths: Vec<String> },
    Receive { output_directory: String },
}

#[verifier::ext_equal]
pub enum ResumeRequestModel {
    Send { source_paths: Seq<Seq<char>> },
    Receive { output_directory: Seq<char> },
}

pub open spec fn texts(paths: Seq<String>) -> Seq<Seq<char>> {
    paths.map_values(|path: String| path@)
}

pub fn copy_texts(paths: &Vec<String>) -> (copy: Vec<String>)
    ensures
        texts(copy@) == texts(paths@),
{
    let mut copy: Vec<String> = Vec::new();
    let mut i: usize = 0;
    while i < paths.len()
        invariant
            i <= paths@.len(),
            texts(copy@) == texts(paths@).take(i as int),
        decreases paths@.len() - i,
    {
        let ghost before = copy@;
        let path = paths[i].as_str().to_owned();
        copy.push(path);
        assert(texts(copy@) =~= texts(before).push(path@));
        assert(texts(paths@).take(i as int + 1) =~= texts(paths@).take(i as int).push(
            texts(paths@)[i as int],
        ));
        i = i + 1;
    }
    assert(texts(paths@).take(i as int) =~= texts(paths@));
    copy
}

impl View for ResumeRequest {
    type V = ResumeRequestModel;

    open spec fn view(&self) -> ResumeRequestModel {
        match *self {
            ResumeRequest::Send { source_paths } => ResumeRequestModel::Send {
                source_paths: texts(source_paths@),
            },
            ResumeRequest::Receive { output_directory } => ResumeRequestModel::Receive {
                output_directory: output_directory@,
            },
        }
    }
}

impl ResumeRequestModel {
    /// Something to send and a name for all of it, or a place to receive to.
    pub open spec fn valid(self) -> bool {
        match self {
            ResumeRequestModel::Send { source_paths } => source_paths.len() > 0 && forall|i: int|
                0 <= i < source_paths.len() ==> (#[trigger] source_paths[i]).len() > 0,
            ResumeRequestModel::Receive { output_directory } => output_directory.len() > 0,
        }
    }
}

pub(crate) fn is_empty_text(text: &str) -> (empty: bool)
    ensures
        empty == (text@.len() == 0),
{
    text.is_empty()
}

impl ResumeRequest {
    pub fn validate(&self) -> (result: Result<(), ResumeStateError>)
        ensures
            result == (if self@.valid() {
                Ok::<(), ResumeStateError>(())
            } else {
                Err(ResumeStateError::InvalidRequest)
            }),
    {
        match self {
            Self::Send { source_paths } => {
                if source_paths.is_empty() {
                    return Err(ResumeStateError::InvalidRequest);
                }
                let mut i: usize = 0;
                while i < source_paths.len()
                    invariant
                        i <= source_paths@.len(),
                        source_paths@.len() > 0,
                        self@ == (ResumeRequestModel::Send { source_paths: texts(source_paths@) }),
                        forall|k: int|
                            0 <= k < i ==> (#[trigger] texts(source_paths@)[k]).len() > 0,
                    decreases source_paths@.len() - i,
                {
                    if is_empty_text(source_paths[i].as_str()) {
                        assert(texts(source_paths@)[i as int].len() == 0);
                        return Err(ResumeStateError::InvalidRequest);
                    }
                    i = i + 1;
                }
                Ok(())
            },
            Self::Receive { output_directory } => if is_empty_text(output_directory.as_str()) {
                Err(ResumeStateError::InvalidRequest)
            } else {
                Ok(())
            },
        }
    }
}

#[derive(Debug, Clone, Copy, PartialEq, Eq, Structural)]
pub struct ResumeCapabilities {
    pub pause: bool,
    pub resume: bool,
}

#[derive(Debug, Clone, Copy, PartialEq, Eq, Structural)]
pub enum ResumeStateError {
    UnsupportedSchema { found: u32, expected: u32 },
    EmptyBackend,
    EmptyBackendVersion,
    InvalidRequest,
    InvalidManifest(ManifestError),
    InvalidChunkSize,
    InvalidTemporaryPath,
    InvalidCompletedChunks,
    FileNotInManifest,
}

impl ResumeStateError {
    pub open spec fn text(self) -> Seq<char> {
        match self {
            ResumeStateError::UnsupportedSchema { found, expected } =>
                "unsupported resume schema version "@ + decimal(found as nat) + "; expected "@
                + decimal(expected as nat),
            ResumeStateError::EmptyBackend => "resume backend name must not be empty"@,
            ResumeStateError::EmptyBackendVersion => "resume backend version must not be empty"@,
            ResumeStateError::InvalidRequest => "resume request is invalid"@,
            ResumeStateError::InvalidManifest(_) => "resume manifest is invalid"@,
            ResumeStateError::InvalidChunkSize => "resume chunk size must be greater than zero"@,
            ResumeStateError::InvalidTemporaryPath =>
                "resume temporary path must be relative and safe"@,
            ResumeStateError::InvalidCompletedChunks => "resume completed chunks are invalid"@,
            ResumeStateError::FileNotInManifest => "resume file is not present in manifest"@,
        }
    }

    pub fn message(self) -> (text: String)
        ensures
            text@ == self.text(),
    {
        match self {
            Self::UnsupportedSchema { found, expected } => {
                let mut text = "unsupported resume schema version ".to_owned();
                push_decimal(&mut text, found as u64);
                text.append("; expected ");
                push_decimal(&mut text, expected as u64);
                text
            },
            Self::EmptyBackend => "resume backend name must not be empty".to_owned(),
            Self::EmptyBackendVersion => "resume backend version must not be empty".to_owned(),
            Self::InvalidRequest => "resume request is invalid".to_owned(),
            Self::InvalidManifest(_) => "resume manifest is invalid".to_owned(),
            Self::InvalidChunkSize => "resume chunk size must be greater than zero".to_owned(),
            Self::InvalidTemporaryPath => "resume temporary path must be relative and safe".to_owned(),
            Self::InvalidCompletedChunks => "resume completed chunks are invalid".to_owned(),
            Self::FileNotInManifest => "resume file is not present in manifest".to_owned(),
        }
    }
}

#[derive(Clone, PartialEq, Eq)]
pub struct ResumeState {
    pub schema_version: u32,
    pub transfer_id: TransferId,
    pub backend: String,
    pub backend_version: Option<String>,
    pub capabilities: ResumeCapabilities,
    pub request: ResumeRequest,
    pub manifest: Option<TransferManifest>,
    pub file_id: u128,
    pub chunk_size: u64,
    pub file_size: u64,
    pub completed_chunks: Vec<u64>,
    pub file_digest: Option<String>,
    pub temp_file_path: Option<String>,
}

#[verifier::ext_equal]
pub struct ResumeModel {
    pub schema_version: u32,
    pub transfer_id: TransferId,
    pub backend: Seq<char>,
    pub backend_version: Option<Seq<char>>,
    pub capabilities: ResumeCapabilities,
    pub request: ResumeRequestModel,
    pub manifest: Option<ManifestModel>,
    pub file_id: u128,
    pub chunk_size: u64,
    pub file_size: u64,
    pub completed_chunks: Seq<u64>,
    pub file_digest: Option<Seq<char>>,
    pub temp_file_path: Option<Seq<char>>,
}

pub open spec fn optional_manifest(manifest: Option<TransferManifest>) -> Option<ManifestModel> {
    match manifest {
        Some(manifest) => Some(manifest@),
        None => None,
    }
}

impl View for ResumeState {
    type V = ResumeModel;

    open spec fn view(&self) -> ResumeModel {
        ResumeModel {
            schema_version: self.schema_version,
            transfer_id: self.transfer_id,
            backend: self.backend@,
            backend_version: optional_text(self.backend_version),
            capabilities: self.capabilities,
            request: self.request@,
            manifest: optional_manifest(self.manifest),
            file_id: self.file_id,
            chunk_size: self.chunk_size,
            file_size: self.file_size,
            completed_chunks: self.completed_chunks@,
            file_digest: optional_text(self.file_digest),
            temp_file_path: optional_text(self.temp_file_path),
        }
    }
}

pub open spec fn strictly_increasing(indices: Seq<u64>) -> bool {
    forall|i: int, j: int| 0 <= i < j < indices.len() ==> indices[i] < indices[j]
}

pub open spec fn sorted(indices: Seq<u64>) -> bool {
    forall|i: int, j: int| 0 <= i <= j < indices.len() ==> indices[i] <= indices[j]
}

/// The first file of a manifest with this identifier.
pub open spec fn file_position(manifest: ManifestModel, file_id: u128, from: int) -> Option<int>
    decreases manifest.files.len() - from,
{
    if from < 0 || from >= manifest.files.len() {
        None
    } else if manifest.files[from].file_id == file_id {
        Some(from)
    } else {
        file_position(manifest, file_id, from + 1)
    }
}

impl ResumeModel {
    /// The remembered file is the manifest's, and the manifest is the transfer's.
    pub open spec fn matches_manifest(self, manifest: ManifestModel) -> bool {
        match file_position(manifest, self.file_id, 0) {
            None => false,
            Some(i) => {
                &&& manifest.transfer_id == self.transfer_id
                &&& manifest.files[i].size == self.file_size
                &&& manifest.files[i].digest == self.file_digest
            },
        }
    }

    pub open spec fn manifest_fault(self) -> Option<ResumeStateError> {
        match self.manifest {
            None => if self.request is Send {
                Some(ResumeStateError::InvalidManifest(ManifestError::Empty))
            } else {
                None
            },
            Some(manifest) => match manifest.fault() {
                Some(error) => Some(ResumeStateError::InvalidManifest(error)),
                None => if self.matches_manifest(manifest) {
                    None
                } else {
                    Some(ResumeStateError::FileNotInManifest)
                },
            },
        }
    }

    /// Completed chunks are chunks of the file, each named once, in order.
    pub open spec fn completed_chunks_valid(self) -> bool {
        &&& strictly_increasing(self.completed_chunks)
        &&& forall|i: int|
            0 <= i < self.completed_chunks.len() ==> (#[trigger] self.completed_chunks[i])
                < chunk_count(self.file_size, self.chunk_size)
    }

    /// What makes remembered metadata unusable, if anything.
    pub open spec fn fault(self) -> Option<ResumeStateError> {
        if self.schema_version != RESUME_SCHEMA_VERSION {
            Some(
                ResumeStateError::UnsupportedSchema {
                    found: self.schema_version,
                    expected: RESUME_SCHEMA_VERSION,
                },
            )
        } else if blank(self.backend) {
            Some(ResumeStateError::EmptyBackend)
        } else if self.backend_version matches Some(version) && version.len() == 0 {
            Some(ResumeStateError::EmptyBackendVersion)
        } else if !self.request.valid() {
            Some(ResumeStateError::InvalidRequest)
        } else if self.manifest_fault() is Some {
            self.manifest_fault()
        } else if self.chunk_size == 0 {
            Some(ResumeStateError::InvalidChunkSize)
        } else if self.temp_file_path matches Some(path) && sanitized(path) is Err {
            Some(ResumeStateError::InvalidTemporaryPath)
        } else if !self.completed_chunks_valid() {
            Some(ResumeStateError::InvalidCompletedChunks)
        } else {
            None
        }
    }
}

/// Where `value` stands in a sorted list, or where it belongs.
fn search(indices: &Vec<u64>, value: u64) -> (found: Result<usize, usize>)
    ensures
        match found {
            Ok(i) => i < indices@.len() && indices@[i as int] == value,
            Err(i) => i <= indices@.len() && (sorted(indices@) ==> {
                &&& forall|k: int| 0 <= k < i ==> indices@[k] < value
                &&& forall|k: int| i <= k < indices@.len() ==> indices@[k] > value
            }),
        },
{
    let mut low: usize = 0;
    let mut high: usize = indices.len();
    while low < high
        invariant
            low <= high <= indices@.len(),
            sorted(indices@) ==> {
                &&& forall|k: int| 0 <= k < low ==> indices@[k] < value
                &&& forall|k: int| high <= k < indices@.len() ==> indices@[k] > value
            },
        decreases high - low,
    {
        let middle: usize = low + (high - low) / 2;
        let current: u64 = indices[middle];
        if current == value {
            return Ok(middle);
        }
        if current < value {
            low = middle + 1;
        } else {
            high = middle;
        }
    }
    Err(low)
}

impl ResumeState {
    pub fn validate(&self) -> (result: Result<(), ResumeStateError>)
        ensures
            result == (match self@.fault() {
                Some(error) => Err(error),
                None => Ok::<(), ResumeStateError>(()),
            }),
    {
        if self.schema_version != RESUME_SCHEMA_VERSION {
            return Err(
                ResumeStateError::UnsupportedSchema {
                    found: self.schema_version,
                    expected: RESUME_SCHEMA_VERSION,
                },
            );
        }
        if is_blank(self.backend.as_str()) {
            return Err(ResumeStateError::EmptyBackend);
        }
        if let Some(version) = &self.backend_version {
            if is_empty_text(version.as_str()) {
                return Err(ResumeStateError::EmptyBackendVersion);
            }
        }
        self.request.validate()?;
        self.validate_manifest()?;
        if self.chunk_size == 0 {
            return Err(ResumeStateError::InvalidChunkSize);
        }
        if let Some(path) = &self.temp_file_path {
            if sanitize_relative_path(path.as_str()).is_err() {
                return Err(ResumeStateError::InvalidTemporaryPath);
            }
        }
        if !self.has_valid_chunks() {
            return Err(ResumeStateError::InvalidCompletedChunks);
        }
        Ok(())
    }

    fn validate_manifest(&self) -> (result: Result<(), ResumeStateError>)
        ensures
            result == (match self@.manifest_fault() {
                Some(error) => Err(error),
                None => Ok::<(), ResumeStateError>(()),
            }),
    {
        match &self.manifest {
            None => {
                if let ResumeRequest::Send { .. } = &self.request {
                    return Err(ResumeStateError::InvalidManifest(ManifestError::Empty));
                }
                Ok(())
            },
            Some(manifest) => {
                if let Err(error) = manifest.validate() {
                    return Err(ResumeStateError::InvalidManifest(error));
                }
                let mut i: usize = 0;
                while i < manifest.files.len()
                    invariant
                        i <= manifest.files@.len(),
                        self.manifest == Some(*manifest),
                        manifest@.fault() is None,
                        file_position(manifest@, self.file_id, 0) == file_position(
                            manifest@,
                            self.file_id,
                            i as int,
                        ),
                    decreases manifest.files@.len() - i,
                {
                    let file = &manifest.files[i];
                    assert(manifest@.files[i as int] == file@);
                    if file.file_id == self.file_id {
                        if !manifest.transfer_id.same(self.transfer_id) || file.size
                            != self.file_size || !same_optional_text(
                            &file.digest,
                            &self.file_digest,
                        ) {
                            return Err(ResumeStateError::FileNotInManifest);
                        }
                        return Ok(());
                    }
                    i = i + 1;
                }
                Err(ResumeStateError::FileNotInManifest)
            },
        }
    }

    fn has_valid_chunks(&self) -> (valid: bool)
        requires
            self.chunk_size > 0,
        ensures
            valid == self@.completed_chunks_valid(),
    {
        let count: u64 = if self.file_size == 0 {
            0
        } else {
            proof {
                vstd::arithmetic::div_mod::lemma_div_is_ordered_by_denominator(
                    (self.file_size - 1) as int,
                    1,
                    self.chunk_size as int,
                );
            }
            (self.file_size - 1) / self.chunk_size + 1
        };
        let mut i: usize = 0;
        while i < self.completed_chunks.len()
            invariant
                i <= self.completed_chunks@.len(),
                count as nat == chunk_count(self.file_size, self.chunk_size),
                strictly_increasing(self.completed_chunks@.take(i as int)),
                forall|k: int| 0 <= k < i ==> (#[trigger] self.completed_chunks@[k]) < count,
            decreases self.completed_chunks@.len() - i,
        {
            let index: u64 = self.completed_chunks[i];
            if index >= count {
                assert(self@.completed_chunks[i as int] >= count);
                return false;
            }
            if i > 0 && self.completed_chunks[i - 1] >= index {
                assert(self@.completed_chunks[i as int - 1] >= self@.completed_chunks[i as int]);
                return false;
            }
            proof {
                let seen = self.completed_chunks@.take(i as int);
                let next = self.completed_chunks@.take(i as int + 1);
                assert forall|a: int, b: int| 0 <= a < b < next.len() implies next[a] < next[b] by {
                    if b < i {
                        assert(seen[a] < seen[b]);
                    } else if a < i - 1 {
                        assert(seen[a] < seen[i as int - 1]);
                    }
                }
            }
            i = i + 1;
        }
        assert(self.completed_chunks@.take(i as int) =~= self.completed_chunks@);
        true
    }

    pub fn is_completed(&self, chunk_index: u64) -> (completed: bool)
        ensures
            completed ==> self@.completed_chunks.contains(chunk_index),
            sorted(self@.completed_chunks) ==> completed == self@.completed_chunks.contains(
                chunk_index,
            ),
    {
        match search(&self.completed_chunks, chunk_index) {
            Ok(i) => {
                assert(self.completed_chunks@[i as int] == chunk_index);
                true
            },
            Err(_) => false,
        }
    }

    /// Adds a chunk to the completed ones, at its place in their order.
    pub fn mark_completed(&mut self, chunk_index: u64)
        ensures
            final(self)@ == (ResumeModel {
                completed_chunks: final(self)@.completed_chunks,
                ..old(self)@
            }),
            final(self)@.completed_chunks.contains(chunk_index),
            sorted(old(self)@.completed_chunks) ==> {
                let before = old(self)@.completed_chunks;
                let after = final(self)@.completed_chunks;
                &&& before.contains(chunk_index) ==> after == before
                &&& !before.contains(chunk_index) ==> exists|i: int|
                    0 <= i <= before.len() && after == #[trigger] before.insert(i, chunk_index)
                &&& sorted(after)
                &&& strictly_increasing(before) ==> strictly_increasing(after)
            },
    {
        match search(&self.completed_chunks, chunk_index) {
            Ok(i) => {
                assert(self.completed_chunks@[i as int] == chunk_index);
            },
            Err(position) => {
                let ghost before = self.completed_chunks@;
                self.completed_chunks.insert(position, chunk_index);
                assert(self.completed_chunks@ == before.insert(position as int, chunk_index));
                assert(self.completed_chunks@[position as int] == chunk_index);
            },
        }
    }
}

/// Marking a chunk as completed keeps valid metadata valid, as long as it is a chunk of the file.
pub proof fn law_marking_keeps_metadata_valid(before: ResumeModel, after: ResumeModel, index: u64)
    requires
        before.fault() is None,
        index < chunk_count(before.file_size, before.chunk_size),
        after == (ResumeModel { completed_chunks: after.completed_chunks, ..before }),
        exists|i: int|
            0 <= i <= before.completed_chunks.len() && after.completed_chunks
                == #[trigger] before.completed_chunks.insert(i, index),
        strictly_increasing(after.completed_chunks),
    ensures
        after.fault() is None,
{
    let i = choose|i: int|
        0 <= i <= before.completed_chunks.len() && after.completed_chunks
            == #[trigger] before.completed_chunks.insert(i, index);
    assert forall|k: int| 0 <= k < after.completed_chunks.len() implies (
    #[trigger] after.completed_chunks[k]) < chunk_count(after.file_size, after.chunk_size) by {
        if k < i {
            assert(after.completed_chunks[k] == before.completed_chunks[k]);
        } else if k > i {
            assert(after.completed_chunks[k] == before.completed_chunks[k - 1]);
        }
    }
    if let Some(manifest) = before.manifest {
        assert(after.matches_manifest(manifest) == before.matches_manifest(manifest));
    }
}

proof fn lemma_first_position(manifest: ManifestModel, file_id: u128, from: int)
    requires
        0 <= from,
    ensures
        match file_position(manifest, file_id, from) {
            Some(i) => from <= i < manifest.files.len() && manifest.files[i].file_id == file_id
                && forall|k: int|
                from <= k < i ==> (#[trigger] manifest.files[k]).file_id != file_id,
            None => forall|k: int|
                from <= k < manifest.files.len() ==> (#[trigger] manifest.files[k]).file_id
                    != file_id,
        },
    decreases manifest.files.len() - from,
{
    if from < manifest.files.len() && manifest.files[from].file_id != file_id {
        lemma_first_position(manifest, file_id, from + 1);
    }
}

/// A file of a manifest goes by an identifier, before every other that does.
pub open spec fn goes_by(manifest: ManifestModel, i: int, file_id: u128) -> bool {
    &&& 0 <= i < manifest.files.len()
    &&& manifest.files[i].file_id == file_id
    &&& forall|k: int| 0 <= k < i ==> (#[trigger] manifest.files[k]).file_id != file_id
}

/// Metadata can be used exactly if it is of the present kind, names its backend and what was asked
/// for, belongs to a valid manifest of the same transfer, in which its file has the same size and
/// digest (only a receiver may know no manifest), counts in chunks, keeps its file in a safe place,
/// and names completed chunks that begin inside the file, each once and in order.
pub proof fn law_metadata_that_can_be_used(state: ResumeModel)
    ensures
        state.fault() is None <==> {
            &&& state.schema_version == 2
            &&& exists|i: int| 0 <= i < state.backend.len() && !is_space(#[trigger] state.backend[i])
            &&& state.backend_version matches Some(version) ==> version.len() > 0
            &&& match state.request {
                ResumeRequestModel::Send { source_paths } => source_paths.len() > 0 && forall|i: int|
                    0 <= i < source_paths.len() ==> (#[trigger] source_paths[i]).len() > 0,
                ResumeRequestModel::Receive { output_directory } => output_directory.len() > 0,
            }
            &&& match state.manifest {
                None => state.request is Receive,
                Some(manifest) => manifest.fault() is None && manifest.transfer_id
                    == state.transfer_id && exists|i: int| #[trigger]
                    goes_by(manifest, i, state.file_id) && manifest.files[i].size == state.file_size
                        && manifest.files[i].digest == state.file_digest,
            }
            &&& state.chunk_size > 0
            &&& state.temp_file_path matches Some(path) ==> sanitized(path) is Ok
            &&& forall|i: int, j: int|
                0 <= i < j < state.completed_chunks.len() ==> state.completed_chunks[i]
                    < state.completed_chunks[j]
            &&& forall|i: int|
                0 <= i < state.completed_chunks.len() ==> (#[trigger] state.completed_chunks[i])
                    * state.chunk_size < state.file_size
        },
{
    if let Some(manifest) = state.manifest {
        lemma_first_position(manifest, state.file_id, 0);
        if let Some(i) = file_position(manifest, state.file_id, 0) {
            assert(goes_by(manifest, i, state.file_id));
            assert forall|j: int| #[trigger] goes_by(manifest, j, state.file_id) implies j == i by {
                if j < i {
                    assert(manifest.files[j].file_id != state.file_id);
                }
                if i < j {
                    assert(manifest.files[i].file_id != state.file_id);
                }
            }
        } else {
            assert forall|j: int| !(#[trigger] goes_by(manifest, j, state.file_id)) by {
                if goes_by(manifest, j, state.file_id) {
                    assert(manifest.files[j].file_id != state.file_id);
                }
            }
        }
    }
    if state.chunk_size > 0 {
        assert forall|i: int| 0 <= i < state.completed_chunks.len() implies ((
        #[trigger] state.completed_chunks[i]) < chunk_count(state.file_size, state.chunk_size)) == (
        state.completed_chunks[i] * state.chunk_size < state.file_size) by {
            lemma_inside_the_file(
                state.completed_chunks[i] as nat,
                state.file_size,
                state.chunk_size,
            );
        }
        if state.fault() is None {
            assert forall|i: int| 0 <= i < state.completed_chunks.len() implies (
            #[trigger] state.completed_chunks[i]) * state.chunk_size < state.file_size by {
                assert(state.completed_chunks[i] < chunk_count(state.file_size, state.chunk_size));
            }
        }
    }
}

/// A chunk is one of a file exactly if it begins inside the file.
proof fn lemma_inside_the_file(index: nat, file_size: u64, chunk_size: u64)
    requires
        chunk_size > 0,
    ensures
        index < chunk_count(file_size, chunk_size) <==> index * chunk_size < file_size,
{
    if file_size > 0 {
        let last = (file_size - 1) as int;
        let whole = last / chunk_size as int;
        vstd::arithmetic::div_mod::lemma_fundamental_div_mod(last, chunk_size as int);
        vstd::arithmetic::div_mod::lemma_mod_bound(last, chunk_size as int);
        if index <= whole {
            assert(index * chunk_size <= chunk_size * whole) by (nonlinear_arith)
                requires
                    index <= whole,
                    chunk_size > 0,
            ;
        } else {
            assert(index * chunk_size >= chunk_size * whole + chunk_size) by (nonlinear_arith)
                requires
                    index >= whole + 1,
                    chunk_size > 0,
            ;
        }
    } else {
        assert(index * chunk_size >= 0) by (nonlinear_arith);
    }
}

} // verus!
