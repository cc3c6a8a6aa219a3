//! Where what is remembered of interrupted transfers is kept, and what is found there.
use vstd::prelude::*;
use crate::destination::{components_fault, validate_destination_components, Ancestor};
use crate::ident::{
    hyphenated, law_id_text_is_plain, law_ids_are_in_the_order_of_their_texts, TransferId,
};
use crate::io_kind::IoErrorKind;
use crate::resume::{ResumeModel, ResumeRequest, ResumeRequestModel, ResumeState, ResumeStateError};
use crate::scan::{ends_with, finishes_with};
use crate::settings::{below, join_path};
use crate::source_scan::EntryKind;
use crate::staging::{is_receive_staging_path, staging_path};
use crate::text::chars_of;

verus! {

#[derive(Debug, Clone, Copy, PartialEq, Eq, Structural)]
pub enum StorageError {
    Io(IoErrorKind),
    Serialization,
    InvalidResume(ResumeStateError),
}

impl StorageError {
    pub fn message(self) -> (text: &'static str)
        ensures
            text@ == match self {
                StorageError::Io(_) => "storage I/O failed"@,
                StorageError::Serialization => "storage serialization failed"@,
                StorageError::InvalidResume(_) => "resume metadata is invalid"@,
            },
    {
        match self {
            Self::Io(_) => "storage I/O failed",
            Self::Serialization => "storage serialization failed",
            Self::InvalidResume(_) => "resume metadata is invalid",
        }
    }
}

/// What reading one file of remembered metadata gave.
pub enum ResumeRead {
    Missing,
    Failed(IoErrorKind),
    Unparsable,
    Parsed(ResumeState),
}

#[verifier::ext_equal]
pub enum ReadModel {
    Missing,
    Failed(IoErrorKind),
    Unparsable,
    Parsed(ResumeModel),
}

impl View for ResumeRead {
    type V = ReadModel;

    open spec fn view(&self) -> ReadModel {
        match *self {
            ResumeRead::Missing => ReadModel::Missing,
            ResumeRead::Failed(kind) => ReadModel::Failed(kind),
            ResumeRead::Unparsable => ReadModel::Unparsable,
            ResumeRead::Parsed(state) => ReadModel::Parsed(state@),
        }
    }
}

pub open spec fn read_models(reads: Seq<ResumeRead>) -> Seq<ReadModel> {
    reads.map_values(|read: ResumeRead| read@)
}

pub open spec fn state_models(states: Seq<ResumeState>) -> Seq<ResumeModel> {
    states.map_values(|state: ResumeState| state@)
}

/// What a read of one transfer's metadata says: nothing, valid metadata, or an error.
pub open spec fn loaded(read: ReadModel) -> Result<Option<ResumeModel>, StorageError> {
    match read {
        ReadModel::Missing => Ok(None),
        ReadModel::Failed(kind) => Err(StorageError::Io(kind)),
        ReadModel::Unparsable => Err(StorageError::Serialization),
        ReadModel::Parsed(state) => match state.fault() {
            Some(error) => Err(StorageError::InvalidResume(error)),
            None => Ok(Some(state)),
        },
    }
}

pub open spec fn optional_state(state: Option<ResumeState>) -> Option<ResumeModel> {
    match state {
        Some(state) => Some(state@),
        None => None,
    }
}

/// How writing metadata goes: beside the old file first, then in its place.
#[derive(Debug, Clone, Copy, PartialEq, Eq, Structural)]
pub enum SaveStage {
    CreateRoot,
    WriteTemporary,
    Rename,
    RemoveOld,
    RenameAgain,
    Saved,
}

impl SaveStage {
    /// The stage after this one, as it came out. A rename that does not replace is tried once more
    /// after removing what is in its way.
    pub open spec fn after(self, outcome: Result<(), StorageError>) -> Result<
        SaveStage,
        StorageError,
    > {
        match outcome {
            Err(error) => if self == SaveStage::Rename && error == StorageError::Io(
                IoErrorKind::AlreadyExists,
            ) {
                Ok(SaveStage::RemoveOld)
            } else {
                Err(error)
            },
            Ok(_) => Ok(
                match self {
                    SaveStage::CreateRoot => SaveStage::WriteTemporary,
                    SaveStage::WriteTemporary => SaveStage::Rename,
                    SaveStage::Rename => SaveStage::Saved,
                    SaveStage::RemoveOld => SaveStage::RenameAgain,
                    SaveStage::RenameAgain => SaveStage::Saved,
                    SaveStage::Saved => SaveStage::Saved,
                },
            ),
        }
    }

    pub fn next(self, outcome: Result<(), StorageError>) -> (result: Result<Self, StorageError>)
        ensures
            result == self.after(outcome),
    {
        match outcome {
            Err(error) => match (self, error) {
                (SaveStage::Rename, StorageError::Io(IoErrorKind::AlreadyExists)) => Ok(
                    SaveStage::RemoveOld,
                ),
                _ => Err(error),
            },
            Ok(()) => Ok(
                match self {
                    SaveStage::CreateRoot => SaveStage::WriteTemporary,
                    SaveStage::WriteTemporary => SaveStage::Rename,
                    SaveStage::Rename => SaveStage::Saved,
                    SaveStage::RemoveOld => SaveStage::RenameAgain,
                    SaveStage::RenameAgain => SaveStage::Saved,
                    SaveStage::Saved => SaveStage::Saved,
                },
            ),
        }
    }
}

#[derive(Clone)]
pub struct JsonStore {
    root: String,
}

impl JsonStore {
    pub closed spec fn root_spec(self) -> Seq<char> {
        self.root@
    }

    pub fn new(root: String) -> (store: Self)
        ensures
            store.root_spec() == root@,
    {
        Self { root }
    }

    pub fn root(&self) -> (root: &str)
        ensures
            root@ == self.root_spec(),
    {
        self.root.as_str()
    }

    pub open spec fn path_of(self, id: TransferId) -> Seq<char> {
        below(self.root_spec(), hyphenated(id.bits()) + ".resume.json"@)
    }

    pub open spec fn temporary_path_of(self, id: TransferId) -> Seq<char> {
        below(self.root_spec(), hyphenated(id.bits()) + ".resume.resume.json.tmp"@)
    }

    /// The file that a transfer's metadata is kept in.
    pub fn resume_path(&self, transfer_id: TransferId) -> (path: String)
        ensures
            path@ == self.path_of(transfer_id),
    {
        let mut name = transfer_id.to_text();
        name.append(".resume.json");
        join_path(self.root.as_str(), name.as_str())
    }

    /// The file that metadata is written to before it takes its place.
    pub fn temporary_path(&self, transfer_id: TransferId) -> (path: String)
        ensures
            path@ == self.temporary_path_of(transfer_id),
    {
        let mut name = transfer_id.to_text();
        name.append(".resume.resume.json.tmp");
        join_path(self.root.as_str(), name.as_str())
    }

    /// Only valid metadata is written.
    pub fn save_resume(&self, state: &ResumeState) -> (result: Result<SaveStage, StorageError>)
        ensures
            result == (match state@.fault() {
                Some(error) => Err(StorageError::InvalidResume(error)),
                None => Ok::<SaveStage, StorageError>(SaveStage::CreateRoot),
            }),
    {
        match state.validate() {
            Err(error) => Err(StorageError::InvalidResume(error)),
            Ok(()) => Ok(SaveStage::CreateRoot),
        }
    }

    /// Only valid metadata is given out.
    pub fn load_resume(&self, read: ResumeRead) -> (result: Result<Option<ResumeState>, StorageError>)
        ensures
            match loaded(read@) {
                Ok(state) => result matches Ok(found) && optional_state(found) == state,
                Err(error) => result == Err::<Option<ResumeState>, StorageError>(error),
            },
    {
        match read {
            ResumeRead::Missing => Ok(None),
            ResumeRead::Failed(kind) => Err(StorageError::Io(kind)),
            ResumeRead::Unparsable => Err(StorageError::Serialization),
            ResumeRead::Parsed(state) => match state.validate() {
                Err(error) => Err(StorageError::InvalidResume(error)),
                Ok(()) => Ok(Some(state)),
            },
        }
    }

    /// Where the partial output that metadata speaks of lies: in the destination, where it is a
    /// staging directory there and the way to it is sound; else below the store's own directory.
    pub open spec fn partial_path_of(self, state: ResumeModel, ancestors: Seq<Ancestor>) -> Option<
        Seq<char>,
    > {
        match state.temp_file_path {
            None => None,
            Some(path) => match state.request {
                ResumeRequestModel::Receive { output_directory } => if staging_path(path)
                    && components_fault(output_directory, ancestors) is None {
                    Some(below(output_directory, path))
                } else {
                    Some(below(self.root_spec(), path))
                },
                ResumeRequestModel::Send { .. } => Some(below(self.root_spec(), path)),
            },
        }
    }

    /// What removing one of the two files of some metadata came to.
    pub fn remove_resume(&self, outcome: Result<(), IoErrorKind>) -> (result: Result<
        (),
        StorageError,
    >)
        ensures
            result == removed(outcome),
    {
        match outcome {
            Ok(()) => Ok(()),
            Err(kind) => match kind {
                IoErrorKind::NotFound => Ok(()),
                _ => Err(StorageError::Io(kind)),
            },
        }
    }

    /// What to remove before metadata is discarded. Metadata that cannot be read or used names
    /// nothing; only a failure to read it is an error. `ancestors` are the steps to the directory
    /// that the metadata receives to.
    pub fn discard_resume(
        &self,
        loaded: &Result<Option<ResumeState>, StorageError>,
        ancestors: &Vec<Ancestor>,
    ) -> (result: Result<Option<String>, StorageError>)
        ensures
            match *loaded {
                Err(StorageError::Io(kind)) => result == Err::<Option<String>, StorageError>(
                    StorageError::Io(kind),
                ),
                Err(_) | Ok(None) => result == Ok::<Option<String>, StorageError>(None),
                Ok(Some(state)) => match self.partial_path_of(state@, ancestors@) {
                    None => result == Ok::<Option<String>, StorageError>(None),
                    Some(path) => result matches Ok(Some(found)) && found@ == path,
                },
            },
    {
        match loaded {
            Err(StorageError::Io(kind)) => Err(StorageError::Io(*kind)),
            Err(_) => Ok(None),
            Ok(None) => Ok(None),
            Ok(Some(state)) => match &state.temp_file_path {
                None => Ok(None),
                Some(path) => {
                    if let ResumeRequest::Receive { output_directory } = &state.request {
                        if is_receive_staging_path(path.as_str()) {
                            if let Ok(()) = validate_destination_components(
                                output_directory.as_str(),
                                ancestors,
                            ) {
                                return Ok(
                                    Some(join_path(output_directory.as_str(), path.as_str())),
                                );
                            }
                        }
                    }
                    Ok(Some(join_path(self.root.as_str(), path.as_str())))
                },
            },
        }
    }

    /// Puts together what the files of a store gave. A store that is not there holds nothing.
    pub fn discover_resumes(&self, listing: Result<Vec<ResumeRead>, IoErrorKind>) -> (result:
        Result<ResumeDiscovery, StorageError>)
        ensures
            match listing {
                Err(kind) => if kind == IoErrorKind::NotFound {
                    result matches Ok(discovery) && discovery.recoverable_spec().len() == 0
                        && discovery.invalid_spec() == 0
                } else {
                    result == Err::<ResumeDiscovery, StorageError>(StorageError::Io(kind))
                },
                Ok(reads) => match collected(read_models(reads@)) {
                    Err(error) => result == Err::<ResumeDiscovery, StorageError>(error),
                    Ok(model) => result matches Ok(discovery) && discovery.recoverable_spec()
                        == by_id(model.found) && discovery.invalid_spec() == model.invalid_count,
                },
            },
    {
        let mut reads = match listing {
            Ok(reads) => reads,
            Err(IoErrorKind::NotFound) => {
                return Ok(ResumeDiscovery { recoverable: Vec::new(), invalid_count: 0 });
            },
            Err(kind) => {
                return Err(StorageError::Io(kind));
            },
        };
        let ghost models = read_models(reads@);
        ResumeDiscovery::reverse(&mut reads);
        let total: usize = reads.len();
        let mut recoverable: Vec<ResumeState> = Vec::new();
        let mut invalid_count: usize = 0;
        let mut done: usize = 0;
        assert(models.take(0) =~= Seq::empty());
        assert(state_models(recoverable@) =~= by_id(Seq::empty()));
        while done < total
            invariant
                done <= total,
                listing matches Ok(all) && models == read_models(all@),
                total == models.len(),
                reads@.len() == total - done,
                forall|i: int|
                    0 <= i < reads@.len() ==> #[trigger] reads@[i]@ == models[total - 1 - i],
                collected(models.take(done as int)) matches Ok(so_far) && state_models(recoverable@)
                    == by_id(so_far.found) && invalid_count == so_far.invalid_count
                    && invalid_count <= done,
            decreases total - done,
        {
            let ghost so_far = collected(models.take(done as int))->Ok_0;
            let ghost next = models.take(done as int + 1);
            assert(next.drop_last() =~= models.take(done as int));
            assert(next.last() == models[done as int]);
            proof {
                lemma_error_stays(models, done as int + 1);
            }
            match reads.pop() {
                None => {},
                Some(read) => {
                    assert(read@ == models[done as int]);
                    match read {
                        ResumeRead::Missing => {},
                        ResumeRead::Failed(kind) => {
                            return Err(StorageError::Io(kind));
                        },
                        ResumeRead::Unparsable => {
                            invalid_count = invalid_count + 1;
                        },
                        ResumeRead::Parsed(state) => {
                            if state.validate().is_ok() {
                                let ghost state_model = state@;
                                ResumeDiscovery::place(&mut recoverable, state);
                                proof {
                                    let found = so_far.found.push(state_model);
                                    assert(found.drop_last() =~= so_far.found);
                                    assert(found.last() == state_model);
                                }
                            } else {
                                invalid_count = invalid_count + 1;
                            }
                        },
                    }
                },
            }
            done = done + 1;
        }
        assert(models.take(total as int) =~= models);
        Ok(ResumeDiscovery { recoverable, invalid_count })
    }
}

/// What removing a file that may be gone already came to.
pub open spec fn removed(outcome: Result<(), IoErrorKind>) -> Result<(), StorageError> {
    match outcome {
        Ok(_) => Ok(()),
        Err(kind) => if kind == IoErrorKind::NotFound {
            Ok(())
        } else {
            Err(StorageError::Io(kind))
        },
    }
}

/// How partial output is removed.
#[derive(Debug, Clone, Copy, PartialEq, Eq, Structural)]
pub enum PartialStep {
    RemoveTree,
    RemoveFile,
    Nothing,
}

/// A directory goes with all that is in it; a link goes alone.
pub open spec fn partial_step(found: Result<EntryKind, IoErrorKind>) -> Result<
    PartialStep,
    StorageError,
> {
    match found {
        Ok(kind) => if kind == EntryKind::Directory {
            Ok(PartialStep::RemoveTree)
        } else {
            Ok(PartialStep::RemoveFile)
        },
        Err(kind) => if kind == IoErrorKind::NotFound {
            Ok(PartialStep::Nothing)
        } else {
            Err(StorageError::Io(kind))
        },
    }
}

pub fn plan_partial_removal(found: Result<EntryKind, IoErrorKind>) -> (result: Result<
    PartialStep,
    StorageError,
>)
    ensures
        result == partial_step(found),
{
    match found {
        Ok(kind) => match kind {
            EntryKind::Directory => Ok(PartialStep::RemoveTree),
            _ => Ok(PartialStep::RemoveFile),
        },
        Err(kind) => match kind {
            IoErrorKind::NotFound => Ok(PartialStep::Nothing),
            _ => Err(StorageError::Io(kind)),
        },
    }
}

/// A file name that metadata is kept under.
pub fn is_resume_file(name: &str) -> (is: bool)
    ensures
        is == finishes_with(name@, ".resume.json"@),
{
    let chars = chars_of(name);
    let suffix = chars_of(".resume.json");
    ends_with(&chars, &suffix)
}

/// A state put behind all those that do not come after it.
pub open spec fn placed(states: Seq<ResumeModel>, state: ResumeModel) -> Seq<ResumeModel>
    decreases states.len(),
{
    if states.len() == 0 || states.last().transfer_id.bits() <= state.transfer_id.bits() {
        states.push(state)
    } else {
        placed(states.drop_last(), state).push(states.last())
    }
}

/// What was found, in the order of the identifiers; equal ones stay in the order they were found.
pub open spec fn by_id(found: Seq<ResumeModel>) -> Seq<ResumeModel>
    decreases found.len(),
{
    if found.len() == 0 {
        found
    } else {
        placed(by_id(found.drop_last()), found.last())
    }
}

#[verifier::ext_equal]
pub struct DiscoveryModel {
    pub found: Seq<ResumeModel>,
    pub invalid_count: nat,
}

/// Valid metadata in the order it was read, and how many files hold something else. Files that are
/// gone are passed over; the first one that cannot be read is an error.
pub open spec fn collected(reads: Seq<ReadModel>) -> Result<DiscoveryModel, StorageError>
    decreases reads.len(),
{
    if reads.len() == 0 {
        Ok(DiscoveryModel { found: Seq::empty(), invalid_count: 0 })
    } else {
        match collected(reads.drop_last()) {
            Err(error) => Err(error),
            Ok(so_far) => match reads.last() {
                ReadModel::Missing => Ok(so_far),
                ReadModel::Failed(kind) => Err(StorageError::Io(kind)),
                ReadModel::Unparsable => Ok(
                    DiscoveryModel { invalid_count: so_far.invalid_count + 1, ..so_far },
                ),
                ReadModel::Parsed(state) => if state.fault() is None {
                    Ok(DiscoveryModel { found: so_far.found.push(state), ..so_far })
                } else {
                    Ok(DiscoveryModel { invalid_count: so_far.invalid_count + 1, ..so_far })
                },
            },
        }
    }
}

/// Interrupted transfers that can be gone on with.
#[derive(Clone, PartialEq, Eq)]
pub struct ResumeDiscovery {
    recoverable: Vec<ResumeState>,
    invalid_count: usize,
}

impl ResumeDiscovery {
    pub closed spec fn recoverable_spec(self) -> Seq<ResumeModel> {
        state_models(self.recoverable@)
    }

    pub closed spec fn invalid_spec(self) -> usize {
        self.invalid_count
    }

    pub fn recoverable(&self) -> (states: &[ResumeState])
        ensures
            state_models(states@) == self.recoverable_spec(),
    {
        self.recoverable.as_slice()
    }

    pub fn invalid_count(&self) -> (count: usize)
        ensures
            count == self.invalid_spec(),
    {
        self.invalid_count
    }

    fn reverse(reads: &mut Vec<ResumeRead>)
        ensures
            final(reads)@ == old(reads)@.reverse(),
    {
        let mut reversed: Vec<ResumeRead> = Vec::new();
        let ghost before = reads@;
        while reads.len() > 0
            invariant
                reads@.len() + reversed@.len() == before.len(),
                reads@ == before.take(reads@.len() as int),
                reversed@ == before.skip(reads@.len() as int).reverse(),
            decreases reads@.len(),
        {
            let ghost left = reads@.len() as int;
            if let Some(read) = reads.pop() {
                reversed.push(read);
                assert(before.skip(left - 1).reverse() =~= before.skip(left).reverse().push(
                    before[left - 1],
                ));
            }
        }
        assert(before.skip(0) =~= before);
        *reads = reversed;
    }

    fn place(states: &mut Vec<ResumeState>, state: ResumeState)
        ensures
            state_models(final(states)@) == placed(state_models(old(states)@), state@),
    {
        let ghost models = state_models(states@);
        let ghost old_states = states@;
        let ghost model = state@;
        let mut at: usize = states.len();
        while at > 0 && state.transfer_id.as_uuid() < states[at - 1].transfer_id.as_uuid()
            invariant
                at <= states@.len(),
                states@ == old_states,
                models == state_models(states@),
                model == state@,
                forall|k: int|
                    at <= k < models.len() ==> model.transfer_id.bits()
                        < (#[trigger] models[k]).transfer_id.bits(),
            decreases at,
        {
            assert(models[at - 1] == states@[at - 1]@);
            at = at - 1;
        }
        proof {
            if at > 0 {
                assert(models[at - 1] == states@[at - 1]@);
            }
            lemma_placed(models, model, at as int);
        }
        states.insert(at, state);
        assert(state_models(states@) =~= models.insert(at as int, model));
    }
}

proof fn lemma_placed(states: Seq<ResumeModel>, state: ResumeModel, at: int)
    requires
        0 <= at <= states.len(),
        forall|k: int|
            at <= k < states.len() ==> state.transfer_id.bits()
                < (#[trigger] states[k]).transfer_id.bits(),
        at == 0 || states[at - 1].transfer_id.bits() <= state.transfer_id.bits(),
    ensures
        placed(states, state) == states.insert(at, state),
    decreases states.len(),
{
    if at == states.len() {
        assert(states.insert(at, state) =~= states.push(state));
    } else {
        let rest = states.drop_last();
        assert(forall|k: int| 0 <= k < rest.len() ==> rest[k] == states[k]);
        lemma_placed(rest, state, at);
        assert(states.insert(at, state) =~= rest.insert(at, state).push(states.last()));
    }
}

/// A read that failed stays an error, whatever comes after it.
proof fn lemma_error_stays(reads: Seq<ReadModel>, done: int)
    requires
        0 <= done <= reads.len(),
    ensures
        collected(reads.take(done)) is Err ==> collected(reads) == collected(reads.take(done)),
    decreases reads.len() - done,
{
    if done == reads.len() {
        assert(reads.take(done) =~= reads);
    } else {
        lemma_error_stays(reads, done + 1);
        assert(reads.take(done + 1).drop_last() =~= reads.take(done));
    }
}

/// What is found is in the order of the identifiers.
pub open spec fn ids_ascend(states: Seq<ResumeModel>) -> bool {
    forall|i: int, j: int|
        0 <= i < j < states.len() ==> (#[trigger] states[i]).transfer_id.bits() <= (
        #[trigger] states[j]).transfer_id.bits()
}

proof fn lemma_placed_ascends(states: Seq<ResumeModel>, state: ResumeModel)
    requires
        ids_ascend(states),
    ensures
        ids_ascend(placed(states, state)),
        placed(states, state).to_multiset() == states.to_multiset().insert(state),
        placed(states, state).len() == states.len() + 1,
        forall|k: int|
            0 <= k < placed(states, state).len() ==> #[trigger] placed(states, state)[k] == state
                || states.contains(placed(states, state)[k]),
    decreases states.len(),
{
    broadcast use vstd::seq_lib::group_to_multiset_ensures;

    if states.len() > 0 && state.transfer_id.bits() < states.last().transfer_id.bits() {
        let rest = states.drop_last();
        lemma_placed_ascends(rest, state);
        let inner = placed(rest, state);
        let whole = inner.push(states.last());
        assert(rest.push(states.last()) =~= states);
        assert forall|k: int| 0 <= k < whole.len() implies #[trigger] whole[k] == state
            || states.contains(whole[k]) by {
            if k < inner.len() {
                assert(whole[k] == inner[k]);
                if rest.contains(inner[k]) {
                    let at = choose|at: int| 0 <= at < rest.len() && rest[at] == inner[k];
                    assert(states[at] == inner[k]);
                }
            } else {
                assert(states[states.len() - 1] == whole[k]);
            }
        }
        assert forall|i: int, j: int| 0 <= i < j < whole.len() implies (
        #[trigger] whole[i]).transfer_id.bits() <= (#[trigger] whole[j]).transfer_id.bits() by {
            assert(whole[i] == inner[i]);
            if j < inner.len() {
                assert(whole[j] == inner[j]);
            } else if inner[i] != state {
                let at = choose|at: int| 0 <= at < rest.len() && rest[at] == inner[i];
                assert(states[at] == rest[at]);
            }
        }
        assert(whole.to_multiset() =~= states.to_multiset().insert(state));
    } else {
        let whole = states.push(state);
        assert forall|k: int| 0 <= k < whole.len() implies #[trigger] whole[k] == state
            || states.contains(whole[k]) by {
            if k < states.len() {
                assert(states[k] == whole[k]);
            }
        }
    }
}

/// Discovery gives every transfer that was found, and each as often as it was found, in the order
/// of the identifiers.
pub proof fn law_discovery_is_in_order(found: Seq<ResumeModel>)
    ensures
        ids_ascend(by_id(found)),
        by_id(found).to_multiset() == found.to_multiset(),
    decreases found.len(),
{
    broadcast use vstd::seq_lib::group_to_multiset_ensures;

    if found.len() > 0 {
        law_discovery_is_in_order(found.drop_last());
        lemma_placed_ascends(by_id(found.drop_last()), found.last());
        assert(found.drop_last().push(found.last()) =~= found);
    }
}

/// All that discovery gives is valid, and every file counts once: as a transfer, as invalid, or as
/// gone.
pub proof fn law_discovery_is_valid(reads: Seq<ReadModel>)
    requires
        collected(reads) is Ok,
    ensures
        forall|i: int|
            0 <= i < collected(reads)->Ok_0.found.len() ==> (
            #[trigger] collected(reads)->Ok_0.found[i]).fault() is None,
        collected(reads)->Ok_0.found.len() + collected(reads)->Ok_0.invalid_count + reads.filter(
            |read: ReadModel| read is Missing,
        ).len() == reads.len(),
    decreases reads.len(),
{
    reveal(Seq::filter);
    if reads.len() > 0 {
        law_discovery_is_valid(reads.drop_last());
    }
}

/// What is saved is found again: valid metadata loads as itself.
pub proof fn law_saved_metadata_loads(state: ResumeModel)
    requires
        state.fault() is None,
    ensures
        loaded(ReadModel::Parsed(state)) == Ok::<Option<ResumeModel>, StorageError>(Some(state)),
{
}

/// Every transfer has a file of its own for its metadata, and another for while it is written.
pub proof fn law_transfers_have_their_own_files(
    store: JsonStore,
    first: TransferId,
    second: TransferId,
)
    ensures
        store.path_of(first) == store.path_of(second) ==> first.bits() == second.bits(),
        store.temporary_path_of(first) == store.temporary_path_of(second) ==> first.bits()
            == second.bits(),
        store.path_of(first) != store.temporary_path_of(second),
{
    reveal_strlit(".resume.json");
    reveal_strlit(".resume.resume.json.tmp");
    law_id_text_is_plain(first.bits());
    law_id_text_is_plain(second.bits());
    law_ids_are_in_the_order_of_their_texts(first.bits(), second.bits());
    let (a, b) = (hyphenated(first.bits()), hyphenated(second.bits()));
    let (kept, written) = (".resume.json"@, ".resume.resume.json.tmp"@);
    let from = store.path_of(first).len() - (a + kept).len();
    if store.path_of(first) == store.path_of(second) {
        assert(store.path_of(first).subrange(from, from + 36) =~= a);
        assert(store.path_of(second).subrange(from, from + 36) =~= b);
    }
    if store.temporary_path_of(first) == store.temporary_path_of(second) {
        assert(store.temporary_path_of(first).subrange(from, from + 36) =~= a);
        assert(store.temporary_path_of(second).subrange(from, from + 36) =~= b);
    }
    assert(store.path_of(first).len() != store.temporary_path_of(second).len());
}

} // verus!
