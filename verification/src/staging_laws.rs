//! How received output is checked, published and cleaned up, and how metadata is kept.
use vstd::prelude::*;
use crate::destination::{components_fault, Ancestor, DestinationError};
use crate::finalize::{FinalizeAnswer, FinalizeModel, FinalizeQuestion};
use crate::ident::TransferId;
use crate::io_kind::IoErrorKind;
use crate::resume::{texts, ResumeModel, ResumeRequestModel};
use crate::resume_store::{
    collected, loaded, partial_step, removed, JsonStore, PartialStep, ReadModel, SaveStage,
    StorageError,
};
use crate::settings::below;
use crate::source_scan::EntryKind;
use crate::source_walk::Listed;
use crate::staging::{
    cleanup_step, staging_name_of, staging_named, staging_path, staging_root_fault, CleanupStep,
    Publication, PublishStage, PublishStep, ReceiveFinalizeReport, ReceiveStaging,
    ReceiveStagingError, TreeAnswer, TreeModel,
};

verus! {

/// Where a publication stands after a number of steps that went well.
pub open spec fn went_well(publication: Publication, steps: nat) -> Publication
    decreases steps,
{
    if steps == 0 {
        publication
    } else {
        went_well(publication, (steps - 1) as nat).after(Ok(()))
    }
}

/// Entries are published one by one, in order; after the last one the staging directory is removed,
/// and then the publication has succeeded, whether or not that could be done.
pub proof fn law_publication_goes_through(count: usize, steps: nat, last: Result<(), IoErrorKind>)
    requires
        count > 0,
        steps <= count,
    ensures
        ({
            let start = Publication { count, visible: 0, stage: PublishStage::Publishing };
            let now = went_well(start, steps);
            &&& now.visible == steps
            &&& now.count == count
            &&& steps < count ==> now.step_spec() == (PublishStep::Publish {
                entry: steps as usize,
            })
            &&& steps == count ==> now.step_spec() == PublishStep::RemoveStaging
            &&& steps == count ==> now.after(last).step_spec() == PublishStep::Finished(
                Ok(ReceiveFinalizeReport::of(last is Err)),
            )
        }),
    decreases steps,
{
    if steps > 0 {
        law_publication_goes_through(count, (steps - 1) as nat, last);
    }
}

/// Why an entry could not be published.
pub open spec fn publish_cause(kind: IoErrorKind) -> ReceiveStagingError {
    if kind == IoErrorKind::AlreadyExists {
        ReceiveStagingError::Conflict
    } else {
        ReceiveStagingError::Io(kind)
    }
}

/// Where an entry cannot be published, those before it are taken back, from the last to the first,
/// and then the publication has failed for the reason that the entry gave. One that cannot be taken
/// back is told.
pub proof fn law_failed_publications_are_taken_back(
    count: usize,
    visible: usize,
    kind: IoErrorKind,
    other: IoErrorKind,
    steps: nat,
)
    requires
        visible < count,
        steps <= visible,
    ensures
        ({
            let publishing = Publication { count, visible, stage: PublishStage::Publishing };
            let failed = publishing.after(Err(kind));
            let now = went_well(failed, steps);
            &&& now.visible == visible - steps
            &&& steps < visible ==> now.step_spec() == (PublishStep::TakeBack {
                entry: (visible - steps - 1) as usize,
            })
            &&& steps == visible ==> now.step_spec() == PublishStep::Finished(
                Err(publish_cause(kind)),
            )
            &&& steps < visible ==> now.after(Err(other)).step_spec() == PublishStep::Finished(
                Err(ReceiveStagingError::Rollback(other)),
            )
        }),
{
    lemma_taken_back(count, visible, kind, steps);
}

proof fn lemma_taken_back(count: usize, visible: usize, kind: IoErrorKind, steps: nat)
    requires
        visible < count,
        steps <= visible,
    ensures
        ({
            let publishing = Publication { count, visible, stage: PublishStage::Publishing };
            let now = went_well(publishing.after(Err(kind)), steps);
            &&& now.visible == visible - steps
            &&& steps < visible ==> now.stage == (PublishStage::TakingBack {
                cause: publish_cause(kind),
            })
            &&& steps == visible ==> now.stage == (PublishStage::Finished {
                outcome: Err(publish_cause(kind)),
            })
        }),
    decreases steps,
{
    if steps > 0 {
        lemma_taken_back(count, visible, kind, (steps - 1) as nat);
    }
}

/// A staging directory that is not needed any more is removed with all that is in it; one that is
/// gone needs nothing, and one that became a link is left alone.
pub proof fn law_staging_is_cleaned_up(kind: IoErrorKind)
    ensures
        cleanup_step(Ok(EntryKind::Directory)) == Ok::<CleanupStep, ReceiveStagingError>(
            CleanupStep::RemoveTree,
        ),
        cleanup_step(Ok(EntryKind::Symlink)) == Err::<CleanupStep, ReceiveStagingError>(
            ReceiveStagingError::SymlinkOutput,
        ),
        cleanup_step(Err(IoErrorKind::NotFound)) == Ok::<CleanupStep, ReceiveStagingError>(
            CleanupStep::Nothing,
        ),
        kind != IoErrorKind::NotFound ==> cleanup_step(Err(kind)) == Err::<
            CleanupStep,
            ReceiveStagingError,
        >(ReceiveStagingError::Io(kind)),
{
}

/// Only a directory will do for staging.
pub proof fn law_staging_is_a_directory(found: Result<EntryKind, IoErrorKind>)
    ensures
        staging_root_fault(found) is None <==> found == Ok::<EntryKind, IoErrorKind>(
            EntryKind::Directory,
        ),
        found matches Err(kind) ==> staging_root_fault(found) == Some(
            ReceiveStagingError::Io(kind),
        ),
        found matches Ok(kind) && kind != EntryKind::Directory ==> staging_root_fault(found)
            == Some(ReceiveStagingError::SymlinkOutput),
{
}

/// What was in the destination before, and what begins like the name of a staging directory, may be
/// there; everything else may not.
pub proof fn law_new_entries_are_unexpected(staging: ReceiveStaging, entry: Seq<char>)
    ensures
        staging.existing_spec().contains(entry) ==> !staging.unexpected(entry),
        entry == staging.relative_path_spec() ==> !staging.unexpected(entry),
        staging_named(entry) ==> !staging.unexpected(entry),
        !staging.existing_spec().contains(entry) && !staging_named(entry) && entry
            != staging.relative_path_spec() ==> staging.unexpected(entry),
        entry.len() < 15 || entry.take(15) != ".drift-staging-"@ <==> !staging_named(entry),
{
    reveal_strlit(".drift-staging-");
}

/// Finalizing asks for the destination, the staging directory, what else came into the destination
/// and what was received, in this order, and goes on only where each is as it should be.
pub proof fn law_finalizing_goes_step_by_step(
    staging: ReceiveStaging,
    error: DestinationError,
    kind: IoErrorKind,
    current: Vec<String>,
    entries: Vec<Listed>,
)
    ensures
        FinalizeModel::Destination.question() == Ok::<FinalizeQuestion, ReceiveStagingError>(
            FinalizeQuestion::CheckDestination,
        ),
        FinalizeModel::Destination.after(staging, FinalizeAnswer::Destination(Ok(()))) == Ok::<
            FinalizeModel,
            ReceiveStagingError,
        >(FinalizeModel::Staging),
        FinalizeModel::Destination.after(staging, FinalizeAnswer::Destination(Err(error))) == Err::<
            FinalizeModel,
            ReceiveStagingError,
        >(ReceiveStagingError::Destination(error)),
        FinalizeModel::Staging.question() == Ok::<FinalizeQuestion, ReceiveStagingError>(
            FinalizeQuestion::InspectStaging,
        ),
        FinalizeModel::Staging.after(
            staging,
            FinalizeAnswer::Staging(Ok(EntryKind::Directory)),
        ) == Ok::<FinalizeModel, ReceiveStagingError>(FinalizeModel::DestinationEntries),
        FinalizeModel::Staging.after(staging, FinalizeAnswer::Staging(Ok(EntryKind::Symlink)))
            == Err::<FinalizeModel, ReceiveStagingError>(ReceiveStagingError::SymlinkOutput),
        FinalizeModel::DestinationEntries.question() == Ok::<FinalizeQuestion, ReceiveStagingError>(
            FinalizeQuestion::ListDestination,
        ),
        FinalizeModel::DestinationEntries.after(
            staging,
            FinalizeAnswer::DestinationEntries(Ok(current)),
        ) == (if exists|i: int|
            0 <= i < current@.len() && staging.unexpected((#[trigger] current@[i])@) {
            Err::<FinalizeModel, ReceiveStagingError>(ReceiveStagingError::DestinationChanged)
        } else {
            Ok(FinalizeModel::StagedEntries)
        }),
        FinalizeModel::StagedEntries.question() == Ok::<FinalizeQuestion, ReceiveStagingError>(
            FinalizeQuestion::ListStaging,
        ),
        entries@.len() == 0 ==> FinalizeModel::StagedEntries.after(
            staging,
            FinalizeAnswer::StagedEntries(Ok(entries)),
        ) == Err::<FinalizeModel, ReceiveStagingError>(ReceiveStagingError::EmptyOutput),
        entries@.len() > 0 ==> (FinalizeModel::StagedEntries.after(
            staging,
            FinalizeAnswer::StagedEntries(Ok(entries)),
        ) matches Ok(FinalizeModel::Checking { entries: ordered, checked, .. }) && ordered.len()
            == entries@.len() && checked == 0),
        FinalizeModel::StagedEntries.after(staging, FinalizeAnswer::StagedEntries(Err(kind)))
            == Err::<FinalizeModel, ReceiveStagingError>(ReceiveStagingError::Io(kind)),
        FinalizeModel::DestinationEntries.after(
            staging,
            FinalizeAnswer::DestinationEntries(Err(kind)),
        ) == Err::<FinalizeModel, ReceiveStagingError>(ReceiveStagingError::Io(kind)),
{
    let views = texts(current@);
    assert(views.len() == current@.len());
    assert(forall|i: int| 0 <= i < current@.len() ==> #[trigger] views[i] == current@[i]@);
    if exists|i: int| 0 <= i < current@.len() && staging.unexpected((#[trigger] current@[i])@) {
        let i = choose|i: int|
            0 <= i < current@.len() && staging.unexpected((#[trigger] current@[i])@);
        assert(staging.unexpected(views[i]));
    }
    if exists|i: int| 0 <= i < views.len() && staging.unexpected(#[trigger] views[i]) {
        let i = choose|i: int| 0 <= i < views.len() && staging.unexpected(#[trigger] views[i]);
        assert(staging.unexpected(current@[i]@));
    }
}

/// Of received output, files and directories are taken, links and everything else are not; what is
/// in a directory is looked at in its turn.
pub proof fn law_received_output_is_judged(
    tree: TreeModel,
    size: u64,
    modified_at: Option<u64>,
    mode: u32,
    kind: IoErrorKind,
)
    requires
        tree.pending.len() > 0,
        tree.listing is None,
    ensures
        tree.after(TreeAnswer::Inspected(EntryKind::File { size, modified_at, mode })) matches Ok(
            next,
        ) && next.pending == tree.pending.drop_last() && next.listing is None,
        tree.after(TreeAnswer::Inspected(EntryKind::Directory)) matches Ok(next) && next.pending
            == tree.pending.drop_last() && next.listing == Some(tree.pending.last()),
        tree.after(TreeAnswer::Inspected(EntryKind::Symlink)) == Err::<
            TreeModel,
            ReceiveStagingError,
        >(ReceiveStagingError::SymlinkOutput),
        tree.after(TreeAnswer::Inspected(EntryKind::Other)) == Err::<
            TreeModel,
            ReceiveStagingError,
        >(ReceiveStagingError::InvalidOutputPath),
        tree.after(TreeAnswer::Failed(kind)) == Err::<TreeModel, ReceiveStagingError>(
            ReceiveStagingError::Io(kind),
        ),
{
}

/// Metadata is written beside the old file and then takes its place; a file in its way is removed
/// first, once. It is saved only after a rename that went well.
pub proof fn law_metadata_is_saved(stage: SaveStage, error: StorageError)
    ensures
        SaveStage::CreateRoot.after(Ok(())) == Ok::<SaveStage, StorageError>(
            SaveStage::WriteTemporary,
        ),
        SaveStage::WriteTemporary.after(Ok(())) == Ok::<SaveStage, StorageError>(SaveStage::Rename),
        SaveStage::Rename.after(Ok(())) == Ok::<SaveStage, StorageError>(SaveStage::Saved),
        SaveStage::Rename.after(Err(StorageError::Io(IoErrorKind::AlreadyExists))) == Ok::<
            SaveStage,
            StorageError,
        >(SaveStage::RemoveOld),
        SaveStage::RemoveOld.after(Ok(())) == Ok::<SaveStage, StorageError>(SaveStage::RenameAgain),
        SaveStage::RenameAgain.after(Ok(())) == Ok::<SaveStage, StorageError>(SaveStage::Saved),
        stage.after(Ok(())) == Ok::<SaveStage, StorageError>(SaveStage::Saved) ==> stage
            == SaveStage::Rename || stage == SaveStage::RenameAgain || stage == SaveStage::Saved,
        stage != SaveStage::Rename || error != StorageError::Io(IoErrorKind::AlreadyExists)
            ==> stage.after(Err(error)) == Err::<SaveStage, StorageError>(error),
{
}

/// Metadata that is not there is no error; metadata that cannot be read, understood or used is one,
/// each its own.
pub proof fn law_loading_metadata(state: ResumeModel, kind: IoErrorKind)
    ensures
        loaded(ReadModel::Missing) == Ok::<Option<ResumeModel>, StorageError>(None),
        loaded(ReadModel::Failed(kind)) == Err::<Option<ResumeModel>, StorageError>(
            StorageError::Io(kind),
        ),
        loaded(ReadModel::Unparsable) == Err::<Option<ResumeModel>, StorageError>(
            StorageError::Serialization,
        ),
        state.fault() matches Some(error) ==> loaded(ReadModel::Parsed(state)) == Err::<
            Option<ResumeModel>,
            StorageError,
        >(StorageError::InvalidResume(error)),
        loaded(ReadModel::Parsed(state)) matches Ok(found) ==> found == Some(state),
{
}

/// What is gone already counts as removed, and every other failure is told.
pub proof fn law_removing_what_may_be_gone(kind: IoErrorKind, found: EntryKind)
    ensures
        removed(Ok(())) == Ok::<(), StorageError>(()),
        removed(Err(IoErrorKind::NotFound)) == Ok::<(), StorageError>(()),
        kind != IoErrorKind::NotFound ==> removed(Err(kind)) == Err::<(), StorageError>(
            StorageError::Io(kind),
        ),
        partial_step(Ok(EntryKind::Directory)) == Ok::<PartialStep, StorageError>(
            PartialStep::RemoveTree,
        ),
        found != EntryKind::Directory ==> partial_step(Ok(found)) == Ok::<
            PartialStep,
            StorageError,
        >(PartialStep::RemoveFile),
        partial_step(Err(IoErrorKind::NotFound)) == Ok::<PartialStep, StorageError>(
            PartialStep::Nothing,
        ),
        kind != IoErrorKind::NotFound ==> partial_step(Err(kind)) == Err::<
            PartialStep,
            StorageError,
        >(StorageError::Io(kind)),
{
}

/// Discovery fails exactly if some file cannot be read, and it finds every transfer whose metadata
/// can be used.
pub proof fn law_discovery_finds_all(reads: Seq<ReadModel>)
    ensures
        collected(reads) is Ok <==> forall|i: int|
            0 <= i < reads.len() ==> !(#[trigger] reads[i] is Failed),
        collected(reads) matches Ok(model) ==> forall|i: int|
            0 <= i < reads.len() ==> (#[trigger] reads[i] matches ReadModel::Parsed(state)
                && state.fault() is None ==> model.found.contains(reads[i]->Parsed_0)),
    decreases reads.len(),
{
    if reads.len() > 0 {
        let earlier = reads.drop_last();
        let last = reads.len() - 1;
        law_discovery_finds_all(earlier);
        assert(reads[last] == reads.last());
        if collected(earlier) is Ok {
            assert forall|i: int| 0 <= i < last implies !(#[trigger] reads[i] is Failed) by {
                assert(!(earlier[i] is Failed));
            }
        } else {
            let i = choose|i: int| 0 <= i < earlier.len() && #[trigger] earlier[i] is Failed;
            assert(reads[i] is Failed);
        }
        if let Ok(model) = collected(reads) {
            let before = collected(earlier)->Ok_0;
            assert forall|state: ResumeModel| before.found.contains(state) implies #[trigger] model.found.contains(
                state,
            ) by {
                let k = choose|k: int| 0 <= k < before.found.len() && before.found[k] == state;
                assert(model.found[k] == state);
            }
            assert forall|i: int| 0 <= i < reads.len() implies (
            #[trigger] reads[i] matches ReadModel::Parsed(state) && state.fault() is None
                ==> model.found.contains(reads[i]->Parsed_0)) by {
                if i < last {
                    assert(earlier[i] == reads[i]);
                } else if let ReadModel::Parsed(state) = reads[i] {
                    if state.fault() is None {
                        assert(model.found.last() == state);
                        assert(model.found[model.found.len() - 1] == state);
                    }
                }
            }
        }
    }
}

/// What a transfer left behind is looked for where it was received to, as long as it is a staging
/// directory there and nothing on the way to it is out of order, and else beside the metadata.
pub proof fn law_partial_output_has_its_place(
    store: JsonStore,
    state: ResumeModel,
    ancestors: Seq<Ancestor>,
)
    ensures
        state.temp_file_path is None ==> store.partial_path_of(state, ancestors) is None,
        state.temp_file_path matches Some(path) ==> match state.request {
            ResumeRequestModel::Send { .. } => store.partial_path_of(state, ancestors) == Some(
                below(store.root_spec(), path),
            ),
            ResumeRequestModel::Receive { output_directory } => {
                &&& staging_path(path) && components_fault(output_directory, ancestors) is None
                    ==> store.partial_path_of(state, ancestors) == Some(
                    below(output_directory, path),
                )
                &&& !staging_path(path) || components_fault(output_directory, ancestors) is Some
                    ==> store.partial_path_of(state, ancestors) == Some(
                    below(store.root_spec(), path),
                )
            },
        },
{
}

/// A staging directory lies in its destination, under a name of its own.
pub proof fn law_staging_lies_in_the_destination(destination: Seq<char>, id: TransferId)
    requires
        destination.len() > 0,
    ensures
        ({
            let path = below(destination, staging_name_of(id));
            &&& path.len() > destination.len()
            &&& path.take(destination.len() as int) == destination
            &&& path.skip(path.len() - staging_name_of(id).len()) == staging_name_of(id)
        }),
{
    reveal_strlit(".drift-staging-");
    let name = staging_name_of(id);
    let path = below(destination, name);
    assert(path.take(destination.len() as int) =~= destination);
    assert(path.skip(path.len() - name.len()) =~= name);
}

} // verus!
