//! From received output to published files: every check first, then publishing.
use vstd::prelude::*;
use crate::destination::DestinationError;
use crate::io_kind::IoErrorKind;
use crate::resume::texts;
use crate::source_scan::EntryKind;
use crate::source_walk::{
    by_name, listed_models, sort_by_name, DirectoryModel, Listed, ListedModel, ScanQuestion,
};
use crate::staging::{
    staging_root_fault, validate_staging_root, Publication, PublishStage, PublishStep,
    ReceiveFinalizeReport, ReceiveStaging, ReceiveStagingError, StagedTree, TreeAnswer, TreeModel,
};

verus! {

/// What is to be looked at or done next.
#[derive(Debug, Clone, Copy, PartialEq, Eq)]
pub enum FinalizeQuestion {
    CheckDestination,
    InspectStaging,
    ListDestination,
    ListStaging,
    InspectOutput { place: usize },
    ListOutput { place: usize },
    Publish { entry: usize },
    TakeBack { entry: usize },
    RemoveStaging,
    Finished(ReceiveFinalizeReport),
}

/// What came of it.
pub enum FinalizeAnswer {
    Destination(Result<(), DestinationError>),
    Staging(Result<EntryKind, IoErrorKind>),
    DestinationEntries(Result<Vec<String>, IoErrorKind>),
    StagedEntries(Result<Vec<Listed>, IoErrorKind>),
    Output(TreeAnswer),
    Done(Result<(), IoErrorKind>),
}

/// Where finalizing stands.
#[verifier::ext_equal]
pub enum FinalizeModel {
    Destination,
    Staging,
    DestinationEntries,
    StagedEntries,
    /// Entry by entry; those before `checked` are found in order.
    Checking { entries: Seq<ListedModel>, checked: nat, tree: TreeModel },
    Publishing { entries: Seq<ListedModel>, publication: Publication },
}

/// The check of one staged entry, before anything was looked at.
pub open spec fn tree_of(entry: ListedModel) -> TreeModel {
    TreeModel {
        pending: seq![DirectoryModel { place: entry.place, relative_path: entry.name }],
        listing: None,
    }
}

/// An entry of the destination that must not be there.
pub open spec fn some_unexpected(staging: ReceiveStaging, current: Seq<Seq<char>>) -> bool {
    exists|i: int| 0 <= i < current.len() && staging.unexpected(#[trigger] current[i])
}

impl FinalizeModel {
    pub open spec fn well_formed(self) -> bool {
        match self {
            FinalizeModel::Checking { entries, checked, tree } => checked < entries.len()
                && tree.question() != Ok::<ScanQuestion, ReceiveStagingError>(
                ScanQuestion::Nothing,
            ),
            FinalizeModel::Publishing { entries, publication } => publication.well_formed()
                && publication.count == entries.len(),
            _ => true,
        }
    }

    /// The next thing to look at or to do; or why nothing is published.
    pub open spec fn question(self) -> Result<FinalizeQuestion, ReceiveStagingError> {
        match self {
            FinalizeModel::Destination => Ok(FinalizeQuestion::CheckDestination),
            FinalizeModel::Staging => Ok(FinalizeQuestion::InspectStaging),
            FinalizeModel::DestinationEntries => Ok(FinalizeQuestion::ListDestination),
            FinalizeModel::StagedEntries => Ok(FinalizeQuestion::ListStaging),
            FinalizeModel::Checking { tree, .. } => match tree.question() {
                Err(error) => Err(error),
                Ok(ScanQuestion::Inspect { place }) => Ok(FinalizeQuestion::InspectOutput { place }),
                Ok(ScanQuestion::List { place }) => Ok(FinalizeQuestion::ListOutput { place }),
                Ok(ScanQuestion::Nothing) => Ok(FinalizeQuestion::ListStaging),
            },
            FinalizeModel::Publishing { publication, .. } => match publication.step_spec() {
                PublishStep::Publish { entry } => Ok(FinalizeQuestion::Publish { entry }),
                PublishStep::TakeBack { entry } => Ok(FinalizeQuestion::TakeBack { entry }),
                PublishStep::RemoveStaging => Ok(FinalizeQuestion::RemoveStaging),
                PublishStep::Finished(Ok(report)) => Ok(FinalizeQuestion::Finished(report)),
                PublishStep::Finished(Err(error)) => Err(error),
            },
        }
    }

    /// The answer fits the question that was asked.
    pub open spec fn answered_by(self, answer: FinalizeAnswer) -> bool {
        match answer {
            FinalizeAnswer::Destination(_) => self is Destination,
            FinalizeAnswer::Staging(_) => self is Staging,
            FinalizeAnswer::DestinationEntries(_) => self is DestinationEntries,
            FinalizeAnswer::StagedEntries(_) => self is StagedEntries,
            FinalizeAnswer::Output(found) => self matches FinalizeModel::Checking { tree, .. }
                && tree.question() is Ok && tree.answered_by(found),
            FinalizeAnswer::Done(_) => self is Publishing,
        }
    }

    /// Goes on to the next entry once one is checked, and to publishing after the last.
    pub open spec fn checking(entries: Seq<ListedModel>, checked: nat, tree: TreeModel) -> FinalizeModel {
        if tree.question() != Ok::<ScanQuestion, ReceiveStagingError>(ScanQuestion::Nothing) {
            FinalizeModel::Checking { entries, checked, tree }
        } else if checked + 1 < entries.len() {
            FinalizeModel::Checking {
                entries,
                checked: checked + 1,
                tree: tree_of(entries[checked as int + 1]),
            }
        } else {
            FinalizeModel::Publishing {
                entries,
                publication: Publication {
                    count: entries.len() as usize,
                    visible: 0,
                    stage: PublishStage::Publishing,
                },
            }
        }
    }

    /// Where finalizing stands after an answer; or why nothing is published.
    pub open spec fn after(self, staging: ReceiveStaging, answer: FinalizeAnswer) -> Result<
        FinalizeModel,
        ReceiveStagingError,
    > {
        match answer {
            FinalizeAnswer::Destination(found) => match found {
                Ok(_) => Ok(FinalizeModel::Staging),
                Err(error) => Err(ReceiveStagingError::Destination(error)),
            },
            FinalizeAnswer::Staging(found) => match staging_root_fault(found) {
                Some(error) => Err(error),
                None => Ok(FinalizeModel::DestinationEntries),
            },
            FinalizeAnswer::DestinationEntries(found) => match found {
                Err(kind) => Err(ReceiveStagingError::Io(kind)),
                Ok(current) => if some_unexpected(staging, texts(current@)) {
                    Err(ReceiveStagingError::DestinationChanged)
                } else {
                    Ok(FinalizeModel::StagedEntries)
                },
            },
            FinalizeAnswer::StagedEntries(found) => match found {
                Err(kind) => Err(ReceiveStagingError::Io(kind)),
                Ok(entries) => if entries@.len() == 0 {
                    Err(ReceiveStagingError::EmptyOutput)
                } else {
                    let ordered = by_name(listed_models(entries@));
                    Ok(
                        FinalizeModel::Checking {
                            entries: ordered,
                            checked: 0,
                            tree: tree_of(ordered[0]),
                        },
                    )
                },
            },
            FinalizeAnswer::Output(found) => match self {
                FinalizeModel::Checking { entries, checked, tree } => match tree.after(found) {
                    Err(error) => Err(error),
                    Ok(next) => Ok(FinalizeModel::checking(entries, checked, next)),
                },
                _ => Ok(self),
            },
            FinalizeAnswer::Done(done) => match self {
                FinalizeModel::Publishing { entries, publication } => Ok(
                    FinalizeModel::Publishing { entries, publication: publication.after(done) },
                ),
                _ => Ok(self),
            },
        }
    }
}

/// Finalizing in progress.
pub enum Finalization {
    Destination,
    Staging,
    DestinationEntries,
    StagedEntries,
    Checking { entries: Vec<Listed>, checked: usize, tree: StagedTree },
    Publishing { entries: Vec<Listed>, publication: Publication },
}

impl View for Finalization {
    type V = FinalizeModel;

    open spec fn view(&self) -> FinalizeModel {
        match *self {
            Finalization::Destination => FinalizeModel::Destination,
            Finalization::Staging => FinalizeModel::Staging,
            Finalization::DestinationEntries => FinalizeModel::DestinationEntries,
            Finalization::StagedEntries => FinalizeModel::StagedEntries,
            Finalization::Checking { entries, checked, tree } => FinalizeModel::Checking {
                entries: listed_models(entries@),
                checked: checked as nat,
                tree: tree@,
            },
            Finalization::Publishing { entries, publication } => FinalizeModel::Publishing {
                entries: listed_models(entries@),
                publication,
            },
        }
    }
}

impl Finalization {
    pub fn new() -> (finalization: Self)
        ensures
            finalization@ == FinalizeModel::Destination,
            finalization@.well_formed(),
    {
        Finalization::Destination
    }

    pub fn question(&self) -> (result: Result<FinalizeQuestion, ReceiveStagingError>)
        requires
            self@.well_formed(),
        ensures
            result == self@.question(),
    {
        match self {
            Finalization::Destination => Ok(FinalizeQuestion::CheckDestination),
            Finalization::Staging => Ok(FinalizeQuestion::InspectStaging),
            Finalization::DestinationEntries => Ok(FinalizeQuestion::ListDestination),
            Finalization::StagedEntries => Ok(FinalizeQuestion::ListStaging),
            Finalization::Checking { tree, .. } => match tree.question() {
                Err(error) => Err(error),
                Ok(ScanQuestion::Inspect { place }) => Ok(FinalizeQuestion::InspectOutput { place }),
                Ok(ScanQuestion::List { place }) => Ok(FinalizeQuestion::ListOutput { place }),
                Ok(ScanQuestion::Nothing) => Ok(FinalizeQuestion::ListStaging),
            },
            Finalization::Publishing { publication, .. } => match publication.step() {
                PublishStep::Publish { entry } => Ok(FinalizeQuestion::Publish { entry }),
                PublishStep::TakeBack { entry } => Ok(FinalizeQuestion::TakeBack { entry }),
                PublishStep::RemoveStaging => Ok(FinalizeQuestion::RemoveStaging),
                PublishStep::Finished(Ok(report)) => Ok(FinalizeQuestion::Finished(report)),
                PublishStep::Finished(Err(error)) => Err(error),
            },
        }
    }

    /// The entry to publish or to take back.
    pub fn entry(&self, entry: usize) -> (listed: Option<&Listed>)
        ensures
            match self@ {
                FinalizeModel::Publishing { entries, .. } => if entry < entries.len() {
                    listed matches Some(found) && found@ == entries[entry as int]
                } else {
                    listed is None
                },
                _ => listed is None,
            },
    {
        match self {
            Finalization::Publishing { entries, .. } => if entry < entries.len() {
                assert(listed_models(entries@)[entry as int] == entries@[entry as int]@);
                Some(&entries[entry])
            } else {
                None
            },
            _ => None,
        }
    }

    fn check_on(entries: Vec<Listed>, checked: usize, tree: StagedTree) -> (next: Self)
        requires
            checked < entries@.len(),
        ensures
            next@ == FinalizeModel::checking(listed_models(entries@), checked as nat, tree@),
            next@.well_formed(),
    {
        if let Ok(ScanQuestion::Nothing) = tree.question() {
            let count: usize = entries.len();
            if checked + 1 < count {
                let entry = &entries[checked + 1];
                assert(listed_models(entries@)[checked as int + 1] == entry@);
                let tree = StagedTree::new(entry.place, entry.name.as_str());
                assert(tree@ == tree_of(entry@));
                Finalization::Checking { entries, checked: checked + 1, tree }
            } else {
                let publication = Publication {
                    count: entries.len(),
                    visible: 0,
                    stage: PublishStage::Publishing,
                };
                Finalization::Publishing { entries, publication }
            }
        } else {
            Finalization::Checking { entries, checked, tree }
        }
    }

    pub fn answer(self, staging: &ReceiveStaging, answer: FinalizeAnswer) -> (result: Result<
        Self,
        ReceiveStagingError,
    >)
        requires
            self@.well_formed(),
            self@.answered_by(answer),
        ensures
            match self@.after(*staging, answer) {
                Ok(next) => result matches Ok(finalization) && finalization@ == next
                    && next.well_formed(),
                Err(error) => result == Err::<Finalization, ReceiveStagingError>(error),
            },
    {
        match answer {
            FinalizeAnswer::Destination(found) => match found {
                Ok(()) => Ok(Finalization::Staging),
                Err(error) => Err(ReceiveStagingError::Destination(error)),
            },
            FinalizeAnswer::Staging(found) => match validate_staging_root(found) {
                Ok(()) => Ok(Finalization::DestinationEntries),
                Err(error) => Err(error),
            },
            FinalizeAnswer::DestinationEntries(found) => match found {
                Err(kind) => Err(ReceiveStagingError::Io(kind)),
                Ok(current) => {
                    assert(texts(current@).len() == current@.len());
                    match staging.reject_unexpected_destination_entries(&current) {
                        Ok(()) => Ok(Finalization::StagedEntries),
                        Err(error) => Err(error),
                    }
                },
            },
            FinalizeAnswer::StagedEntries(found) => match found {
                Err(kind) => Err(ReceiveStagingError::Io(kind)),
                Ok(entries) => {
                    if entries.len() == 0 {
                        return Err(ReceiveStagingError::EmptyOutput);
                    }
                    let sorted = sort_by_name(&entries);
                    assert(listed_models(sorted@).len() == sorted@.len());
                    assert(listed_models(sorted@)[0] == sorted@[0]@);
                    let tree = StagedTree::new(sorted[0].place, sorted[0].name.as_str());
                    assert(tree@ == tree_of(sorted@[0]@));
                    Ok(Finalization::Checking { entries: sorted, checked: 0, tree })
                },
            },
            FinalizeAnswer::Output(found) => match self {
                Finalization::Checking { entries, checked, tree } => match tree.answer(found) {
                    Err(error) => Err(error),
                    Ok(next) => Ok(Self::check_on(entries, checked, next)),
                },
                other => Ok(other),
            },
            FinalizeAnswer::Done(done) => match self {
                Finalization::Publishing { entries, publication } => Ok(
                    Finalization::Publishing { entries, publication: publication.done(done) },
                ),
                other => Ok(other),
            },
        }
    }
}

/// Where finalizing stands after a run of answers, from its start.
pub open spec fn finalized(staging: ReceiveStaging, answers: Seq<FinalizeAnswer>) -> Result<
    FinalizeModel,
    ReceiveStagingError,
>
    decreases answers.len(),
{
    if answers.len() == 0 {
        Ok(FinalizeModel::Destination)
    } else {
        match finalized(staging, answers.drop_last()) {
            Err(error) => Err(error),
            Ok(model) => model.after(staging, answers.last()),
        }
    }
}

/// Every answer fits the question that came before it.
pub open spec fn answered_in_turn(staging: ReceiveStaging, answers: Seq<FinalizeAnswer>) -> bool
    decreases answers.len(),
{
    answers.len() > 0 ==> {
        &&& answered_in_turn(staging, answers.drop_last())
        &&& finalized(staging, answers.drop_last()) matches Ok(model) && model.answered_by(
            answers.last(),
        )
    }
}

/// What was found before anything could be published: a usable destination with nothing new in it,
/// a staging directory that still is one, and some output.
pub open spec fn checked_first(staging: ReceiveStaging, answers: Seq<FinalizeAnswer>) -> bool {
    &&& answers.len() >= 4
    &&& answers[0] matches FinalizeAnswer::Destination(found) && found is Ok
    &&& answers[1] matches FinalizeAnswer::Staging(found) && found
        == Ok::<EntryKind, IoErrorKind>(EntryKind::Directory)
    &&& answers[2] matches FinalizeAnswer::DestinationEntries(found) && found is Ok
        && !some_unexpected(staging, texts(found->Ok_0@))
    &&& answers[3] matches FinalizeAnswer::StagedEntries(found) && found is Ok
        && found->Ok_0@.len() > 0
}

/// No output is anything but a file or a directory.
pub open spec fn plain_output(answers: Seq<FinalizeAnswer>) -> bool {
    forall|i: int|
        0 <= i < answers.len() ==> (#[trigger] answers[i] matches FinalizeAnswer::Output(
            TreeAnswer::Inspected(kind),
        ) ==> kind is File || kind is Directory)
}

/// Nothing is published unless every check was passed, and no link or special file ever is.
pub proof fn law_checks_come_before_publishing(
    staging: ReceiveStaging,
    answers: Seq<FinalizeAnswer>,
)
    requires
        answered_in_turn(staging, answers),
        finalized(staging, answers) matches Ok(model) && model is Publishing,
    ensures
        checked_first(staging, answers),
        plain_output(answers),
{
    lemma_checks_so_far(staging, answers);
}

proof fn lemma_checks_so_far(staging: ReceiveStaging, answers: Seq<FinalizeAnswer>)
    requires
        answered_in_turn(staging, answers),
        finalized(staging, answers) is Ok,
    ensures
        plain_output(answers),
        match finalized(staging, answers)->Ok_0 {
            FinalizeModel::Destination => answers.len() == 0,
            FinalizeModel::Staging => answers.len() == 1 && (
            answers[0] matches FinalizeAnswer::Destination(found) && found is Ok),
            FinalizeModel::DestinationEntries => answers.len() == 2 && (
            answers[0] matches FinalizeAnswer::Destination(found) && found is Ok) && (
            answers[1] matches FinalizeAnswer::Staging(found) && found
                == Ok::<EntryKind, IoErrorKind>(EntryKind::Directory)),
            FinalizeModel::StagedEntries => answers.len() == 3 && (
            answers[0] matches FinalizeAnswer::Destination(found) && found is Ok) && (
            answers[1] matches FinalizeAnswer::Staging(found) && found
                == Ok::<EntryKind, IoErrorKind>(EntryKind::Directory)) && (
            answers[2] matches FinalizeAnswer::DestinationEntries(found) && found is Ok
                && !some_unexpected(staging, texts(found->Ok_0@))),
            _ => checked_first(staging, answers),
        },
    decreases answers.len(),
{
    if answers.len() > 0 {
        let before = answers.drop_last();
        lemma_checks_so_far(staging, before);
        assert forall|i: int| 0 <= i < answers.len() implies (
        #[trigger] answers[i] matches FinalizeAnswer::Output(TreeAnswer::Inspected(kind))
            ==> kind is File || kind is Directory) by {
            if i < before.len() {
                assert(before[i] == answers[i]);
            }
        }
        assert(forall|i: int| 0 <= i < before.len() ==> before[i] == answers[i]);
    }
}

/// A place is among the entries of a directory.
pub open spec fn lists(entries: Seq<Listed>, place: usize) -> bool {
    exists|j: int| 0 <= j < entries.len() && (#[trigger] entries[j]).place == place
}

/// A place came up in a listing of the staging directory, or of a directory in it.
pub open spec fn came_up(answers: Seq<FinalizeAnswer>, place: usize) -> bool
    decreases answers.len(),
{
    answers.len() > 0 && (came_up(answers.drop_last(), place) || match answers.last() {
        FinalizeAnswer::StagedEntries(Ok(entries)) => lists(entries@, place),
        FinalizeAnswer::Output(TreeAnswer::Entries(entries)) => lists(entries@, place),
        _ => false,
    })
}

/// A place was looked at.
pub open spec fn looked_at(
    staging: ReceiveStaging,
    answers: Seq<FinalizeAnswer>,
    place: usize,
) -> bool
    decreases answers.len(),
{
    answers.len() > 0 && (looked_at(staging, answers.drop_last(), place) || (
    asked(staging, answers.drop_last(), FinalizeQuestion::InspectOutput { place })
        && answers.last() matches FinalizeAnswer::Output(TreeAnswer::Inspected(_))))
}

/// A place was looked at and found to be a directory.
pub open spec fn found_directory(
    staging: ReceiveStaging,
    answers: Seq<FinalizeAnswer>,
    place: usize,
) -> bool
    decreases answers.len(),
{
    answers.len() > 0 && (found_directory(staging, answers.drop_last(), place) || (
    asked(staging, answers.drop_last(), FinalizeQuestion::InspectOutput { place })
        && answers.last() matches FinalizeAnswer::Output(
        TreeAnswer::Inspected(EntryKind::Directory),
    )))
}

/// A directory was listed.
pub open spec fn opened(
    staging: ReceiveStaging,
    answers: Seq<FinalizeAnswer>,
    place: usize,
) -> bool
    decreases answers.len(),
{
    answers.len() > 0 && (opened(staging, answers.drop_last(), place) || (
    asked(staging, answers.drop_last(), FinalizeQuestion::ListOutput { place })
        && answers.last() matches FinalizeAnswer::Output(TreeAnswer::Entries(_))))
}

/// After a run of answers, this is the question.
pub open spec fn asked(
    staging: ReceiveStaging,
    answers: Seq<FinalizeAnswer>,
    question: FinalizeQuestion,
) -> bool {
    finalized(staging, answers) matches Ok(model) && model.question() == Ok::<
        FinalizeQuestion,
        ReceiveStagingError,
    >(question)
}

/// Nothing is published that was not looked at: before the first entry is published, everything in
/// the staging directory was, and everything in every directory below it.
pub proof fn law_all_output_is_looked_at(
    staging: ReceiveStaging,
    answers: Seq<FinalizeAnswer>,
    place: usize,
)
    requires
        answered_in_turn(staging, answers),
        finalized(staging, answers) matches Ok(model) && model is Publishing,
    ensures
        came_up(answers, place) ==> looked_at(staging, answers, place),
        found_directory(staging, answers, place) ==> opened(staging, answers, place),
{
    lemma_looked_at_so_far(staging, answers, place);
}

/// Something at this place is still to be looked at.
spec fn waits(entries: Seq<ListedModel>, checked: nat, tree: TreeModel, place: usize) -> bool {
    ||| exists|i: int| 0 <= i < tree.pending.len() && (#[trigger] tree.pending[i]).place == place
    ||| exists|j: int| checked < j < entries.len() && (#[trigger] entries[j]).place == place
}

pub proof fn lemma_sorted_entries_are_listed(entries: Seq<Listed>, place: usize)
    requires
        lists(entries, place),
        entries.len() <= usize::MAX,
    ensures
        exists|j: int|
            0 <= j < entries.len() && (#[trigger] by_name(listed_models(entries))[j]).place == place,
{
    let models = listed_models(entries);
    let names = models.map_values(|entry: ListedModel| entry.name);
    crate::path_order::lemma_order_exists(names);
    let order = crate::path_order::the_order(names);
    let x = choose|j: int| 0 <= j < entries.len() && (#[trigger] entries[j]).place == place;
    assert(order.contains(x as usize));
    let j = order.index_of(x as usize);
    assert(by_name(models)[j].place == place);
}

/// An answer takes away only what it is about, and what it lists waits.
proof fn lemma_answer_leaves_waiting(
    entries: Seq<ListedModel>,
    checked: nat,
    tree: TreeModel,
    found: TreeAnswer,
    place: usize,
)
    requires
        tree.answered_by(found),
        tree.after(found) is Ok,
    ensures
        waits(entries, checked, tree, place) ==> waits(
            entries,
            checked,
            tree.after(found)->Ok_0,
            place,
        ) || (found is Inspected && tree.pending.last().place == place),
        found matches TreeAnswer::Entries(listed) && lists(listed@, place) ==> waits(
            entries,
            checked,
            tree.after(found)->Ok_0,
            place,
        ),
{
    let next = tree.after(found)->Ok_0;
    if exists|i: int| 0 <= i < tree.pending.len() && (#[trigger] tree.pending[i]).place == place {
        let i = choose|i: int|
            0 <= i < tree.pending.len() && (#[trigger] tree.pending[i]).place == place;
        if i < next.pending.len() {
            assert(next.pending[i] == tree.pending[i]);
        }
    }
    if let TreeAnswer::Entries(listed) = found {
        if lists(listed@, place) {
            assert(listed@.len() == listed.len());
            lemma_sorted_entries_are_listed(listed@, place);
            let sorted = by_name(listed_models(listed@));
            let j = choose|j: int| 0 <= j < listed@.len() && (#[trigger] sorted[j]).place == place;
            assert(next.pending[tree.pending.len() + j].place == place);
        }
    }
}

/// Going on to the next entry leaves everything waiting.
proof fn lemma_checking_leaves_waiting(
    entries: Seq<ListedModel>,
    checked: nat,
    tree: TreeModel,
    place: usize,
)
    requires
        checked < entries.len(),
        waits(entries, checked, tree, place),
    ensures
        FinalizeModel::checking(entries, checked, tree) matches FinalizeModel::Checking {
            entries: left,
            checked: passed,
            tree: next,
        } && waits(left, passed, next, place),
{
    if tree.question() == Ok::<ScanQuestion, ReceiveStagingError>(ScanQuestion::Nothing) {
        let j = choose|j: int| checked < j < entries.len() && (#[trigger] entries[j]).place == place;
        let next = tree_of(entries[checked as int + 1]);
        assert(next.pending[0].place == entries[checked as int + 1].place);
    }
}

proof fn lemma_looked_at_so_far(
    staging: ReceiveStaging,
    answers: Seq<FinalizeAnswer>,
    place: usize,
)
    requires
        answered_in_turn(staging, answers),
        finalized(staging, answers) is Ok,
    ensures
        match finalized(staging, answers)->Ok_0 {
            FinalizeModel::Checking { entries, checked, tree } => {
                &&& finalized(staging, answers)->Ok_0.well_formed()
                &&& came_up(answers, place) ==> looked_at(staging, answers, place) || waits(
                    entries,
                    checked,
                    tree,
                    place,
                )
                &&& found_directory(staging, answers, place) ==> opened(staging, answers, place)
                    || (tree.listing matches Some(directory) && directory.place == place)
            },
            FinalizeModel::Publishing { .. } => {
                &&& came_up(answers, place) ==> looked_at(staging, answers, place)
                &&& found_directory(staging, answers, place) ==> opened(staging, answers, place)
            },
            _ => !came_up(answers, place) && !found_directory(staging, answers, place),
        },
    decreases answers.len(),
{
    if answers.len() > 0 {
        let before = answers.drop_last();
        lemma_looked_at_so_far(staging, before, place);
        let model = finalized(staging, before)->Ok_0;
        match answers.last() {
            FinalizeAnswer::StagedEntries(Ok(entries)) => {
                assert(entries@.len() == entries.len());
                if lists(entries@, place) {
                    lemma_sorted_entries_are_listed(entries@, place);
                }
            },
            FinalizeAnswer::Output(found) => {
                let entries = model->Checking_entries;
                let checked = model->checked;
                let tree = model->tree;
                let next = tree.after(found)->Ok_0;
                lemma_answer_leaves_waiting(entries, checked, tree, found, place);
                if waits(entries, checked, next, place) {
                    lemma_checking_leaves_waiting(entries, checked, next, place);
                }
            },
            _ => {},
        }
    }
}

} // verus!
