//! What holds of a whole walk through selected paths, from its first question to its last answer.
use vstd::prelude::*;
use crate::finalize::{lemma_sorted_entries_are_listed, lists};
use crate::io_kind::IoErrorKind;
use crate::path::sanitized;
use crate::path_order::{lemma_order_distinct, lemma_order_exists, the_order};
use crate::source_scan::{
    law_any_right_to_read_will_do, EntryKind, ScannedModel, SourceScanError,
};
use crate::source_walk::{
    by_name, bytes_in, law_walk_stays_well_formed, lemma_same_total_reordered, listed_models,
    total, DirectoryModel, ListedModel, RootModel, ScanAnswer, ScanQuestion, ScanStage,
    SelectedModel, WalkModel,
};

verus! {

/// Where a walk stands after a run of answers, from its start.
pub open spec fn walked(sources: Seq<SelectedModel>, answers: Seq<ScanAnswer>) -> Result<
    WalkModel,
    SourceScanError,
>
    decreases answers.len(),
{
    if answers.len() == 0 {
        Ok(WalkModel::start(sources))
    } else {
        match walked(sources, answers.drop_last()) {
            Err(error) => Err(error),
            Ok(walk) => walk.after(answers.last()),
        }
    }
}

/// Every answer is one to the question before it.
pub open spec fn answered_in_turn(sources: Seq<SelectedModel>, answers: Seq<ScanAnswer>) -> bool
    decreases answers.len(),
{
    answers.len() > 0 ==> {
        &&& answered_in_turn(sources, answers.drop_last())
        &&& walked(sources, answers.drop_last()) matches Ok(walk) && walk.answered_by(
            answers.last(),
        )
    }
}

/// After a run of answers, this is the question.
pub open spec fn asked(
    sources: Seq<SelectedModel>,
    answers: Seq<ScanAnswer>,
    question: ScanQuestion,
) -> bool {
    walked(sources, answers) matches Ok(walk) && walk.question(false) == Ok::<
        ScanQuestion,
        SourceScanError,
    >(question)
}

/// A place came up in the listing of a directory.
pub open spec fn came_up(answers: Seq<ScanAnswer>, place: usize) -> bool
    decreases answers.len(),
{
    answers.len() > 0 && (came_up(answers.drop_last(), place) || match answers.last() {
        ScanAnswer::Entries { entries, .. } => lists(entries@, place),
        _ => false,
    })
}

/// A place was looked at.
pub open spec fn looked_at(
    sources: Seq<SelectedModel>,
    answers: Seq<ScanAnswer>,
    place: usize,
) -> bool
    decreases answers.len(),
{
    answers.len() > 0 && (looked_at(sources, answers.drop_last(), place) || (
    asked(sources, answers.drop_last(), ScanQuestion::Inspect { place })
        && answers.last() is Inspected))
}

/// A place was looked at and found to be a directory.
pub open spec fn found_directory(
    sources: Seq<SelectedModel>,
    answers: Seq<ScanAnswer>,
    place: usize,
) -> bool
    decreases answers.len(),
{
    answers.len() > 0 && (found_directory(sources, answers.drop_last(), place) || (
    asked(sources, answers.drop_last(), ScanQuestion::Inspect { place })
        && answers.last() matches ScanAnswer::Inspected(EntryKind::Directory)))
}

/// A directory was listed.
pub open spec fn opened(
    sources: Seq<SelectedModel>,
    answers: Seq<ScanAnswer>,
    place: usize,
) -> bool
    decreases answers.len(),
{
    answers.len() > 0 && (opened(sources, answers.drop_last(), place) || (
    asked(sources, answers.drop_last(), ScanQuestion::List { place })
        && answers.last() is Entries))
}

/// Where what is looked at goes: a selected path by its own name, an entry below its directory.
pub open spec fn goes_to(walk: WalkModel) -> Seq<char> {
    if walk.stage == ScanStage::Root {
        sanitized(walk.sources[walk.root as int].name->Some_0)->Ok_0
    } else {
        sanitized(walk.entry_path(walk.entries.last()))->Ok_0
    }
}

/// The files that were found while a selected path was walked through, in the order in which they
/// were looked at.
pub open spec fn found_files(
    sources: Seq<SelectedModel>,
    answers: Seq<ScanAnswer>,
    root: nat,
) -> Seq<ScannedModel>
    decreases answers.len(),
{
    if answers.len() == 0 {
        Seq::empty()
    } else {
        let earlier = found_files(sources, answers.drop_last(), root);
        match (walked(sources, answers.drop_last()), answers.last()) {
            (
                Ok(walk),
                ScanAnswer::Inspected(EntryKind::File { size, modified_at, .. }),
            ) => if walk.root == root {
                earlier.push(ScannedModel { relative_path: goes_to(walk), size, modified_at })
            } else {
                earlier
            },
            _ => earlier,
        }
    }
}

/// The files of the first selected paths, one path after the other.
pub open spec fn files_of_first(
    sources: Seq<SelectedModel>,
    answers: Seq<ScanAnswer>,
    count: nat,
) -> Seq<ScannedModel>
    decreases count,
{
    if count == 0 {
        Seq::empty()
    } else {
        files_of_first(sources, answers, (count - 1) as nat) + found_files(
            sources,
            answers,
            (count - 1) as nat,
        )
    }
}

/// A root tells how many files were found at its path, and how many bytes they have.
pub open spec fn tells_of(root: RootModel, files: Seq<ScannedModel>) -> bool {
    root.file_count == files.len() && root.total_bytes == bytes_in(files)
}

/// A finished walk leaves nothing out: every selected path was looked at, everything that came up in
/// a directory was, and every directory that was found was listed. Its files are exactly those that
/// were found, path by path, and each root counts those of its own path.
pub proof fn law_walk_is_complete(
    sources: Seq<SelectedModel>,
    answers: Seq<ScanAnswer>,
    place: usize,
    root: nat,
)
    requires
        0 < sources.len() <= usize::MAX,
        answered_in_turn(sources, answers),
        walked(sources, answers) matches Ok(walk) && walk.stage == ScanStage::Finished,
    ensures
        place < sources.len() || came_up(answers, place) ==> looked_at(sources, answers, place),
        found_directory(sources, answers, place) ==> opened(sources, answers, place),
        walked(sources, answers)->Ok_0.files == files_of_first(sources, answers, sources.len()),
        root < sources.len() ==> tells_of(
            walked(sources, answers)->Ok_0.roots[root as int],
            found_files(sources, answers, root),
        ),
{
    lemma_well_formed_so_far(sources, answers);
    lemma_looked_at_so_far(sources, answers, place);
    lemma_found_so_far(sources, answers, root);
}

proof fn lemma_well_formed_so_far(sources: Seq<SelectedModel>, answers: Seq<ScanAnswer>)
    requires
        0 < sources.len() <= usize::MAX,
        answered_in_turn(sources, answers),
        walked(sources, answers) is Ok,
    ensures
        walked(sources, answers)->Ok_0.well_formed(),
        walked(sources, answers)->Ok_0.sources == sources,
        at_rest(walked(sources, answers)->Ok_0),
    decreases answers.len(),
{
    if answers.len() == 0 {
        let start = WalkModel::start(sources);
        assert(start.sources.take(0) =~= Seq::<SelectedModel>::empty());
        assert(start.files.take(0) =~= Seq::<ScannedModel>::empty());
    } else {
        lemma_well_formed_so_far(sources, answers.drop_last());
        let walk = walked(sources, answers.drop_last())->Ok_0;
        law_walk_stays_well_formed(walk, answers.last());
    }
}

/// What is left to do, stage by stage: nothing between two selected paths, and no entries while a
/// directory is turned to.
spec fn at_rest(walk: WalkModel) -> bool {
    &&& walk.stage != ScanStage::Entry ==> walk.entries.len() == 0
    &&& walk.stage == ScanStage::Root || walk.stage == ScanStage::Finished ==> walk.pending.len()
        == 0
}

spec fn waits(entries: Seq<ListedModel>, place: usize) -> bool {
    exists|i: int| 0 <= i < entries.len() && (#[trigger] entries[i]).place == place
}

spec fn to_be_listed(walk: WalkModel, place: usize) -> bool {
    ||| exists|i: int| 0 <= i < walk.pending.len() && (#[trigger] walk.pending[i]).place == place
    ||| walk.stage == ScanStage::Listing && walk.directory.place == place
}

proof fn lemma_looked_at_so_far(
    sources: Seq<SelectedModel>,
    answers: Seq<ScanAnswer>,
    place: usize,
)
    requires
        0 < sources.len() <= usize::MAX,
        answered_in_turn(sources, answers),
        walked(sources, answers) is Ok,
    ensures
        ({
            let walk = walked(sources, answers)->Ok_0;
            &&& place < walk.root || (place == walk.root && walk.stage != ScanStage::Root
                && walk.stage != ScanStage::Finished) ==> looked_at(sources, answers, place)
            &&& came_up(answers, place) ==> looked_at(sources, answers, place) || waits(
                walk.entries,
                place,
            )
            &&& found_directory(sources, answers, place) ==> opened(sources, answers, place)
                || to_be_listed(walk, place)
        }),
    decreases answers.len(),
{
    if answers.len() > 0 {
        let before = answers.drop_last();
        lemma_well_formed_so_far(sources, before);
        lemma_looked_at_so_far(sources, before, place);
        let walk = walked(sources, before)->Ok_0;
        let next = walked(sources, answers)->Ok_0;
        if waits(walk.entries, place) {
            let i = choose|i: int|
                0 <= i < walk.entries.len() && (#[trigger] walk.entries[i]).place == place;
            if i < next.entries.len() {
                assert(next.entries[i] == walk.entries[i]);
            }
        }
        if exists|i: int| 0 <= i < walk.pending.len() && (#[trigger] walk.pending[i]).place
            == place {
            let i = choose|i: int|
                0 <= i < walk.pending.len() && (#[trigger] walk.pending[i]).place == place;
            if i < next.pending.len() {
                assert(next.pending[i] == walk.pending[i]);
            }
        }
        match answers.last() {
            ScanAnswer::Entries { entries, .. } => {
                assert(entries@.len() == entries.len());
                if lists(entries@, place) {
                    lemma_sorted_entries_are_listed(entries@, place);
                    let sorted = by_name(listed_models(entries@));
                    let j = choose|j: int|
                        0 <= j < entries@.len() && (#[trigger] sorted[j]).place == place;
                    assert(next.entries == sorted);
                    assert(next.entries[j].place == place);
                }
            },
            ScanAnswer::Inspected(kind) => {
                if kind == EntryKind::Directory && walk.stage != ScanStage::Directory {
                    assert(next.pending.last() == next.pending[next.pending.len() - 1]);
                }
            },
            _ => {},
        }
    }
}

/// What one answer does to the files: a file that is looked at is added, and where a path is closed
/// its root tells of the files since its start.
proof fn lemma_step_files(walk: WalkModel, answer: ScanAnswer)
    requires
        walk.well_formed(),
        walk.answered_by(answer),
        walk.after(answer) is Ok,
    ensures
        ({
            let next = walk.after(answer)->Ok_0;
            &&& next.files == (match answer {
                ScanAnswer::Inspected(EntryKind::File { size, modified_at, .. }) => walk.files.push(
                    ScannedModel { relative_path: goes_to(walk), size, modified_at },
                ),
                _ => walk.files,
            })
            &&& if next.root == walk.root {
                next.first_file == walk.first_file && next.roots == walk.roots && next.stage
                    != ScanStage::Finished
            } else {
                &&& next.root == walk.root + 1
                &&& next.first_file == next.files.len()
                &&& next.roots.len() == walk.roots.len() + 1
                &&& next.roots.drop_last() == walk.roots
                &&& tells_of(next.roots.last(), next.files.skip(walk.first_file as int))
            }
        }),
{
    let next = walk.after(answer)->Ok_0;
    if next.root != walk.root {
        assert(next.roots.drop_last() =~= walk.roots);
    }
}

#[verifier::spinoff_prover]
proof fn lemma_found_so_far(sources: Seq<SelectedModel>, answers: Seq<ScanAnswer>, root: nat)
    requires
        0 < sources.len() <= usize::MAX,
        answered_in_turn(sources, answers),
        walked(sources, answers) is Ok,
    ensures
        ({
            let walk = walked(sources, answers)->Ok_0;
            &&& root > walk.root ==> found_files(sources, answers, root).len() == 0
            &&& root < walk.root ==> tells_of(
                walk.roots[root as int],
                found_files(sources, answers, root),
            )
            &&& walk.files.skip(walk.first_file as int) == found_files(sources, answers, walk.root)
            &&& walk.files.take(walk.first_file as int) == files_of_first(
                sources,
                answers,
                walk.root,
            )
            &&& walk.stage == ScanStage::Finished ==> walk.files == files_of_first(
                sources,
                answers,
                sources.len(),
            )
        }),
    decreases answers.len(),
{
    if answers.len() == 0 {
        let start = WalkModel::start(sources);
        assert(start.files.skip(0) =~= Seq::<ScannedModel>::empty());
        assert(start.files.take(0) =~= Seq::<ScannedModel>::empty());
    } else {
        let before = answers.drop_last();
        let walk = walked(sources, before)->Ok_0;
        let next = walked(sources, answers)->Ok_0;
        let first = walk.first_file as int;
        lemma_well_formed_so_far(sources, before);
        lemma_well_formed_so_far(sources, answers);
        lemma_found_so_far(sources, before, root);
        lemma_found_so_far(sources, before, walk.root + 1);
        lemma_earlier_files_stay(sources, answers, walk.root);
        lemma_step_files(walk, answers.last());
        assert(next.files.skip(first) =~= found_files(sources, answers, walk.root));
        assert(next.files.take(first) =~= walk.files.take(first));
        assert(next.files =~= next.files.take(first) + next.files.skip(first));
        if next.root == walk.root {
            assert(next.first_file == walk.first_file);
        } else {
            assert(next.root == walk.root + 1);
            assert(next.files.skip(next.first_file as int) =~= Seq::<ScannedModel>::empty());
            assert(next.files.take(next.first_file as int) =~= next.files);
            assert(found_files(sources, answers, next.root) =~= Seq::<ScannedModel>::empty());
            if root < walk.root {
                assert(next.roots[root as int] == next.roots.drop_last()[root as int]);
            }
        }
    }
}

/// An answer changes nothing of what was found at the selected paths that are done.
proof fn lemma_earlier_files_stay(
    sources: Seq<SelectedModel>,
    answers: Seq<ScanAnswer>,
    count: nat,
)
    requires
        answers.len() > 0,
        walked(sources, answers.drop_last()) matches Ok(walk) && count <= walk.root,
    ensures
        files_of_first(sources, answers, count) == files_of_first(
            sources,
            answers.drop_last(),
            count,
        ),
    decreases count,
{
    if count > 0 {
        lemma_earlier_files_stay(sources, answers, (count - 1) as nat);
    }
}

/// What is at a place and below it. A directory lists its entries, with a tree for each of them.
pub enum Tree {
    File { size: u64, modified_at: Option<u64>, mode: u32 },
    Directory { entries: Seq<ListedModel>, trees: Seq<Tree> },
    Symlink,
    Other,
}

impl Tree {
    pub open spec fn kind(self) -> EntryKind {
        match self {
            Tree::File { size, modified_at, mode } => EntryKind::File { size, modified_at, mode },
            Tree::Directory { .. } => EntryKind::Directory,
            Tree::Symlink => EntryKind::Symlink,
            Tree::Other => EntryKind::Other,
        }
    }

    /// The regular files at a place and below it: how many there are or, by size, their bytes.
    pub open spec fn files(self, by_size: bool) -> nat
        decreases self, 0nat,
    {
        match self {
            Tree::File { size, .. } => if by_size {
                size as nat
            } else {
                1
            },
            Tree::Directory { trees, .. } => files_in_trees(trees, trees.len(), by_size),
            _ => 0,
        }
    }
}

pub open spec fn files_in_trees(trees: Seq<Tree>, count: nat, by_size: bool) -> nat
    decreases trees, count,
{
    if count == 0 || count > trees.len() {
        0
    } else {
        files_in_trees(trees, (count - 1) as nat, by_size) + trees[count - 1].files(by_size)
    }
}

/// What a directory lists at a place is what stands at the places of its entries.
pub open spec fn coherent(disk: spec_fn(usize) -> Tree) -> bool {
    forall|place: usize|
        (#[trigger] disk(place)) matches Tree::Directory { entries, trees } ==> {
            &&& entries.len() == trees.len()
            &&& forall|j: int|
                0 <= j < entries.len() ==> #[trigger] trees[j] == disk(entries[j].place)
        }
}

/// Every answer tells what stands at the place that was asked about.
pub open spec fn truthful(
    disk: spec_fn(usize) -> Tree,
    sources: Seq<SelectedModel>,
    answers: Seq<ScanAnswer>,
) -> bool
    decreases answers.len(),
{
    answers.len() > 0 ==> {
        &&& truthful(disk, sources, answers.drop_last())
        &&& forall|place: usize|
            asked(sources, answers.drop_last(), #[trigger] inspecting(place)) ==> (
            answers.last() matches ScanAnswer::Inspected(kind) ==> kind == disk(place).kind())
        &&& forall|place: usize|
            asked(sources, answers.drop_last(), #[trigger] listing(place)) ==> (
            answers.last() matches ScanAnswer::Entries { entries, .. } ==> (
            disk(place) matches Tree::Directory { entries: found, .. } && listed_models(entries@)
                == found))
    }
}

pub open spec fn inspecting(place: usize) -> ScanQuestion {
    ScanQuestion::Inspect { place }
}

pub open spec fn listing(place: usize) -> ScanQuestion {
    ScanQuestion::List { place }
}

/// Whoever walks through files that do not change meanwhile counts them right: each root has as many
/// files as there are regular files at its path and below it, and as many bytes as those have.
pub proof fn law_roots_count_what_is_there(
    disk: spec_fn(usize) -> Tree,
    sources: Seq<SelectedModel>,
    answers: Seq<ScanAnswer>,
    root: usize,
)
    requires
        0 < sources.len() <= usize::MAX,
        coherent(disk),
        answered_in_turn(sources, answers),
        truthful(disk, sources, answers),
        walked(sources, answers) matches Ok(walk) && walk.stage == ScanStage::Finished,
        root < sources.len(),
    ensures
        walked(sources, answers)->Ok_0.roots[root as int].file_count == disk(root).files(false),
        walked(sources, answers)->Ok_0.roots[root as int].total_bytes == disk(root).files(true),
{
    lemma_well_formed_so_far(sources, answers);
    lemma_counted_so_far(disk, sources, answers, root, false);
    lemma_counted_so_far(disk, sources, answers, root, true);
}

spec fn weight_of(files: Seq<ScannedModel>, by_size: bool) -> nat {
    if by_size {
        bytes_in(files)
    } else {
        files.len()
    }
}

spec fn entry_weights(
    disk: spec_fn(usize) -> Tree,
    entries: Seq<ListedModel>,
    by_size: bool,
) -> Seq<nat> {
    entries.map_values(|entry: ListedModel| disk(entry.place).files(by_size))
}

spec fn pending_weights(
    disk: spec_fn(usize) -> Tree,
    pending: Seq<DirectoryModel>,
    by_size: bool,
) -> Seq<nat> {
    pending.map_values(|directory: DirectoryModel| disk(directory.place).files(by_size))
}

/// What was found at the current path, and what is in the directories and entries that wait.
spec fn weight_at_hand(disk: spec_fn(usize) -> Tree, walk: WalkModel, by_size: bool) -> nat {
    weight_of(walk.files.skip(walk.first_file as int), by_size) + total(
        pending_weights(disk, walk.pending, by_size),
    ) + total(entry_weights(disk, walk.entries, by_size))
}

/// All of that, with the directory that is about to be listed.
spec fn weight_so_far(disk: spec_fn(usize) -> Tree, walk: WalkModel, by_size: bool) -> nat {
    weight_at_hand(disk, walk, by_size) + if walk.stage == ScanStage::Listing {
        disk(walk.directory.place).files(by_size)
    } else {
        0nat
    }
}

proof fn lemma_trees_are_entries(
    disk: spec_fn(usize) -> Tree,
    entries: Seq<ListedModel>,
    trees: Seq<Tree>,
    count: nat,
    by_size: bool,
)
    requires
        entries.len() == trees.len(),
        count <= trees.len(),
        forall|j: int| 0 <= j < entries.len() ==> #[trigger] trees[j] == disk(entries[j].place),
    ensures
        files_in_trees(trees, count, by_size) == total(
            entry_weights(disk, entries.take(count as int), by_size),
        ),
    decreases count,
{
    let taken = entries.take(count as int);
    if count > 0 {
        lemma_trees_are_entries(disk, entries, trees, (count - 1) as nat, by_size);
        assert(entry_weights(disk, taken, by_size).drop_last() =~= entry_weights(
            disk,
            entries.take(count - 1),
            by_size,
        ));
        assert(trees[count - 1] == disk(entries[count - 1].place));
    }
}

proof fn lemma_sorted_entries_weigh_the_same(
    disk: spec_fn(usize) -> Tree,
    entries: Seq<ListedModel>,
    by_size: bool,
)
    requires
        entries.len() <= usize::MAX,
    ensures
        total(entry_weights(disk, by_name(entries), by_size)) == total(
            entry_weights(disk, entries, by_size),
        ),
{
    let names = entries.map_values(|entry: ListedModel| entry.name);
    let order = the_order(names);
    lemma_order_exists(names);
    assert forall|i: int, j: int| 0 <= i < j < order.len() implies order[i] != order[j] by {
        lemma_order_distinct(names, order, i, j);
    }
    let weights = entry_weights(disk, entries, by_size);
    lemma_same_total_reordered(weights, order);
    assert(entry_weights(disk, by_name(entries), by_size) =~= Seq::new(
        weights.len(),
        |i: int| weights[order[i] as int],
    ));
}

/// The answer tells what stands at the place that the walk asks about.
spec fn told_truly(disk: spec_fn(usize) -> Tree, walk: WalkModel, answer: ScanAnswer) -> bool {
    match answer {
        ScanAnswer::Inspected(kind) => walk.question(false) matches Ok(ScanQuestion::Inspect {
            place,
        }) ==> kind == disk(place).kind(),
        ScanAnswer::Entries { entries, .. } => disk(walk.directory.place) matches Tree::Directory {
            entries: found,
            ..
        } && listed_models(entries@) == found,
        _ => true,
    }
}

/// An answer moves what was to be found to what was found, and closes a path only when all of it
/// was.
proof fn lemma_step_counts(
    disk: spec_fn(usize) -> Tree,
    walk: WalkModel,
    answer: ScanAnswer,
    by_size: bool,
)
    requires
        walk.well_formed(),
        at_rest(walk),
        coherent(disk),
        walk.answered_by(answer),
        walk.after(answer) is Ok,
        told_truly(disk, walk, answer),
        walk.stage != ScanStage::Root ==> weight_so_far(disk, walk, by_size) == disk(
            walk.root as usize,
        ).files(by_size),
    ensures
        ({
            let next = walk.after(answer)->Ok_0;
            let whole = disk(walk.root as usize).files(by_size);
            if next.root == walk.root {
                next.stage != ScanStage::Root && next.stage != ScanStage::Finished
                    && weight_so_far(disk, next, by_size) == whole
            } else {
                next.root == walk.root + 1 && whole == (if by_size {
                    next.roots[walk.root as int].total_bytes
                } else {
                    next.roots[walk.root as int].file_count
                }) && (next.stage == ScanStage::Root || next.stage == ScanStage::Finished)
            }
        }),
{
    let next = walk.after(answer)->Ok_0;
    let place = walk.root as usize;
    let found = walk.files.skip(walk.first_file as int);
    match answer {
        ScanAnswer::Entries { entries, .. } => {
            let listed = listed_models(entries@);
            assert(entries@.len() == entries.len());
            let filled = WalkModel { entries: by_name(listed), ..walk };
            let tree = disk(walk.directory.place);
            let trees = tree->Directory_trees;
            lemma_trees_are_entries(disk, listed, trees, trees.len(), by_size);
            assert(listed.take(trees.len() as int) =~= listed);
            lemma_sorted_entries_weigh_the_same(disk, listed, by_size);
            assert(entry_weights(disk, walk.entries, by_size) =~= Seq::<nat>::empty());
            assert(weight_at_hand(disk, filled, by_size) == disk(place).files(by_size));
            lemma_advanced_counts(disk, filled, by_size);
        },
        ScanAnswer::Inspected(kind) => match walk.stage {
            ScanStage::Root => {
                assert(walk.question(false) == Ok::<ScanQuestion, SourceScanError>(
                    ScanQuestion::Inspect { place },
                ));
                assert(found =~= Seq::<ScannedModel>::empty());
                assert(entry_weights(disk, walk.entries, by_size) =~= Seq::<nat>::empty());
                if kind == EntryKind::Directory {
                    assert(pending_weights(disk, next.pending, by_size) =~= seq![
                        disk(place).files(by_size),
                    ]);
                    lemma_total_of_one(disk(place).files(by_size));
                } else {
                    let since = next.files.skip(walk.first_file as int);
                    assert(since =~= seq![next.files.last()]);
                    lemma_bytes_of_one(next.files.last());
                }
            },
            ScanStage::Directory => {
                assert(pending_weights(disk, next.pending, by_size) =~= pending_weights(
                    disk,
                    walk.pending,
                    by_size,
                ).drop_last());
            },
            _ => {
                let entry = walk.entries.last();
                let weights = entry_weights(disk, walk.entries, by_size);
                assert(walk.question(false) == Ok::<ScanQuestion, SourceScanError>(
                    ScanQuestion::Inspect { place: entry.place },
                ));
                let relative = sanitized(walk.entry_path(entry))->Ok_0;
                let rest = WalkModel { entries: walk.entries.drop_last(), ..walk };
                assert(entry_weights(disk, rest.entries, by_size) =~= weights.drop_last());
                assert(weights.last() == disk(entry.place).files(by_size));
                if let EntryKind::File { size, modified_at, .. } = kind {
                    let moved = rest.with_file(relative, size, modified_at);
                    let more = moved.files.skip(moved.first_file as int);
                    assert(more =~= found.push(moved.files.last()));
                    assert(more.drop_last() =~= found);
                    assert(weight_of(more, by_size) == weight_of(found, by_size) + disk(
                        entry.place,
                    ).files(by_size));
                    lemma_advanced_counts(disk, moved, by_size);
                } else {
                    let moved = WalkModel {
                        pending: walk.pending.push(
                            DirectoryModel { place: entry.place, relative_path: relative },
                        ),
                        ..rest
                    };
                    assert(pending_weights(disk, moved.pending, by_size).drop_last()
                        =~= pending_weights(disk, walk.pending, by_size));
                    lemma_advanced_counts(disk, moved, by_size);
                }
            },
        },
        _ => {},
    }
}

proof fn lemma_total_of_one(value: nat)
    ensures
        total(seq![value]) == value,
{
    assert(seq![value].drop_last() =~= Seq::<nat>::empty());
    assert(total(Seq::<nat>::empty()) == 0);
}

proof fn lemma_bytes_of_one(file: ScannedModel)
    ensures
        bytes_in(seq![file]) == file.size,
{
    assert(seq![file].drop_last() =~= Seq::<ScannedModel>::empty());
    assert(bytes_in(Seq::<ScannedModel>::empty()) == 0);
}

/// Going on changes nothing of what is at hand, and a path is closed only when nothing waits.
proof fn lemma_advanced_counts(disk: spec_fn(usize) -> Tree, walk: WalkModel, by_size: bool)
    requires
        walk.roots.len() == walk.root,
        walk.advanced() is Ok,
    ensures
        ({
            let next = walk.advanced()->Ok_0;
            let whole = weight_at_hand(disk, walk, by_size);
            if next.root == walk.root {
                (next.stage == ScanStage::Entry || next.stage == ScanStage::Directory)
                    && weight_so_far(disk, next, by_size) == whole
            } else {
                next.root == walk.root + 1 && whole == (if by_size {
                    next.roots[walk.root as int].total_bytes
                } else {
                    next.roots[walk.root as int].file_count
                }) && (next.stage == ScanStage::Root || next.stage == ScanStage::Finished)
            }
        }),
{
    if walk.entries.len() == 0 && walk.pending.len() == 0 {
        assert(entry_weights(disk, walk.entries, by_size) =~= Seq::<nat>::empty());
        assert(pending_weights(disk, walk.pending, by_size) =~= Seq::<nat>::empty());
    }
}

proof fn lemma_truth_of_last(
    disk: spec_fn(usize) -> Tree,
    sources: Seq<SelectedModel>,
    answers: Seq<ScanAnswer>,
)
    requires
        answers.len() > 0,
        truthful(disk, sources, answers),
        walked(sources, answers.drop_last()) matches Ok(walk) && walk.answered_by(answers.last()),
    ensures
        told_truly(disk, walked(sources, answers.drop_last())->Ok_0, answers.last()),
{
    let before = answers.drop_last();
    let walk = walked(sources, before)->Ok_0;
    match walk.question(false) {
        Ok(ScanQuestion::Inspect { place }) => {
            assert(asked(sources, before, inspecting(place)));
        },
        Ok(ScanQuestion::List { place }) => {
            assert(asked(sources, before, listing(place)));
        },
        _ => {},
    }
}

proof fn lemma_counted_so_far(
    disk: spec_fn(usize) -> Tree,
    sources: Seq<SelectedModel>,
    answers: Seq<ScanAnswer>,
    root: usize,
    by_size: bool,
)
    requires
        0 < sources.len() <= usize::MAX,
        coherent(disk),
        answered_in_turn(sources, answers),
        truthful(disk, sources, answers),
        walked(sources, answers) is Ok,
    ensures
        ({
            let walk = walked(sources, answers)->Ok_0;
            &&& root < walk.root ==> disk(root).files(by_size) == if by_size {
                walk.roots[root as int].total_bytes
            } else {
                walk.roots[root as int].file_count
            }
            &&& walk.stage != ScanStage::Root && walk.stage != ScanStage::Finished
                ==> weight_so_far(disk, walk, by_size) == disk(walk.root as usize).files(by_size)
        }),
    decreases answers.len(),
{
    if answers.len() > 0 {
        let before = answers.drop_last();
        let walk = walked(sources, before)->Ok_0;
        let next = walked(sources, answers)->Ok_0;
        let first = walk.first_file as int;
        lemma_well_formed_so_far(sources, before);
        lemma_well_formed_so_far(sources, answers);
        lemma_counted_so_far(disk, sources, before, root, by_size);
        lemma_truth_of_last(disk, sources, answers);
        lemma_step_counts(disk, walk, answers.last(), by_size);
        if next.root != walk.root && root < walk.root {
            assert(next.roots.drop_last() =~= walk.roots);
            assert(next.roots[root as int] == walk.roots[root as int]);
        }
    }
}

/// What is told of in an answer can be read: nothing failed for want of the right, and every file
/// has the owner's, the group's or the others' right to read.
pub open spec fn tells_of_readable(answer: ScanAnswer) -> bool {
    match answer {
        ScanAnswer::Failed(kind) => kind != IoErrorKind::PermissionDenied,
        ScanAnswer::Inspected(EntryKind::File { mode, .. }) => mode & 0o400 != 0 || mode & 0o040
            != 0 || mode & 0o004 != 0,
        _ => true,
    }
}

/// A walk on which everything can be read never ends for want of the right to read.
pub proof fn law_readable_sources_are_read(
    sources: Seq<SelectedModel>,
    answers: Seq<ScanAnswer>,
)
    requires
        forall|i: int| 0 <= i < answers.len() ==> tells_of_readable(#[trigger] answers[i]),
    ensures
        walked(sources, answers) != Err::<WalkModel, SourceScanError>(SourceScanError::Unreadable),
    decreases answers.len(),
{
    if answers.len() > 0 {
        let before = answers.drop_last();
        assert forall|i: int| 0 <= i < before.len() implies tells_of_readable(
            #[trigger] before[i],
        ) by {
            assert(before[i] == answers[i]);
        }
        law_readable_sources_are_read(sources, before);
        let last = answers[answers.len() - 1];
        assert(tells_of_readable(last));
        if let ScanAnswer::Inspected(EntryKind::File { mode, .. }) = last {
            law_any_right_to_read_will_do(mode);
        }
    }
}

/// A walk ends at every file that nobody may read.
pub proof fn law_unreadable_files_end_the_walk(
    walk: WalkModel,
    size: u64,
    modified_at: Option<u64>,
    mode: u32,
)
    requires
        walk.stage == ScanStage::Root || walk.stage == ScanStage::Entry,
        mode & 0o400 == 0,
        mode & 0o040 == 0,
        mode & 0o004 == 0,
    ensures
        walk.after(
            ScanAnswer::Inspected(EntryKind::File { size, modified_at, mode }),
        ) is Err,
{
    law_any_right_to_read_will_do(mode);
}

} // verus!
