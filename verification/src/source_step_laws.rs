//! What each answer does to a walk through selected paths.
use vstd::prelude::*;
use crate::io_kind::IoErrorKind;
use crate::manifest::ManifestError;
use crate::path::sanitized;
use crate::path_order::{
    in_order, lemma_order_exists, path_before, position_before, some_conflict, the_order,
};
use crate::settings::below;
use crate::source_scan::{
    law_any_right_to_read_will_do, EntryKind, ScannedModel, SourceScanError,
};
use crate::source_walk::{
    by_name, by_path, bytes_in, finished, listed_models, paths_of, Listed, ListedModel, RootModel,
    ScanAnswer, ScanQuestion, ScanStage, WalkModel,
};

verus! {

/// Somebody may read the file.
pub open spec fn may_be_read(mode: u32) -> bool {
    mode & 0o400 != 0 || mode & 0o040 != 0 || mode & 0o004 != 0
}

/// The walk is at a selected path with a safe name that was not seen before.
pub open spec fn at_selected_path(walk: WalkModel, relative: Seq<char>) -> bool {
    &&& walk.stage == ScanStage::Root
    &&& walk.root < walk.sources.len()
    &&& walk.first_file == walk.files.len()
    &&& walk.sources[walk.root as int].name matches Some(name) && sanitized(name) == Ok::<
        Seq<char>,
        ManifestError,
    >(relative)
    &&& forall|i: int| 0 <= i < walk.names.len() ==> #[trigger] walk.names[i] != relative
}

/// A selected file that may be read is found, under its own name and as long as it is; its root
/// counts it alone, and the walk goes on to the next selected path.
pub proof fn law_selected_files_are_found(
    walk: WalkModel,
    relative: Seq<char>,
    size: u64,
    modified_at: Option<u64>,
    mode: u32,
)
    requires
        at_selected_path(walk, relative),
        may_be_read(mode),
    ensures
        walk.after(ScanAnswer::Inspected(EntryKind::File { size, modified_at, mode })) matches Ok(
            next,
        ) && {
            &&& next.files == walk.files.push(
                ScannedModel { relative_path: relative, size, modified_at },
            )
            &&& next.roots == walk.roots.push(
                RootModel {
                    path: walk.sources[walk.root as int].path,
                    file_count: 1,
                    total_bytes: size as nat,
                },
            )
            &&& next.root == walk.root + 1
            &&& next.names == walk.names.push(relative)
            &&& next.stage == (if walk.root + 1 < walk.sources.len() {
                ScanStage::Root
            } else {
                ScanStage::Finished
            })
        },
{
    law_any_right_to_read_will_do(mode);
    assert(!walk.names.contains(relative));
    let file = ScannedModel { relative_path: relative, size, modified_at };
    let found = walk.files.push(file).skip(walk.files.len() as int);
    assert(found =~= seq![file]);
    assert(seq![file].drop_last() =~= Seq::<ScannedModel>::empty());
    assert(bytes_in(seq![file].drop_last()) == 0);
    assert(seq![file].last() == file);
    assert(bytes_in(seq![file]) == size as nat);
}

/// A selected directory is turned to.
pub proof fn law_selected_directories_are_turned_to(walk: WalkModel, relative: Seq<char>)
    requires
        at_selected_path(walk, relative),
    ensures
        walk.after(ScanAnswer::Inspected(EntryKind::Directory)) matches Ok(next) && {
            &&& next.stage == ScanStage::Directory
            &&& next.pending.len() == 1 && next.pending[0].place == walk.root as usize
                && next.pending[0].relative_path == relative
            &&& next.files == walk.files && next.roots == walk.roots && next.root == walk.root
        },
{
    assert(!walk.names.contains(relative));
}

/// Of selected paths, links and special files are refused, and so are paths without a name, without
/// a safe name, or with the name of another.
pub proof fn law_selected_paths_are_refused_for_cause(walk: WalkModel, kind: EntryKind)
    requires
        walk.stage == ScanStage::Root,
    ensures
        ({
            let name = walk.sources[walk.root as int].name;
            let next = walk.after(ScanAnswer::Inspected(kind));
            &&& kind == EntryKind::Symlink ==> next == Err::<WalkModel, SourceScanError>(
                SourceScanError::SymlinkNotAllowed,
            )
            &&& kind != EntryKind::Symlink && name is None ==> next == Err::<
                WalkModel,
                SourceScanError,
            >(SourceScanError::InvalidRoot)
            &&& (kind != EntryKind::Symlink && (name matches Some(text) && sanitized(text) is Err))
                ==> next == Err::<WalkModel, SourceScanError>(
                SourceScanError::InvalidRelativePath,
            )
            &&& (kind != EntryKind::Symlink && (name matches Some(text) && sanitized(text) is Ok
                && walk.names.contains(sanitized(text)->Ok_0))) ==> next == Err::<
                WalkModel,
                SourceScanError,
            >(SourceScanError::DuplicatePath)
            &&& kind == EntryKind::Other ==> next is Err
        }),
{
}

/// What is to be looked at next, unless the user has had enough.
pub proof fn law_questions_are_asked_in_turn(walk: WalkModel)
    ensures
        walk.stage == ScanStage::Root ==> walk.question(false) == Ok::<
            ScanQuestion,
            SourceScanError,
        >(ScanQuestion::Inspect { place: walk.root as usize }),
        walk.stage == ScanStage::Directory ==> walk.question(false) == Ok::<
            ScanQuestion,
            SourceScanError,
        >(ScanQuestion::Inspect { place: walk.pending.last().place }),
        walk.stage == ScanStage::Listing ==> walk.question(false) == Ok::<
            ScanQuestion,
            SourceScanError,
        >(ScanQuestion::List { place: walk.directory.place }),
        walk.stage == ScanStage::Finished ==> walk.question(false) == Ok::<
            ScanQuestion,
            SourceScanError,
        >(ScanQuestion::Nothing),
        walk.stage == ScanStage::Entry && sanitized(
            below(walk.directory.relative_path, walk.entries.last().name),
        ) is Ok ==> walk.question(false) == Ok::<ScanQuestion, SourceScanError>(
            ScanQuestion::Inspect { place: walk.entries.last().place },
        ),
        walk.stage == ScanStage::Root || walk.stage == ScanStage::Directory || walk.stage
            == ScanStage::Entry ==> walk.question(true) == Err::<ScanQuestion, SourceScanError>(
            SourceScanError::Cancelled,
        ),
{
}

/// A directory that still is one is listed next; one that became a link, or something else, ends the
/// walk.
pub proof fn law_directories_are_listed(walk: WalkModel, kind: EntryKind)
    requires
        walk.stage == ScanStage::Directory,
        walk.pending.len() > 0,
    ensures
        walk.after(ScanAnswer::Inspected(EntryKind::Directory)) matches Ok(next) && next.stage
            == ScanStage::Listing && next.directory == walk.pending.last() && next.pending
            == walk.pending.drop_last() && next.files == walk.files,
        walk.after(ScanAnswer::Inspected(EntryKind::Symlink)) == Err::<WalkModel, SourceScanError>(
            SourceScanError::SymlinkNotAllowed,
        ),
        kind is File || kind is Other ==> walk.after(ScanAnswer::Inspected(kind)) == Err::<
            WalkModel,
            SourceScanError,
        >(SourceScanError::UnsupportedFileType),
{
}

/// A directory may have up to 1024 entries. Whoever cancels while it is listed is heard; and else
/// all its entries wait to be looked at, in the order of their names.
pub proof fn law_entries_wait_in_order(walk: WalkModel, entries: Vec<Listed>, cancelled: bool)
    requires
        walk.stage == ScanStage::Listing,
    ensures
        ({
            let next = walk.after(ScanAnswer::Entries { entries, cancelled });
            &&& entries@.len() > 1024 ==> next == Err::<WalkModel, SourceScanError>(
                SourceScanError::TooManyEntries,
            )
            &&& entries@.len() <= 1024 ==> next != Err::<WalkModel, SourceScanError>(
                SourceScanError::TooManyEntries,
            )
            &&& entries@.len() <= 1024 && cancelled ==> next == Err::<WalkModel, SourceScanError>(
                SourceScanError::Cancelled,
            )
            &&& 0 < entries@.len() <= 1024 && !cancelled ==> next is Ok && {
                let waiting = next->Ok_0.entries;
                &&& next->Ok_0.stage == ScanStage::Entry
                &&& next->Ok_0.files == walk.files && next->Ok_0.pending == walk.pending
                &&& waiting.len() == entries@.len()
                &&& forall|i: int, j: int|
                    0 <= i < j < waiting.len() ==> (#[trigger] waiting[i]).name == (
                    #[trigger] waiting[j]).name || path_before(waiting[i].name, waiting[j].name)
                &&& forall|i: int|
                    0 <= i < entries@.len() ==> waiting.contains((#[trigger] entries@[i])@)
            }
        }),
{
    if 0 < entries@.len() <= 1024 && !cancelled {
        lemma_by_name(listed_models(entries@));
        assert forall|i: int| 0 <= i < entries@.len() implies by_name(
            listed_models(entries@),
        ).contains((#[trigger] entries@[i])@) by {
            assert(listed_models(entries@)[i] == entries@[i]@);
        }
    }
}

proof fn lemma_by_name(entries: Seq<ListedModel>)
    requires
        entries.len() <= usize::MAX,
    ensures
        by_name(entries).len() == entries.len(),
        forall|i: int, j: int|
            0 <= i < j < entries.len() ==> (#[trigger] by_name(entries)[i]).name == (
            #[trigger] by_name(entries)[j]).name || path_before(
                by_name(entries)[i].name,
                by_name(entries)[j].name,
            ),
        forall|i: int|
            0 <= i < entries.len() ==> by_name(entries).contains(#[trigger] entries[i]),
{
    let names = entries.map_values(|entry: ListedModel| entry.name);
    let order = the_order(names);
    let sorted = by_name(entries);
    lemma_order_exists(names);
    assert(in_order(names, order));
    assert forall|i: int, j: int| 0 <= i < j < entries.len() implies (#[trigger] sorted[i]).name == (
    #[trigger] sorted[j]).name || path_before(sorted[i].name, sorted[j].name) by {
        assert(position_before(names, order[i] as int, order[j] as int));
        assert(order[i] < names.len() && order[j] < names.len());
        assert(names[order[i] as int] == entries[order[i] as int].name);
        assert(names[order[j] as int] == entries[order[j] as int].name);
    }
    assert forall|x: int| 0 <= x < entries.len() implies sorted.contains(#[trigger] entries[x]) by {
        assert(order.contains(x as usize));
        let i = choose|i: int| 0 <= i < order.len() && order[i] == x as usize;
        assert(sorted[i] == entries[x]);
    }
}

/// An entry that is looked at goes below its directory: a file that may be read is found there, a
/// directory waits to be turned to, and links, special files and paths that are not safe end the
/// walk.
pub proof fn law_entries_go_below_their_directory(
    walk: WalkModel,
    size: u64,
    modified_at: Option<u64>,
    mode: u32,
)
    requires
        walk.stage == ScanStage::Entry,
        walk.entries.len() > 0,
    ensures
        ({
            let path = sanitized(below(walk.directory.relative_path, walk.entries.last().name));
            let file = EntryKind::File { size, modified_at, mode };
            &&& path is Err ==> walk.after(ScanAnswer::Inspected(file)) == Err::<
                WalkModel,
                SourceScanError,
            >(SourceScanError::InvalidRelativePath)
            &&& path is Ok ==> {
                &&& walk.after(ScanAnswer::Inspected(EntryKind::Symlink)) == Err::<
                    WalkModel,
                    SourceScanError,
                >(SourceScanError::SymlinkNotAllowed)
                &&& walk.after(ScanAnswer::Inspected(EntryKind::Other)) == Err::<
                    WalkModel,
                    SourceScanError,
                >(SourceScanError::UnsupportedFileType)
                &&& !may_be_read(mode) ==> walk.after(ScanAnswer::Inspected(file)) == Err::<
                    WalkModel,
                    SourceScanError,
                >(SourceScanError::Unreadable)
                &&& may_be_read(mode) && walk.entries.len() > 1 ==> (walk.after(
                    ScanAnswer::Inspected(file),
                ) matches Ok(next) && next.files == walk.files.push(
                    ScannedModel { relative_path: path->Ok_0, size, modified_at },
                ) && next.entries == walk.entries.drop_last() && next.stage == ScanStage::Entry
                    && next.pending == walk.pending)
                &&& may_be_read(mode) && walk.entries.len() == 1 && walk.pending.len() > 0 ==> (
                walk.after(ScanAnswer::Inspected(file)) matches Ok(next) && next.files
                    == walk.files.push(
                    ScannedModel { relative_path: path->Ok_0, size, modified_at },
                ) && next.stage == ScanStage::Directory && next.pending == walk.pending)
                &&& walk.entries.len() > 1 ==> (walk.after(
                    ScanAnswer::Inspected(EntryKind::Directory),
                ) matches Ok(next) && next.files == walk.files && next.pending.len()
                    == walk.pending.len() + 1 && next.pending.last().place
                    == walk.entries.last().place && next.pending.last().relative_path
                    == path->Ok_0 && next.entries == walk.entries.drop_last())
            }
        }),
{
    law_any_right_to_read_will_do(mode);
}

/// A selected path is done once nothing of it is left to look at. It must have brought a file; then
/// its root counts all files that it brought, and all their bytes.
pub proof fn law_selected_paths_are_counted(walk: WalkModel)
    requires
        walk.first_file <= walk.files.len(),
    ensures
        walk.first_file == walk.files.len() ==> walk.root_closed() == Err::<
            WalkModel,
            SourceScanError,
        >(SourceScanError::EmptyDirectory),
        walk.first_file < walk.files.len() ==> {
            let found = walk.files.skip(walk.first_file as int);
            &&& bytes_in(found) > u64::MAX ==> walk.root_closed() == Err::<
                WalkModel,
                SourceScanError,
            >(SourceScanError::SizeOverflow)
            &&& bytes_in(found) <= u64::MAX ==> (walk.root_closed() matches Ok(next) && next.root
                == walk.root + 1 && next.files == walk.files && next.first_file == walk.files.len()
                && next.roots.len() == walk.roots.len() + 1 && next.roots.last().file_count
                == walk.files.len() - walk.first_file && next.roots.last().total_bytes == bytes_in(
                found,
            ) && next.roots.last().path == walk.sources[walk.root as int].path && (next.stage
                == ScanStage::Finished <==> walk.root + 1 >= walk.sources.len()))
        },
{
}

/// A fault of the file system ends the walk, and only the want of a right makes a path unreadable.
pub proof fn law_faults_end_the_walk(walk: WalkModel, kind: IoErrorKind)
    ensures
        walk.after(ScanAnswer::Failed(IoErrorKind::PermissionDenied)) == Err::<
            WalkModel,
            SourceScanError,
        >(SourceScanError::Unreadable),
        kind != IoErrorKind::PermissionDenied ==> walk.after(ScanAnswer::Failed(kind)) == Err::<
            WalkModel,
            SourceScanError,
        >(SourceScanError::Unavailable),
{
}

/// A finished walk gives its files, all of them and each once, in the order of their paths, unless
/// it was cancelled, two of them cannot both be sent, or they are too many bytes together.
pub proof fn law_finished_walks_give_all_files(walk: WalkModel)
    requires
        0 < walk.files.len() <= usize::MAX,
    ensures
        finished(walk, true) == Err::<Seq<ScannedModel>, SourceScanError>(
            SourceScanError::Cancelled,
        ),
        some_conflict(paths_of(walk.files)) ==> finished(walk, false) == Err::<
            Seq<ScannedModel>,
            SourceScanError,
        >(SourceScanError::DuplicatePath),
        !some_conflict(paths_of(walk.files)) && bytes_in(by_path(walk.files)) <= u64::MAX
            ==> finished(walk, false) is Ok,
        finished(walk, false) matches Ok(files) ==> {
            &&& files.len() == walk.files.len()
            &&& !some_conflict(paths_of(walk.files))
            &&& forall|i: int| 0 <= i < walk.files.len() ==> files.contains(#[trigger] walk.files[i])
            &&& forall|i: int, j: int|
                0 <= i < j < files.len() ==> (#[trigger] files[i]).relative_path == (
                #[trigger] files[j]).relative_path || path_before(
                    files[i].relative_path,
                    files[j].relative_path,
                )
        },
{
    let paths = paths_of(walk.files);
    let order = the_order(paths);
    let sorted = by_path(walk.files);
    lemma_order_exists(paths);
    assert(in_order(paths, order));
    assert forall|i: int, j: int| 0 <= i < j < sorted.len() implies (
    #[trigger] sorted[i]).relative_path == (#[trigger] sorted[j]).relative_path || path_before(
        sorted[i].relative_path,
        sorted[j].relative_path,
    ) by {
        assert(position_before(paths, order[i] as int, order[j] as int));
        assert(order[i] < paths.len() && order[j] < paths.len());
        assert(paths[order[i] as int] == walk.files[order[i] as int].relative_path);
        assert(paths[order[j] as int] == walk.files[order[j] as int].relative_path);
    }
    assert forall|x: int| 0 <= x < walk.files.len() implies sorted.contains(
        #[trigger] walk.files[x],
    ) by {
        assert(order.contains(x as usize));
        let i = choose|i: int| 0 <= i < order.len() && order[i] == x as usize;
        assert(sorted[i] == walk.files[x]);
    }
}

} // verus!
