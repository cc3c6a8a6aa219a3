//! Where files may be received to.
use vstd::prelude::*;
use crate::file_name::{directory_above, directory_above_of};
use crate::ident::{hyphenated, TransferId};
use crate::io_kind::IoErrorKind;
use crate::resume::is_empty_text;
use crate::scan::{between, law_pieces_stand_between_separators, piece_views, split, split_on};
use crate::settings::{below, join_path, PathProbe};
use crate::text::chars_of;

verus! {

#[derive(Debug, Clone, Copy, PartialEq, Eq, Structural)]
pub enum DestinationError {
    Empty,
    Unavailable,
    NotDirectory,
    NotWritable,
    SymlinkNotAllowed,
}

impl DestinationError {
    pub fn message(self) -> (text: &'static str)
        ensures
            text@ == match self {
                DestinationError::Empty => "destination path must not be empty"@,
                DestinationError::Unavailable => "destination path is unavailable"@,
                DestinationError::NotDirectory => "destination path is not a directory"@,
                DestinationError::NotWritable => "destination path is not writable"@,
                DestinationError::SymlinkNotAllowed => "destination path contains a symbolic link"@,
            },
    {
        match self {
            Self::Empty => "destination path must not be empty",
            Self::Unavailable => "destination path is unavailable",
            Self::NotDirectory => "destination path is not a directory",
            Self::NotWritable => "destination path is not writable",
            Self::SymlinkNotAllowed => "destination path contains a symbolic link",
        }
    }
}

/// What is found at a path, links not followed but looked through.
#[derive(Debug, Clone, Copy, PartialEq, Eq, Structural)]
pub enum ComponentProbe {
    Missing,
    Failed,
    Directory,
    Symlink { leads_to_directory: bool },
    Other,
}

/// A destination, or a directory above it, as it was found.
#[derive(Debug, Clone, Copy, PartialEq, Eq, Structural)]
pub struct Ancestor {
    pub probe: ComponentProbe,
    pub is_destination: bool,
}

/// What is wrong with one step of the path to a destination. Links are let pass above the
/// destination, where they lead to a directory.
pub open spec fn component_fault(ancestor: Ancestor) -> Option<DestinationError> {
    match ancestor.probe {
        ComponentProbe::Missing | ComponentProbe::Directory => None,
        ComponentProbe::Failed => Some(DestinationError::Unavailable),
        ComponentProbe::Symlink { leads_to_directory } => if ancestor.is_destination {
            Some(DestinationError::SymlinkNotAllowed)
        } else if leads_to_directory {
            None
        } else {
            Some(DestinationError::Unavailable)
        },
        ComponentProbe::Other => if ancestor.is_destination {
            Some(DestinationError::NotDirectory)
        } else {
            Some(DestinationError::Unavailable)
        },
    }
}

/// The first step, in the order given, with something wrong.
pub open spec fn first_component_fault(ancestors: Seq<Ancestor>) -> Option<DestinationError>
    decreases ancestors.len(),
{
    if ancestors.len() == 0 {
        None
    } else {
        match component_fault(ancestors[0]) {
            Some(error) => Some(error),
            None => first_component_fault(ancestors.skip(1)),
        }
    }
}

/// A path one of whose parts leads to the parent directory.
pub open spec fn goes_up(path: Seq<char>) -> bool {
    exists|i: int|
        0 <= i < split_on(path, '/').len() && #[trigger] split_on(path, '/')[i] == seq!['.', '.']
}

pub open spec fn components_fault(path: Seq<char>, ancestors: Seq<Ancestor>) -> Option<
    DestinationError,
> {
    if goes_up(path) {
        Some(DestinationError::Unavailable)
    } else {
        first_component_fault(ancestors)
    }
}

fn mentions_parent(path: &str) -> (up: bool)
    ensures
        up == goes_up(path@),
{
    let chars = chars_of(path);
    let pieces = split(&chars, '/');
    let ghost parts = split_on(path@, '/');
    assert(piece_views(pieces@) == parts);
    let mut i: usize = 0;
    while i < pieces.len()
        invariant
            i <= pieces@.len(),
            parts == split_on(path@, '/'),
            piece_views(pieces@) == parts,
            forall|k: int| 0 <= k < i ==> #[trigger] parts[k] != seq!['.', '.'],
        decreases pieces@.len() - i,
    {
        let piece = &pieces[i];
        assert(parts[i as int] == piece@);
        let ghost two = seq!['.', '.'];
        assert(two.len() == 2 && two[0] == '.' && two[1] == '.');
        if piece.len() == 2 && piece[0] == '.' && piece[1] == '.' {
            assert(piece@ =~= seq!['.', '.']);
            return true;
        }
        i = i + 1;
    }
    false
}

/// Judges every step of the path to a destination.
pub fn validate_destination_components(path: &str, ancestors: &Vec<Ancestor>) -> (result: Result<
    (),
    DestinationError,
>)
    ensures
        result == (match components_fault(path@, ancestors@) {
            Some(error) => Err(error),
            None => Ok::<(), DestinationError>(()),
        }),
{
    if mentions_parent(path) {
        return Err(DestinationError::Unavailable);
    }
    let mut i: usize = 0;
    assert(ancestors@.skip(0) =~= ancestors@);
    while i < ancestors.len()
        invariant
            i <= ancestors@.len(),
            !goes_up(path@),
            first_component_fault(ancestors@) == first_component_fault(ancestors@.skip(i as int)),
        decreases ancestors@.len() - i,
    {
        let ancestor: Ancestor = ancestors[i];
        assert(ancestors@.skip(i as int)[0] == ancestor);
        assert(ancestors@.skip(i as int).skip(1) =~= ancestors@.skip(i as int + 1));
        match ancestor.probe {
            ComponentProbe::Missing | ComponentProbe::Directory => {},
            ComponentProbe::Failed => {
                return Err(DestinationError::Unavailable);
            },
            ComponentProbe::Symlink { leads_to_directory } => {
                if ancestor.is_destination {
                    return Err(DestinationError::SymlinkNotAllowed);
                }
                if !leads_to_directory {
                    return Err(DestinationError::Unavailable);
                }
            },
            ComponentProbe::Other => {
                return Err(
                    if ancestor.is_destination {
                        DestinationError::NotDirectory
                    } else {
                        DestinationError::Unavailable
                    },
                );
            },
        }
        i = i + 1;
    }
    Ok(())
}

/// Where it is tried whether files can be written.
#[derive(Debug, Clone, Copy, PartialEq, Eq, Structural)]
pub enum WritePlace {
    Destination,
    Above,
}

/// Where to try to write for a destination, or why it cannot be used.
pub open spec fn write_place(
    path: Seq<char>,
    ancestors: Seq<Ancestor>,
    found: ComponentProbe,
    above: PathProbe,
) -> Result<WritePlace, DestinationError> {
    if path.len() == 0 {
        Err(DestinationError::Empty)
    } else if components_fault(path, ancestors) is Some {
        Err(components_fault(path, ancestors)->Some_0)
    } else {
        match found {
            ComponentProbe::Directory => Ok(WritePlace::Destination),
            ComponentProbe::Symlink { .. } => Err(DestinationError::SymlinkNotAllowed),
            ComponentProbe::Other => Err(DestinationError::NotDirectory),
            ComponentProbe::Missing => if above == PathProbe::Directory {
                Ok(WritePlace::Above)
            } else {
                Err(DestinationError::Unavailable)
            },
            ComponentProbe::Failed => Err(DestinationError::Unavailable),
        }
    }
}

/// Judges a destination by the steps of its path, by what is found at it and, where nothing is, by
/// what is found above it.
pub fn validate_receive_directory(
    path: &str,
    ancestors: &Vec<Ancestor>,
    found: ComponentProbe,
    above: PathProbe,
) -> (result: Result<WritePlace, DestinationError>)
    ensures
        result == write_place(path@, ancestors@, found, above),
{
    if is_empty_text(path) {
        return Err(DestinationError::Empty);
    }
    validate_destination_components(path, ancestors)?;
    match found {
        ComponentProbe::Directory => Ok(WritePlace::Destination),
        ComponentProbe::Symlink { .. } => Err(DestinationError::SymlinkNotAllowed),
        ComponentProbe::Other => Err(DestinationError::NotDirectory),
        ComponentProbe::Missing => match above {
            PathProbe::Directory => Ok(WritePlace::Above),
            _ => Err(DestinationError::Unavailable),
        },
        ComponentProbe::Failed => Err(DestinationError::Unavailable),
    }
}

/// How the attempt to write and remove a file went.
#[derive(Debug, Clone, Copy, PartialEq, Eq, Structural)]
pub enum WriteProbe {
    Written { removed: bool },
    Refused(IoErrorKind),
}

pub open spec fn write_fault(probe: WriteProbe) -> Option<DestinationError> {
    match probe {
        WriteProbe::Written { removed } => if removed {
            None
        } else {
            Some(DestinationError::NotWritable)
        },
        WriteProbe::Refused(kind) => if kind == IoErrorKind::PermissionDenied || kind
            == IoErrorKind::ReadOnlyFilesystem {
            Some(DestinationError::NotWritable)
        } else {
            Some(DestinationError::Unavailable)
        },
    }
}

pub fn judge_write_probe(probe: WriteProbe) -> (result: Result<(), DestinationError>)
    ensures
        result == (match write_fault(probe) {
            Some(error) => Err(error),
            None => Ok::<(), DestinationError>(()),
        }),
        result is Ok <==> probe == (WriteProbe::Written { removed: true }),
{
    match probe {
        WriteProbe::Written { removed } => if removed {
            Ok(())
        } else {
            Err(DestinationError::NotWritable)
        },
        WriteProbe::Refused(kind) => match kind {
            IoErrorKind::PermissionDenied | IoErrorKind::ReadOnlyFilesystem => Err(
                DestinationError::NotWritable,
            ),
            _ => Err(DestinationError::Unavailable),
        },
    }
}

/// The file that is written to see whether files can be.
pub open spec fn write_check_path_of(path: Seq<char>, place: WritePlace, id: TransferId) -> Seq<
    char,
> {
    below(
        match place {
            WritePlace::Destination => path,
            WritePlace::Above => directory_above_of(path),
        },
        ".drift-write-check-"@ + hyphenated(id.bits()),
    )
}

pub fn write_check_path(path: &str, place: WritePlace, id: TransferId) -> (file: String)
    ensures
        file@ == write_check_path_of(path@, place, id),
{
    let mut name = ".drift-write-check-".to_owned();
    name.append(id.to_text().as_str());
    match place {
        WritePlace::Destination => join_path(path, name.as_str()),
        WritePlace::Above => join_path(directory_above(path).as_str(), name.as_str()),
    }
}

/// A destination that can be written to is no link, and no path to it goes up.
pub proof fn law_usable_destination(
    path: Seq<char>,
    ancestors: Seq<Ancestor>,
    found: ComponentProbe,
    above: PathProbe,
)
    requires
        write_place(path, ancestors, found, above) is Ok,
    ensures
        path.len() > 0,
        !goes_up(path),
        found == ComponentProbe::Directory || (found == ComponentProbe::Missing && above
            == PathProbe::Directory),
        forall|i: int|
            0 <= i < ancestors.len() ==> component_fault(#[trigger] ancestors[i]) is None,
{
    lemma_no_component_fault(ancestors);
}

proof fn lemma_no_component_fault(ancestors: Seq<Ancestor>)
    requires
        first_component_fault(ancestors) is None,
    ensures
        forall|i: int|
            0 <= i < ancestors.len() ==> component_fault(#[trigger] ancestors[i]) is None,
    decreases ancestors.len(),
{
    if ancestors.len() > 0 {
        lemma_no_component_fault(ancestors.skip(1));
        assert forall|i: int| 0 <= i < ancestors.len() implies component_fault(
            #[trigger] ancestors[i],
        ) is None by {
            if i > 0 {
                assert(ancestors.skip(1)[i - 1] == ancestors[i]);
            }
        }
    }
}

/// A destination can be written to exactly if the test file was written and removed again. Where the
/// right to write is missing, or the file system takes no writes, or what was written stays behind,
/// it cannot be written to; after every other fault it is unavailable.
pub proof fn law_destinations_are_tried_by_writing(probe: WriteProbe)
    ensures
        write_fault(probe) is None <==> probe == (WriteProbe::Written { removed: true }),
        write_fault(WriteProbe::Refused(IoErrorKind::PermissionDenied)) == Some(
            DestinationError::NotWritable,
        ),
        write_fault(WriteProbe::Refused(IoErrorKind::ReadOnlyFilesystem)) == Some(
            DestinationError::NotWritable,
        ),
        write_fault(WriteProbe::Written { removed: false }) == Some(DestinationError::NotWritable),
        probe matches WriteProbe::Refused(kind) ==> (write_fault(probe) == Some(
            DestinationError::Unavailable,
        ) <==> kind != IoErrorKind::PermissionDenied && kind != IoErrorKind::ReadOnlyFilesystem),
{
}

proof fn lemma_sound_steps(ancestors: Seq<Ancestor>)
    requires
        forall|i: int|
            0 <= i < ancestors.len() ==> component_fault(#[trigger] ancestors[i]) is None,
    ensures
        first_component_fault(ancestors) is None,
    decreases ancestors.len(),
{
    if ancestors.len() > 0 {
        let rest = ancestors.skip(1);
        assert forall|i: int| 0 <= i < rest.len() implies component_fault(
            #[trigger] rest[i],
        ) is None by {
            assert(rest[i] == ancestors[i + 1]);
        }
        lemma_sound_steps(rest);
    }
}

/// A step on the way to a destination that leads on: nothing is there yet, or a directory is, or,
/// above the destination, a link to one.
pub open spec fn leads_on(step: Ancestor) -> bool {
    match step.probe {
        ComponentProbe::Missing => true,
        ComponentProbe::Directory => true,
        ComponentProbe::Symlink { leads_to_directory } => leads_to_directory
            && !step.is_destination,
        _ => false,
    }
}

/// A destination can be used exactly if its path is not empty and nowhere leads up, every step of it
/// leads on, and it is a directory or can be made in one. Where it is one, it is tried itself, and
/// else the directory above it.
pub proof fn law_destinations_that_can_be_used(
    path: Seq<char>,
    ancestors: Seq<Ancestor>,
    found: ComponentProbe,
    above: PathProbe,
)
    ensures
        write_place(path, ancestors, found, above) is Ok <==> {
            &&& path.len() > 0
            &&& !goes_up(path)
            &&& forall|i: int| 0 <= i < ancestors.len() ==> leads_on(#[trigger] ancestors[i])
            &&& found == ComponentProbe::Directory || (found == ComponentProbe::Missing && above
                == PathProbe::Directory)
        },
        write_place(path, ancestors, found, above) == Ok::<WritePlace, DestinationError>(
            WritePlace::Destination,
        ) ==> found == ComponentProbe::Directory,
        write_place(path, ancestors, found, above) == Ok::<WritePlace, DestinationError>(
            WritePlace::Above,
        ) ==> found == ComponentProbe::Missing && above == PathProbe::Directory,
        path.len() == 0 <==> write_place(path, ancestors, found, above) == Err::<
            WritePlace,
            DestinationError,
        >(DestinationError::Empty),
{
    assert forall|i: int| 0 <= i < ancestors.len() implies component_fault(
        #[trigger] ancestors[i],
    ) is None == leads_on(ancestors[i]) by {}
    if first_component_fault(ancestors) is None {
        lemma_no_component_fault(ancestors);
    }
    if forall|i: int| 0 <= i < ancestors.len() ==> leads_on(#[trigger] ancestors[i]) {
        assert forall|i: int| 0 <= i < ancestors.len() implies component_fault(
            #[trigger] ancestors[i],
        ) is None by {
            assert(leads_on(ancestors[i]));
        }
        lemma_sound_steps(ancestors);
    }
    if write_place(path, ancestors, found, above) is Ok {
        assert forall|i: int| 0 <= i < ancestors.len() implies leads_on(#[trigger] ancestors[i]) by {
            assert(component_fault(ancestors[i]) is None);
        }
    }
    if path.len() > 0 {
        lemma_faults_are_not_empty(ancestors);
    }
}

proof fn lemma_faults_are_not_empty(ancestors: Seq<Ancestor>)
    ensures
        first_component_fault(ancestors) != Some(DestinationError::Empty),
    decreases ancestors.len(),
{
    if ancestors.len() > 0 {
        lemma_faults_are_not_empty(ancestors.skip(1));
    }
}

/// A path leads up exactly if somewhere between two slashes, or at an end of it, stand two points
/// and nothing else.
pub proof fn law_paths_that_lead_up(path: Seq<char>)
    ensures
        goes_up(path) <==> exists|start: int|
            #![trigger path[start]]
            0 <= start && start + 2 <= path.len() && path[start] == '.' && path[start + 1] == '.' && (
            start == 0 || path[start - 1] == '/') && (start + 2 == path.len() || path[start + 2]
                == '/'),
{
    let two = seq!['.', '.'];
    law_pieces_stand_between_separators(path, '/');
    if goes_up(path) {
        let i = choose|i: int|
            0 <= i < split_on(path, '/').len() && #[trigger] split_on(path, '/')[i] == two;
        assert(split_on(path, '/').contains(two));
        let (start, end) = choose|start: int, end: int| #[trigger]
            between(path, '/', start, end) && path.subrange(start, end) == two;
        assert(path.subrange(start, end).len() == 2);
        assert(path.subrange(start, end)[0] == path[start]);
        assert(path.subrange(start, end)[1] == path[start + 1]);
    }
    if exists|start: int|
        #![trigger path[start]]
        0 <= start && start + 2 <= path.len() && path[start] == '.' && path[start + 1] == '.' && (
        start == 0 || path[start - 1] == '/') && (start + 2 == path.len() || path[start + 2]
            == '/') {
        let start = choose|start: int|
            #![trigger path[start]]
            0 <= start && start + 2 <= path.len() && path[start] == '.' && path[start + 1] == '.'
                && (start == 0 || path[start - 1] == '/') && (start + 2 == path.len() || path[start
                + 2] == '/');
        assert(between(path, '/', start, start + 2));
        assert(path.subrange(start, start + 2) =~= two);
        let i = choose|i: int|
            0 <= i < split_on(path, '/').len() && split_on(path, '/')[i] == two;
        assert(split_on(path, '/')[i] == two);
    }
}

/// The file that is written to try a destination lies in it, or in the directory above it where that
/// is tried, and is named after the transfer.
pub proof fn law_test_files_lie_where_they_are_tried(path: Seq<char>, id: TransferId)
    ensures
        write_check_path_of(path, WritePlace::Destination, id) == below(
            path,
            ".drift-write-check-"@ + hyphenated(id.bits()),
        ),
        write_check_path_of(path, WritePlace::Above, id) == below(
            directory_above_of(path),
            ".drift-write-check-"@ + hyphenated(id.bits()),
        ),
{
}

} // verus!
