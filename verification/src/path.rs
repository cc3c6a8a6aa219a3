//! Relative paths that are safe to create below a directory.
use vstd::prelude::*;
use crate::manifest::ManifestError;
use crate::scan::{between, law_pieces_stand_between_separators, split_on};
use crate::text::{chars_of, text_of};

verus! {

/// A path with every backslash turned into a slash.
pub open spec fn portable(path: Seq<char>) -> Seq<char> {
    path.map_values(
        |c: char|
            if c == '\\' {
                '/'
            } else {
                c
            },
    )
}

/// The parts of a path between its slashes.
pub open spec fn parts(path: Seq<char>) -> Seq<Seq<char>>
    decreases path.len(),
{
    if path.len() == 0 {
        seq![Seq::empty()]
    } else {
        let earlier = parts(path.drop_last());
        if path.last() == '/' {
            earlier.push(Seq::empty())
        } else {
            earlier.drop_last().push(earlier.last().push(path.last()))
        }
    }
}

/// A part that names nothing, the directory itself or its parent.
pub open spec fn bad_part(part: Seq<char>) -> bool {
    ||| part.len() == 0
    ||| part == seq!['.']
    ||| part == seq!['.', '.']
}

pub open spec fn has_bad_part(path: Seq<char>) -> bool {
    exists|i: int| 0 <= i < parts(path).len() && bad_part(#[trigger] parts(path)[i])
}

pub open spec fn ascii_letter(c: char) -> bool {
    (97 <= c as u32 && c as u32 <= 122) || (65 <= c as u32 && c as u32 <= 90)
}

/// A drive letter and a colon.
pub open spec fn has_drive_prefix(path: Seq<char>) -> bool {
    path.len() >= 2 && ascii_letter(path[0]) && path[1] == ':'
}

/// A path that starts at a root or at a drive.
pub open spec fn absolute(path: Seq<char>) -> bool {
    (path.len() > 0 && path[0] == '/') || has_drive_prefix(path)
}

/// The safe relative path that `path` stands for, or why there is none.
pub open spec fn sanitized(path: Seq<char>) -> Result<Seq<char>, ManifestError> {
    if path.len() == 0 {
        Err(ManifestError::EmptyPath)
    } else if path.contains('\0') {
        Err(ManifestError::NulByte)
    } else if absolute(portable(path)) {
        Err(ManifestError::AbsolutePath)
    } else if has_bad_part(portable(path)) {
        Err(ManifestError::InvalidComponent)
    } else {
        Ok(portable(path))
    }
}

proof fn lemma_parts_nonempty(path: Seq<char>)
    ensures
        parts(path).len() > 0,
    decreases path.len(),
{
    if path.len() > 0 {
        lemma_parts_nonempty(path.drop_last());
    }
}

/// The parts before the last of a prefix are parts of the whole path.
proof fn lemma_parts_prefix(path: Seq<char>, upto: int)
    requires
        0 <= upto <= path.len(),
    ensures
        parts(path.take(upto)).len() <= parts(path).len(),
        forall|i: int|
            0 <= i < parts(path.take(upto)).len() - 1 ==> parts(path)[i] == #[trigger] parts(
                path.take(upto),
            )[i],
    decreases path.len(),
{
    if upto < path.len() {
        assert(path.drop_last().take(upto) =~= path.take(upto));
        lemma_parts_prefix(path.drop_last(), upto);
        lemma_parts_nonempty(path.drop_last());
    } else {
        assert(path.take(upto) =~= path);
    }
}

/// A text without slashes is a single part.
pub proof fn lemma_single_part(path: Seq<char>)
    requires
        !path.contains('/'),
    ensures
        parts(path) == seq![path],
    decreases path.len(),
{
    if path.len() > 0 {
        let rest = path.drop_last();
        assert forall|i: int| 0 <= i < rest.len() implies rest[i] != '/' by {
            assert(path[i] == rest[i]);
        }
        lemma_single_part(rest);
        assert(path[path.len() - 1] == path.last());
        assert(parts(path) =~= seq![rest.push(path.last())]);
        assert(rest.push(path.last()) =~= path);
    } else {
        assert(path =~= Seq::empty());
    }
}

fn is_bad_part(path: &Vec<char>, start: usize, end: usize) -> (bad: bool)
    requires
        start <= end <= path@.len(),
    ensures
        bad == bad_part(path@.subrange(start as int, end as int)),
{
    let ghost part = path@.subrange(start as int, end as int);
    if end - start == 0 {
        return true;
    }
    if end - start == 1 && path[start] == '.' {
        assert(part =~= seq!['.']);
        return true;
    }
    if end - start == 2 && path[start] == '.' && path[start + 1] == '.' {
        assert(part =~= seq!['.', '.']);
        return true;
    }
    proof {
        let one = seq!['.'];
        let two = seq!['.', '.'];
        assert(one.len() == 1 && one[0] == '.');
        assert(two.len() == 2 && two[0] == '.' && two[1] == '.');
        assert(part[0] == path@[start as int]);
        if part.len() == 2 {
            assert(part[1] == path@[start as int + 1]);
        }
    }
    false
}

/// Whether some part of a path is bad.
fn any_bad_part(path: &Vec<char>) -> (bad: bool)
    ensures
        bad == has_bad_part(path@),
{
    let mut start: usize = 0;
    let mut i: usize = 0;
    assert(path@.take(0) =~= Seq::<char>::empty());
    assert(path@.subrange(0, 0) =~= Seq::<char>::empty());
    while i < path.len()
        invariant
            start <= i <= path@.len(),
            ({
                let seen = parts(path@.take(i as int));
                &&& seen.len() > 0
                &&& seen.last() == path@.subrange(start as int, i as int)
                &&& forall|k: int| 0 <= k < seen.len() - 1 ==> !bad_part(#[trigger] seen[k])
            }),
        decreases path@.len() - i,
    {
        let ghost next = path@.take(i as int + 1);
        assert(next.drop_last() =~= path@.take(i as int));
        proof {
            lemma_parts_nonempty(next);
        }
        if path[i] == '/' {
            let ghost seen = parts(path@.take(i as int));
            if is_bad_part(path, start, i) {
                proof {
                    lemma_parts_prefix(path@, i as int + 1);
                    assert(parts(next)[seen.len() - 1] == seen.last());
                    assert(bad_part(parts(path@)[seen.len() - 1]));
                }
                return true;
            }
            start = i + 1;
            assert(path@.subrange(start as int, i as int + 1) =~= Seq::<char>::empty());
            assert forall|k: int| 0 <= k < parts(next).len() - 1 implies !bad_part(
                #[trigger] parts(next)[k],
            ) by {
                assert(parts(next)[k] == seen[k]);
            }
        } else {
            assert(path@.subrange(start as int, i as int).push(path@[i as int]) =~= path@.subrange(
                start as int,
                i as int + 1,
            ));
        }
        i = i + 1;
    }
    assert(path@.take(i as int) =~= path@);
    let bad = is_bad_part(path, start, i);
    proof {
        if bad {
            assert(bad_part(parts(path@)[parts(path@).len() - 1]));
        } else {
            assert forall|k: int| 0 <= k < parts(path@).len() implies !bad_part(
                #[trigger] parts(path@)[k],
            ) by {
                if k == parts(path@).len() - 1 {
                    assert(parts(path@)[k] == parts(path@).last());
                }
            }
        }
    }
    bad
}

/// Checks and normalises a relative path: no root, no drive, no empty part, no `.` and no `..`.
pub fn sanitize_relative_path(path: &str) -> (result: Result<String, ManifestError>)
    ensures
        match result {
            Ok(text) => sanitized(path@) == Ok::<Seq<char>, ManifestError>(text@),
            Err(error) => sanitized(path@) == Err::<Seq<char>, ManifestError>(error),
        },
{
    let raw = chars_of(path);
    if raw.len() == 0 {
        return Err(ManifestError::EmptyPath);
    }
    let mut clean: Vec<char> = Vec::new();
    let mut i: usize = 0;
    while i < raw.len()
        invariant
            i <= raw@.len(),
            raw@ == path@,
            raw@.len() > 0,
            clean@ == portable(raw@.take(i as int)),
            !raw@.take(i as int).contains('\0'),
        decreases raw@.len() - i,
    {
        let c: char = raw[i];
        if c == '\0' {
            assert(raw@[i as int] == '\0');
            return Err(ManifestError::NulByte);
        }
        clean.push(
            if c == '\\' {
                '/'
            } else {
                c
            },
        );
        assert(clean@ =~= portable(raw@.take(i as int + 1)));
        assert(!raw@.take(i as int + 1).contains('\0')) by {
            let seen = raw@.take(i as int);
            let next = raw@.take(i as int + 1);
            assert forall|k: int| 0 <= k < next.len() implies next[k] != '\0' by {
                if k < i {
                    assert(seen.contains(seen[k]));
                }
            }
        }
        i = i + 1;
    }
    assert(raw@.take(i as int) =~= raw@);
    if clean[0] == '/' {
        return Err(ManifestError::AbsolutePath);
    }
    if clean.len() >= 2 {
        let letter: char = clean[0];
        let first: u32 = letter as u32;
        if ((first >= 97 && first <= 122) || (first >= 65 && first <= 90)) && clean[1] == ':' {
            return Err(ManifestError::AbsolutePath);
        }
    }
    if any_bad_part(&clean) {
        return Err(ManifestError::InvalidComponent);
    }
    Ok(text_of(&clean))
}

/// What passed once passes again, unchanged.
pub proof fn law_sanitize_idempotent(path: Seq<char>)
    requires
        sanitized(path) is Ok,
    ensures
        sanitized(sanitized(path)->Ok_0) == sanitized(path),
{
    let clean = portable(path);
    assert(portable(clean) =~= clean);
    assert(!clean.contains('\0')) by {
        assert forall|i: int| 0 <= i < clean.len() implies clean[i] != '\0' by {
            assert(path.contains(path[i]));
        }
    }
}

/// A path that passes stays below the directory it is joined to: it has no root and no drive, and
/// none of its parts is empty or leads to the directory itself or its parent.
pub proof fn law_sanitized_is_safe(path: Seq<char>)
    requires
        sanitized(path) is Ok,
    ensures
        ({
            let clean = sanitized(path)->Ok_0;
            &&& clean.len() == path.len()
            &&& clean.len() > 0
            &&& !absolute(clean)
            &&& !clean.contains('\\')
            &&& forall|i: int|
                0 <= i < parts(clean).len() ==> {
                    let part = #[trigger] parts(clean)[i];
                    part.len() > 0 && part != seq!['.'] && part != seq!['.', '.']
                }
        }),
{
    let clean = portable(path);
    assert forall|i: int| 0 <= i < parts(clean).len() implies !bad_part(
        #[trigger] parts(clean)[i],
    ) by {}
}

/// The parts of a path are its pieces between slashes.
pub proof fn lemma_parts_are_pieces(path: Seq<char>)
    ensures
        parts(path) == split_on(path, '/'),
    decreases path.len(),
{
    if path.len() > 0 {
        lemma_parts_are_pieces(path.drop_last());
    }
}

/// A slash of either kind.
pub open spec fn separates(c: char) -> bool {
    c == '/' || c == '\\'
}

/// Between two separators, or the ends of the path, stand two points, one or none.
pub open spec fn names_nothing(path: Seq<char>, start: int, end: int) -> bool {
    &&& 0 <= start <= end <= path.len()
    &&& end - start <= 2
    &&& start == 0 || separates(path[start - 1])
    &&& end == path.len() || separates(path[end])
    &&& forall|k: int| start <= k < end ==> #[trigger] path[k] == '.'
}

/// Some stretch of the path names nothing.
pub open spec fn has_nothing(path: Seq<char>) -> bool {
    exists|start: int, end: int| #[trigger] names_nothing(path, start, end)
}

proof fn lemma_bad_parts_name_nothing(path: Seq<char>)
    ensures
        has_bad_part(portable(path)) <==> has_nothing(path),
{
    let clean = portable(path);
    lemma_parts_are_pieces(clean);
    law_pieces_stand_between_separators(clean, '/');
    let one = seq!['.'];
    let two = seq!['.', '.'];
    if has_bad_part(clean) {
        let i = choose|i: int| 0 <= i < parts(clean).len() && bad_part(#[trigger] parts(clean)[i]);
        let part = parts(clean)[i];
        assert(split_on(clean, '/').contains(part));
        let (start, end) = choose|start: int, end: int| #[trigger]
            between(clean, '/', start, end) && clean.subrange(start, end) == part;
        assert(part.len() == end - start);
        assert forall|k: int| start <= k < end implies #[trigger] path[k] == '.' by {
            assert(part[k - start] == clean[k]);
        }
        assert(names_nothing(path, start, end)) by {
            if start > 0 {
                assert(clean[start - 1] == '/');
            }
            if end < path.len() {
                assert(clean[end] == '/');
            }
        }
    }
    if has_nothing(path) {
        let (start, end) = choose|start: int, end: int| #[trigger] names_nothing(path, start, end);
        assert(between(clean, '/', start, end)) by {
            assert forall|k: int| start <= k < end implies #[trigger] clean[k] != '/' by {
                assert(path[k] == '.');
            }
        }
        let part = clean.subrange(start, end);
        assert forall|k: int| 0 <= k < part.len() implies part[k] == '.' by {
            assert(path[start + k] == '.');
        }
        if part.len() == 1 {
            assert(part =~= one);
        }
        if part.len() == 2 {
            assert(part =~= two);
        }
        let i = choose|i: int| 0 <= i < split_on(clean, '/').len() && split_on(clean, '/')[i] == part;
        assert(bad_part(parts(clean)[i]));
    }
}

/// A path passes exactly if it is not empty, holds no null character, starts neither with a
/// separator nor with a drive (a letter from a to z or from A to Z and a colon), and nowhere between
/// two separators, slashes of either kind, or at its ends, stand two points, one or none. What passes
/// keeps every character, but that back slashes become slashes. What does not pass is refused for
/// the first of these reasons that holds.
pub proof fn law_safe_paths_pass(path: Seq<char>)
    ensures
        ({
            let nul = exists|i: int| 0 <= i < path.len() && #[trigger] path[i] == '\0';
            let letter = path.len() >= 2 && ((97 <= path[0] as u32 <= 122) || (65 <= path[0]
                as u32 <= 90));
            let anchored = path.len() > 0 && separates(path[0]) || (letter && path[1] == ':');
            match sanitized(path) {
                Err(ManifestError::EmptyPath) => path.len() == 0,
                Err(ManifestError::NulByte) => nul,
                Err(ManifestError::AbsolutePath) => path.len() > 0 && !nul && anchored,
                Err(ManifestError::InvalidComponent) => path.len() > 0 && !nul && !anchored
                    && has_nothing(path),
                Err(_) => false,
                Ok(clean) => {
                    &&& path.len() > 0 && !nul && !anchored && !has_nothing(path)
                    &&& clean.len() == path.len()
                    &&& forall|i: int|
                        0 <= i < path.len() ==> #[trigger] clean[i] == (if path[i] == '\\' {
                            '/'
                        } else {
                            path[i]
                        })
                },
            }
        }),
{
    lemma_bad_parts_name_nothing(path);
    let clean = portable(path);
    let nul = exists|i: int| 0 <= i < path.len() && #[trigger] path[i] == '\0';
    assert(path.contains('\0') == nul);
    let letter = path.len() >= 2 && ((97 <= path[0] as u32 <= 122) || (65 <= path[0]
        as u32 <= 90));
    assert(has_drive_prefix(clean) == (letter && path[1] == ':')) by {
        if path.len() >= 2 {
            let first = path[0];
            assert(clean[0] == (if first == '\\' { '/' } else { first }));
            assert(clean[1] == (if path[1] == '\\' { '/' } else { path[1] }));
            assert(!ascii_letter('/') && !ascii_letter('\\'));
        }
    }
    assert(absolute(clean) == (path.len() > 0 && separates(path[0]) || (letter && path[1] == ':')));
}

} // verus!
