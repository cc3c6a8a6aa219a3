//! Paths by their parts: the names they end in, the directories above them, and when two are the
//! same. A path is a text whose parts stand between slashes; one that a platform writes otherwise is
//! brought into that form first.
use vstd::prelude::*;
use crate::path::{law_sanitized_is_safe, lemma_parts_are_pieces, sanitized};
use crate::resume::{is_empty_text, texts};
use crate::scan::{
    law_splitting_loses_nothing, lemma_one_more_piece, lemma_one_piece, lemma_split_nonempty,
    piece_views, split, split_on,
};
use crate::settings::Platform;
use crate::text::{chars_of, optional_text, text_of};

verus! {

/// A path without what adds nothing to its end: slashes, and the directory itself.
pub open spec fn without_tail(path: Seq<char>) -> Seq<char>
    decreases path.len(),
{
    if path.len() > 1 && path.last() == '/' {
        without_tail(path.drop_last())
    } else if path.len() > 1 && path.last() == '.' && path[path.len() - 2] == '/' {
        without_tail(path.drop_last())
    } else {
        path
    }
}

/// Cuts off what adds nothing to the end of a path.
pub fn trim_tail<'a>(chars: &'a [char]) -> (name: &'a [char])
    ensures
        name@ == without_tail(chars@),
{
    let mut end: usize = chars.len();
    assert(chars@.take(end as int) =~= chars@);
    while end > 1 && (chars[end - 1] == '/' || (chars[end - 1] == '.' && chars[end - 2] == '/'))
        invariant
            end <= chars@.len(),
            without_tail(chars@) == without_tail(chars@.take(end as int)),
        decreases end,
    {
        assert(chars@.take(end as int).drop_last() =~= chars@.take(end as int - 1));
        end = end - 1;
    }
    let name = vstd::slice::slice_subrange(chars, 0, end);
    assert(name@ =~= chars@.take(end as int));
    name
}

/// The last part of a path, where that names something.
pub open spec fn file_name_of(path: Seq<char>) -> Option<Seq<char>> {
    let last = split_on(without_tail(path), '/').last();
    if last.len() == 0 || last == seq!['.'] || last == seq!['.', '.'] {
        None
    } else {
        Some(last)
    }
}

pub fn file_name(path: &str) -> (name: Option<String>)
    ensures
        optional_text(name) == file_name_of(path@),
{
    let chars = chars_of(path);
    let trimmed = trim_tail(&chars);
    let pieces = split(trimmed, '/');
    proof {
        lemma_split_nonempty(without_tail(path@), '/');
        assert(piece_views(pieces@).last() == pieces@.last()@);
    }
    let last = &pieces[pieces.len() - 1];
    let ghost one = seq!['.'];
    let ghost two = seq!['.', '.'];
    assert(one.len() == 1 && two.len() == 2);
    if last.len() == 0 {
        return None;
    }
    if last.len() == 1 && last[0] == '.' {
        assert(last@ =~= one);
        return None;
    }
    if last.len() == 2 && last[0] == '.' && last[1] == '.' {
        assert(last@ =~= two);
        return None;
    }
    Some(text_of(last))
}

proof fn lemma_last_piece_fits(text: Seq<char>, separator: char)
    ensures
        split_on(text, separator).len() > 0,
        split_on(text, separator).last().len() <= text.len(),
    decreases text.len(),
{
    if text.len() > 0 {
        lemma_last_piece_fits(text.drop_last(), separator);
    }
}

/// How long the last extension of a file name is. A point at the start of a name begins none.
pub open spec fn extension_length(name: Seq<char>) -> Option<nat> {
    let length = split_on(name, '.').last().len();
    if length + 1 < name.len() {
        Some(length)
    } else {
        None
    }
}

/// A path whose file name has an extension put behind it, in place of the last that it had.
pub open spec fn extended(path: Seq<char>, extension: Seq<char>) -> Seq<char> {
    let trimmed = without_tail(path);
    match file_name_of(path) {
        Some(name) => {
            let stem = match extension_length(name) {
                Some(length) => trimmed.take(trimmed.len() - length - 1),
                None => trimmed,
            };
            stem + seq!['.'] + extension
        },
        None => path,
    }
}

/// A path with another extension. The old one goes first: a name that is then no longer one, such
/// as what is left of `..old`, gets no other.
pub open spec fn with_extension(path: Seq<char>, extension: Seq<char>) -> Seq<char> {
    match file_name_of(path) {
        Some(name) => match extension_length(name) {
            Some(length) => extended(path.take(path.len() - length), extension),
            None => extended(path, extension),
        },
        None => path,
    }
}

proof fn lemma_file_name_fits(path: Seq<char>)
    ensures
        without_tail(path).len() <= path.len(),
        file_name_of(path) matches Some(name) ==> name.len() <= without_tail(path).len(),
    decreases path.len(),
{
    if without_tail(path) != path {
        lemma_file_name_fits(path.drop_last());
    }
    lemma_last_piece_fits(without_tail(path), '/');
}

fn length_of_extension(name: &str) -> (length: Option<usize>)
    ensures
        match length {
            Some(count) => extension_length(name@) == Some(count as nat) && count + 1 < name@.len(),
            None => extension_length(name@) is None,
        },
{
    let chars = chars_of(name);
    let pieces = split(&chars, '.');
    proof {
        lemma_last_piece_fits(name@, '.');
        assert(piece_views(pieces@).last() == pieces@.last()@);
    }
    let length: usize = pieces[pieces.len() - 1].len();
    if chars.len() >= 2 && length <= chars.len() - 2 {
        Some(length)
    } else {
        None
    }
}

fn extend(path: &str, extension: &str) -> (result: String)
    ensures
        result@ == extended(path@, extension@),
{
    let name = match file_name(path) {
        Some(name) => name,
        None => {
            return path.to_owned();
        },
    };
    let chars = chars_of(path);
    let trimmed = trim_tail(&chars);
    proof {
        lemma_file_name_fits(path@);
    }
    let kept: usize = match length_of_extension(name.as_str()) {
        Some(length) => trimmed.len() - length - 1,
        None => trimmed.len(),
    };
    let head = vstd::slice::slice_subrange(trimmed, 0, kept);
    assert(head@ =~= trimmed@.take(kept as int));
    assert(trimmed@.take(trimmed@.len() as int) =~= trimmed@);
    let mut result = text_of(head);
    result.push('.');
    result.append(extension);
    assert(result@ =~= extended(path@, extension@));
    result
}

pub fn replace_extension(path: &str, extension: &str) -> (replaced: String)
    ensures
        replaced@ == with_extension(path@, extension@),
{
    let name = match file_name(path) {
        Some(name) => name,
        None => {
            return path.to_owned();
        },
    };
    match length_of_extension(name.as_str()) {
        Some(length) => {
            proof {
                lemma_file_name_fits(path@);
            }
            let chars = chars_of(path);
            let head = vstd::slice::slice_subrange(&chars, 0, chars.len() - length);
            assert(head@ =~= path@.take(path@.len() - length));
            extend(text_of(head).as_str(), extension)
        },
        None => extend(path, extension),
    }
}

/// The directory that a path lies in, as far as the path tells; nothing lies above a root.
pub open spec fn parent_of(path: Seq<char>) -> Option<Seq<char>> {
    let trimmed = without_tail(path);
    let last = split_on(trimmed, '/').last();
    if last.len() == 0 {
        None
    } else {
        Some(without_tail(trimmed.take(trimmed.len() - last.len())))
    }
}

/// The directory above a path, or the current one where the path names none.
pub open spec fn directory_above_of(path: Seq<char>) -> Seq<char> {
    match parent_of(path) {
        Some(parent) => if parent.len() > 0 {
            parent
        } else {
            "."@
        },
        None => "."@,
    }
}

proof fn lemma_tail_fits(path: Seq<char>)
    ensures
        without_tail(path).len() <= path.len(),
    decreases path.len(),
{
    if without_tail(path) != path {
        lemma_tail_fits(path.drop_last());
    }
}

proof fn lemma_parent_is_shorter(path: Seq<char>)
    ensures
        parent_of(path) matches Some(parent) ==> parent.len() < path.len(),
{
    let trimmed = without_tail(path);
    let last = split_on(trimmed, '/').last();
    lemma_tail_fits(path);
    lemma_last_piece_fits(trimmed, '/');
    if last.len() > 0 {
        lemma_tail_fits(trimmed.take(trimmed.len() - last.len()));
    }
}

/// A path and all the directories above it that it names, nearest first.
pub open spec fn ancestors_of(path: Seq<char>) -> Seq<Seq<char>>
    decreases path.len(),
    via ancestors_end
{
    if path.len() == 0 {
        Seq::empty()
    } else {
        match parent_of(path) {
            Some(parent) => seq![path] + ancestors_of(parent),
            None => seq![path],
        }
    }
}

#[via_fn]
proof fn ancestors_end(path: Seq<char>) {
    lemma_parent_is_shorter(path);
}

pub fn parent(path: &str) -> (parent: Option<String>)
    ensures
        optional_text(parent) == parent_of(path@),
{
    let chars = chars_of(path);
    let trimmed = trim_tail(&chars);
    let pieces = split(trimmed, '/');
    proof {
        lemma_last_piece_fits(without_tail(path@), '/');
        assert(piece_views(pieces@).last() == pieces@.last()@);
    }
    let length: usize = pieces[pieces.len() - 1].len();
    if length == 0 {
        return None;
    }
    let head = vstd::slice::slice_subrange(trimmed, 0, trimmed.len() - length);
    assert(head@ =~= trimmed@.take(trimmed@.len() - length));
    Some(text_of(trim_tail(head)))
}

pub fn directory_above(path: &str) -> (directory: String)
    ensures
        directory@ == directory_above_of(path@),
{
    match parent(path) {
        Some(parent) => if is_empty_text(parent.as_str()) {
            ".".to_owned()
        } else {
            parent
        },
        None => ".".to_owned(),
    }
}

pub fn ancestors(path: &str) -> (found: Vec<String>)
    ensures
        texts(found@) == ancestors_of(path@),
{
    let mut found: Vec<String> = Vec::new();
    let mut step = path.to_owned();
    assert(texts(found@) + ancestors_of(step@) =~= ancestors_of(path@));
    while !is_empty_text(step.as_str())
        invariant
            texts(found@) + ancestors_of(step@) == ancestors_of(path@),
        decreases step@.len(),
    {
        let above = match parent(step.as_str()) {
            Some(directory) => directory,
            None => String::new(),
        };
        let ghost before = texts(found@);
        let ghost current = step@;
        proof {
            lemma_parent_is_shorter(current);
        }
        found.push(step);
        assert(texts(found@) =~= before.push(current));
        assert(ancestors_of(current) =~= seq![current] + ancestors_of(above@));
        assert(before.push(current) + ancestors_of(above@) =~= before + ancestors_of(current));
        step = above;
    }
    assert(texts(found@) =~= texts(found@) + ancestors_of(step@));
    found
}

/// A part of a path that counts: not nothing, and not the directory itself but at the start.
pub open spec fn counts(part: Seq<char>, first: bool) -> bool {
    part.len() > 0 && (first || part != seq!['.'])
}

/// Those of the parts of a path that count, in order.
pub open spec fn counted(parts: Seq<Seq<char>>) -> Seq<Seq<char>>
    decreases parts.len(),
{
    if parts.len() == 0 {
        Seq::empty()
    } else {
        let earlier = counted(parts.drop_last());
        if counts(parts.last(), parts.len() == 1) {
            earlier.push(parts.last())
        } else {
            earlier
        }
    }
}

pub open spec fn components_of(path: Seq<char>) -> Seq<Seq<char>> {
    counted(split_on(path, '/'))
}

pub open spec fn rooted(path: Seq<char>) -> bool {
    path.len() > 0 && path[0] == '/'
}

/// Two texts stand for the same path: from the same start, part by part.
pub open spec fn same_path(a: Seq<char>, b: Seq<char>) -> bool {
    rooted(a) == rooted(b) && components_of(a) == components_of(b)
}

fn components(path: &[char]) -> (parts: Vec<Vec<char>>)
    ensures
        piece_views(parts@) == components_of(path@),
{
    let pieces = split(path, '/');
    let ghost all = split_on(path@, '/');
    let mut parts: Vec<Vec<char>> = Vec::new();
    let mut i: usize = 0;
    assert(all.take(0) =~= Seq::empty());
    assert(piece_views(parts@) =~= counted(Seq::empty()));
    while i < pieces.len()
        invariant
            i <= pieces@.len(),
            piece_views(pieces@) == all,
            piece_views(parts@) == counted(all.take(i as int)),
        decreases pieces@.len() - i,
    {
        let piece = &pieces[i];
        let ghost dot = seq!['.'];
        assert(dot.len() == 1 && dot[0] == '.');
        assert(piece@ == all[i as int]);
        assert(all.take(i as int + 1).drop_last() =~= all.take(i as int));
        let own = piece.len() == 1 && piece[0] == '.';
        assert(own == (piece@ == dot)) by {
            if own {
                assert(piece@ =~= dot);
            }
        }
        if piece.len() > 0 && (i == 0 || !own) {
            let ghost before = parts@;
            let part = copy_chars(piece);
            parts.push(part);
            assert(piece_views(parts@) =~= piece_views(before).push(part@));
        }
        i = i + 1;
    }
    assert(all.take(i as int) =~= all);
    parts
}

fn copy_chars(chars: &Vec<char>) -> (copy: Vec<char>)
    ensures
        copy@ == chars@,
{
    let mut copy: Vec<char> = Vec::new();
    let mut i: usize = 0;
    while i < chars.len()
        invariant
            i <= chars@.len(),
            copy@ == chars@.take(i as int),
        decreases chars@.len() - i,
    {
        copy.push(chars[i]);
        assert(chars@.take(i as int + 1) =~= chars@.take(i as int).push(chars@[i as int]));
        i = i + 1;
    }
    assert(chars@.take(i as int) =~= chars@);
    copy
}

fn same_chars(a: &Vec<char>, b: &Vec<char>) -> (same: bool)
    ensures
        same == (a@ == b@),
{
    if a.len() != b.len() {
        return false;
    }
    let mut i: usize = 0;
    while i < a.len()
        invariant
            i <= a@.len() == b@.len(),
            forall|k: int| 0 <= k < i ==> a@[k] == b@[k],
        decreases a@.len() - i,
    {
        if a[i] != b[i] {
            return false;
        }
        i = i + 1;
    }
    assert(a@ =~= b@);
    true
}

/// Whether two texts stand for the same path.
pub fn is_same_path(a: &str, b: &str) -> (same: bool)
    ensures
        same == same_path(a@, b@),
{
    let first = chars_of(a);
    let second = chars_of(b);
    let first_rooted = first.len() > 0 && first[0] == '/';
    let second_rooted = second.len() > 0 && second[0] == '/';
    if first_rooted != second_rooted {
        return false;
    }
    let left = components(&first);
    let right = components(&second);
    let ghost left_parts = components_of(a@);
    let ghost right_parts = components_of(b@);
    assert(piece_views(left@).len() == left@.len());
    assert(piece_views(right@).len() == right@.len());
    if left.len() != right.len() {
        return false;
    }
    let mut i: usize = 0;
    while i < left.len()
        invariant
            i <= left@.len() == right@.len(),
            rooted(a@) == rooted(b@),
            left_parts == components_of(a@),
            right_parts == components_of(b@),
            piece_views(left@) == left_parts,
            piece_views(right@) == right_parts,
            forall|k: int| 0 <= k < i ==> left_parts[k] == right_parts[k],
        decreases left@.len() - i,
    {
        assert(left_parts[i as int] == left@[i as int]@);
        assert(right_parts[i as int] == right@[i as int]@);
        if !same_chars(&left[i], &right[i]) {
            return false;
        }
        i = i + 1;
    }
    assert(left_parts =~= right_parts);
    true
}

/// A path of a platform with slashes between its parts. Windows separates them by back slashes too.
pub open spec fn slashed_of(platform: Platform, path: Seq<char>) -> Seq<char> {
    if platform == Platform::Windows {
        path.map_values(
            |c: char|
                if c == '\\' {
                    '/'
                } else {
                    c
                },
        )
    } else {
        path
    }
}

pub fn slashed(platform: Platform, path: &str) -> (text: String)
    ensures
        text@ == slashed_of(platform, path@),
{
    match platform {
        Platform::Windows => {},
        _ => {
            return path.to_owned();
        },
    }
    let chars = chars_of(path);
    let mut text = String::new();
    let mut i: usize = 0;
    while i < chars.len()
        invariant
            i <= chars@.len(),
            platform == Platform::Windows,
            chars@ == path@,
            text@ == slashed_of(platform, path@).take(i as int),
        decreases chars@.len() - i,
    {
        text.push(
            if chars[i] == '\\' {
                '/'
            } else {
                chars[i]
            },
        );
        assert(slashed_of(platform, path@).take(i as int + 1) =~= slashed_of(platform, path@).take(
            i as int,
        ).push(slashed_of(platform, path@)[i as int]));
        i = i + 1;
    }
    assert(slashed_of(platform, path@).take(i as int) =~= slashed_of(platform, path@));
    text
}

/// A safe path: it passes as it stands.
pub open spec fn is_safe(path: Seq<char>) -> bool {
    sanitized(path) == Ok::<Seq<char>, crate::manifest::ManifestError>(path)
}

proof fn lemma_all_parts_count(parts: Seq<Seq<char>>)
    requires
        forall|i: int|
            0 <= i < parts.len() ==> (#[trigger] parts[i]).len() > 0 && parts[i] != seq!['.'],
    ensures
        counted(parts) == parts,
    decreases parts.len(),
{
    if parts.len() > 0 {
        assert(parts[parts.len() - 1] == parts.last());
        let earlier = parts.drop_last();
        assert forall|i: int| 0 <= i < earlier.len() implies (#[trigger] earlier[i]).len() > 0
            && earlier[i] != seq!['.'] by {
            assert(earlier[i] == parts[i]);
        }
        lemma_all_parts_count(earlier);
        assert(earlier.push(parts.last()) =~= parts);
    } else {
        assert(parts =~= Seq::empty());
    }
}

proof fn lemma_safe_components(path: Seq<char>)
    requires
        is_safe(path),
    ensures
        components_of(path) == split_on(path, '/'),
{
    law_sanitized_is_safe(path);
    lemma_parts_are_pieces(path);
    lemma_all_parts_count(split_on(path, '/'));
}

/// Every path is the same as itself, and two safe paths are the same only if their texts are.
pub proof fn law_same_paths(a: Seq<char>, b: Seq<char>)
    ensures
        same_path(a, a),
        same_path(a, b) == same_path(b, a),
        is_safe(a) && is_safe(b) ==> (same_path(a, b) <==> a == b),
        same_path(a, b) && a.len() > 0 && a[0] == '/' ==> b.len() > 0 && b[0] == '/',
{
    if is_safe(a) && is_safe(b) && same_path(a, b) {
        lemma_safe_components(a);
        lemma_safe_components(b);
        law_splitting_loses_nothing(a, '/');
        law_splitting_loses_nothing(b, '/');
    }
}

/// A slash at the end of a path that does not end in one adds nothing to it.
pub proof fn law_a_slash_at_the_end_adds_nothing(path: Seq<char>)
    requires
        path.len() > 0,
    ensures
        same_path(path, path.push('/')),
{
    let longer = path.push('/');
    assert(longer.drop_last() =~= path);
    let pieces = split_on(longer, '/');
    lemma_split_nonempty(path, '/');
    assert(pieces =~= split_on(path, '/').push(Seq::empty()));
    assert(pieces.drop_last() =~= split_on(path, '/'));
}

/// What adds nothing to the end of a path is only slashes and points, and what is left does not end
/// in such a way.
pub proof fn law_only_slashes_and_points_are_cut_off(path: Seq<char>)
    ensures
        ({
            let kept = without_tail(path);
            &&& kept.len() <= path.len()
            &&& path.take(kept.len() as int) == kept
            &&& path.len() > 0 ==> kept.len() > 0
            &&& forall|i: int|
                kept.len() <= i < path.len() ==> #[trigger] path[i] == '/' || path[i] == '.'
            &&& kept.len() > 1 ==> kept[kept.len() - 1] != '/' && !(kept[kept.len() - 1] == '.'
                && kept[kept.len() - 2] == '/')
        }),
    decreases path.len(),
{
    let kept = without_tail(path);
    if path.len() > 1 && (path.last() == '/' || (path.last() == '.' && path[path.len() - 2] == '/')) {
        let rest = path.drop_last();
        law_only_slashes_and_points_are_cut_off(rest);
        assert(rest.take(kept.len() as int) =~= path.take(kept.len() as int));
        assert forall|i: int| kept.len() <= i < path.len() implies #[trigger] path[i] == '/'
            || path[i] == '.' by {
            if i < rest.len() {
                assert(rest[i] == path[i]);
            }
        }
    } else {
        assert(path.take(path.len() as int) =~= path);
    }
}

/// A path that ends in a slash and a plain name has that name, and lies in the directory before the
/// slash.
pub proof fn law_paths_end_in_their_names(directory: Seq<char>, name: Seq<char>)
    requires
        name.len() > 0,
        !name.contains('/'),
        name != seq!['.'],
        name != seq!['.', '.'],
    ensures
        file_name_of(directory.push('/') + name) == Some(name),
        file_name_of(name) == Some(name),
        parent_of(directory.push('/') + name) == Some(without_tail(directory.push('/'))),
        parent_of(name) == Some(Seq::<char>::empty()),
        directory_above_of(name) == "."@,
{
    let path = directory.push('/') + name;
    let last = name[name.len() - 1];
    assert(path.last() == last);
    assert(last != '/') by {
        assert(name.contains(last));
    }
    assert(without_tail(path) == path) by {
        if last == '.' && path[path.len() - 2] == '/' {
            if name.len() > 1 {
                assert(path[path.len() - 2] == name[name.len() - 2]);
                assert(name.contains(name[name.len() - 2]));
            } else {
                assert(name =~= seq!['.']);
            }
        }
    }
    assert(without_tail(name) == name) by {
        if name.len() > 1 {
            assert(name.contains(name[name.len() - 2]));
        }
    }
    lemma_one_piece(name, '/');
    lemma_one_more_piece(directory, '/', name);
    assert(path.take(path.len() - name.len()) =~= directory.push('/'));
    assert(name.take(0) =~= Seq::<char>::empty());
}

/// A file name with a plain extension keeps its stem under another one.
pub proof fn law_extensions_are_replaced(stem: Seq<char>, old_one: Seq<char>, new_one: Seq<char>)
    requires
        stem.len() > 0,
        old_one.len() > 0,
        !stem.contains('/'),
        !old_one.contains('/'),
        !old_one.contains('.'),
        !(stem[0] == '.' && stem.len() <= 2),
    ensures
        with_extension(stem.push('.') + old_one, new_one) == stem.push('.') + new_one,
{
    let name = stem.push('.') + old_one;
    let c = old_one[old_one.len() - 1];
    assert(old_one.contains(c));
    assert(name.last() == c);
    assert(!name.contains('/')) by {
        assert forall|i: int| 0 <= i < name.len() implies name[i] != '/' by {
            if i < stem.len() {
                assert(name[i] == stem[i]);
                assert(stem.contains(stem[i]));
            } else if i > stem.len() {
                assert(name[i] == old_one[i - stem.len() - 1]);
                assert(old_one.contains(old_one[i - stem.len() - 1]));
            }
        }
    }
    assert(name != seq!['.'] && name != seq!['.', '.']) by {
        assert(name.len() > 2);
    }
    law_paths_end_in_their_names(Seq::empty(), name);
    assert(name.last() == c);
    assert(without_tail(name) == name) by {
        assert(name.contains(name.last()));
    }
    lemma_one_more_piece(stem, '.', old_one);
    let cut = name.take(name.len() - old_one.len());
    assert(cut =~= stem.push('.'));
    assert(!cut.contains('/')) by {
        assert forall|i: int| 0 <= i < cut.len() implies cut[i] != '/' by {
            assert(cut[i] == name[i]);
            assert(name.contains(name[i]));
        }
    }
    assert(cut != seq!['.'] && cut != seq!['.', '.']) by {
        assert(cut.len() > 1);
        if cut == seq!['.', '.'] {
            assert(cut[0] == stem[0]);
            assert(cut.len() == 2);
        }
    }
    law_paths_end_in_their_names(Seq::empty(), cut);
    assert(without_tail(cut) == cut) by {
        assert(cut.last() == '.');
        assert(cut[cut.len() - 2] == stem[stem.len() - 1]);
        assert(stem.contains(stem[stem.len() - 1]));
    }
    lemma_one_more_piece(stem, '.', Seq::empty());
    assert(stem.push('.') + Seq::<char>::empty() =~= stem.push('.'));
    assert(cut.take(cut.len() - 1) =~= stem);
    assert(extension_length(cut) == Some(0nat));
    assert(stem + seq!['.'] + new_one =~= stem.push('.') + new_one);
}

/// A path of Windows is split at back slashes too; those of other platforms stay as they are.
pub proof fn law_back_slashes_separate_on_windows(platform: Platform, path: Seq<char>)
    ensures
        slashed_of(platform, path).len() == path.len(),
        platform != Platform::Windows ==> slashed_of(platform, path) == path,
        forall|i: int|
            0 <= i < path.len() ==> #[trigger] slashed_of(Platform::Windows, path)[i] == (
            if path[i] == '\\' {
                '/'
            } else {
                path[i]
            }),
{
}

/// A point for the directory itself adds nothing behind a slash, but counts at the start of a path.
pub proof fn law_points_count_at_the_start_only(path: Seq<char>, name: Seq<char>)
    requires
        path.len() > 0,
        name.len() > 0,
        !name.contains('/'),
        name != seq!['.'],
    ensures
        same_path(path, path.push('/').push('.')),
        !same_path(seq!['.', '/'] + name, name),
        components_of(name) == seq![name],
        components_of(seq!['.', '/'] + name) == seq![seq!['.'], name],
{
    let dot = seq!['.'];
    assert(path.push('/').push('.') =~= path.push('/') + dot);
    lemma_one_more_piece(path, '/', dot);
    lemma_split_nonempty(path, '/');
    let longer = split_on(path, '/').push(dot);
    assert(longer.drop_last() =~= split_on(path, '/'));
    lemma_one_piece(name, '/');
    lemma_one_piece(dot, '/');
    lemma_one_more_piece(dot, '/', name);
    assert(seq!['.', '/'] + name =~= dot.push('/') + name);
    let both = seq![dot, name];
    assert(seq![dot].push(name) =~= both);
    assert(both.drop_last() =~= seq![dot]);
    assert(seq![dot].drop_last() =~= Seq::<Seq<char>>::empty());
    assert(seq![name].drop_last() =~= Seq::<Seq<char>>::empty());
    assert(counted(Seq::<Seq<char>>::empty()) =~= Seq::<Seq<char>>::empty());
    assert(counted(seq![dot]) =~= seq![dot]);
    assert(counted(both) =~= both);
    assert(counted(seq![name]) =~= seq![name]);
    assert(components_of(name).len() == 1 && components_of(seq!['.', '/'] + name).len() == 2);
}

/// The directories above a path begin with the path itself; each is the one that the one before it
/// lies in, and above the last there is none that has a name.
pub proof fn law_ancestors_lead_to_the_top(path: Seq<char>)
    ensures
        ({
            let found = ancestors_of(path);
            &&& path.len() == 0 <==> found.len() == 0
            &&& path.len() > 0 ==> found[0] == path
            &&& forall|i: int|
                0 <= i < found.len() - 1 ==> parent_of(#[trigger] found[i]) == Some(found[i + 1])
            &&& forall|i: int| 0 <= i < found.len() ==> (#[trigger] found[i]).len() > 0
            &&& found.len() > 0 ==> (parent_of(found.last()) is None || parent_of(
                found.last(),
            )->Some_0.len() == 0)
        }),
    decreases path.len(),
{
    if path.len() > 0 {
        lemma_parent_is_shorter(path);
        let found = ancestors_of(path);
        match parent_of(path) {
            Some(parent) => {
                law_ancestors_lead_to_the_top(parent);
                let rest = ancestors_of(parent);
                assert(found =~= seq![path] + rest);
                assert forall|i: int| 0 <= i < found.len() - 1 implies parent_of(
                    #[trigger] found[i],
                ) == Some(found[i + 1]) by {
                    if i > 0 {
                        assert(found[i] == rest[i - 1]);
                        assert(found[i + 1] == rest[i]);
                        assert(parent_of(rest[i - 1]) == Some(rest[i - 1 + 1]));
                    } else {
                        assert(found[1] == rest[0]);
                    }
                }
                assert forall|i: int| 0 <= i < found.len() implies (#[trigger] found[i]).len()
                    > 0 by {
                    if i > 0 {
                        assert(found[i] == rest[i - 1]);
                    }
                }
                if rest.len() > 0 {
                    assert(found.last() == rest.last());
                } else {
                    assert(found.last() == path);
                }
            },
            None => {},
        }
    }
}

/// What leads to the directory itself, to its parent, or nowhere has no name.
pub proof fn law_directories_by_points_have_no_name(directory: Seq<char>)
    ensures
        file_name_of(directory.push('/') + seq!['.', '.']) is None,
        file_name_of(seq!['.', '.']) is None,
        file_name_of(seq!['.']) is None,
        file_name_of(seq!['/']) is None,
        file_name_of(Seq::<char>::empty()) is None,
{
    let two = seq!['.', '.'];
    let path = directory.push('/') + two;
    assert(path.last() == '.' && path[path.len() - 2] == '.');
    assert(without_tail(path) == path);
    lemma_one_more_piece(directory, '/', two);
    assert(two[0] == '.' && two[1] == '.');
    assert(without_tail(two) == two);
    lemma_one_piece(two, '/');
    lemma_one_piece(seq!['.'], '/');
    assert(without_tail(seq!['/']) == seq!['/']);
    assert(split_on(seq!['/'], '/').last() =~= Seq::<char>::empty()) by {
        assert(seq!['/'].last() == '/');
    }
    assert(split_on(Seq::<char>::empty(), '/').last() =~= Seq::<char>::empty());
}

} // verus!
