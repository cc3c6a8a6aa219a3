//! The order of paths by their parts, sorting by it, and conflicts between paths.
use vstd::prelude::*;

verus! {

/// Where a character stands in the order of paths: a slash, which ends a part, comes first.
pub open spec fn rank(c: char) -> int {
    if c == '/' {
        0
    } else {
        c as int + 1
    }
}

/// Path `a` comes before path `b`, part by part.
pub open spec fn path_before(a: Seq<char>, b: Seq<char>) -> bool
    decreases a.len(),
{
    if b.len() == 0 {
        false
    } else if a.len() == 0 {
        true
    } else if rank(a[0]) != rank(b[0]) {
        rank(a[0]) < rank(b[0])
    } else {
        path_before(a.skip(1), b.skip(1))
    }
}

/// One path is a directory that the other one lies in.
pub open spec fn lies_below(dir: Seq<char>, path: Seq<char>) -> bool {
    &&& dir.len() < path.len()
    &&& path.take(dir.len() as int) == dir
    &&& path[dir.len() as int] == '/'
}

/// Two files cannot both be created: they are the same, or one would have to be a directory.
pub open spec fn conflict(a: Seq<char>, b: Seq<char>) -> bool {
    a == b || lies_below(a, b) || lies_below(b, a)
}

pub open spec fn some_conflict(paths: Seq<Seq<char>>) -> bool {
    exists|i: int, j: int|
        0 <= i < j < paths.len() && conflict(#[trigger] paths[i], #[trigger] paths[j])
}

proof fn lemma_rank_injective(c: char, d: char)
    ensures
        rank(c) == rank(d) ==> c == d,
        rank(c) >= 0,
        c as int >= 0,
        d as int >= 0,
{
}

pub proof fn lemma_before_transitive(a: Seq<char>, b: Seq<char>, c: Seq<char>)
    requires
        path_before(a, b),
        path_before(b, c),
    ensures
        path_before(a, c),
    decreases a.len(),
{
    if a.len() > 0 && rank(a[0]) == rank(b[0]) && rank(b[0]) == rank(c[0]) {
        lemma_before_transitive(a.skip(1), b.skip(1), c.skip(1));
    }
}

pub proof fn lemma_before_irreflexive(a: Seq<char>)
    ensures
        !path_before(a, a),
    decreases a.len(),
{
    if a.len() > 0 {
        lemma_before_irreflexive(a.skip(1));
    }
}

pub proof fn lemma_before_total(a: Seq<char>, b: Seq<char>)
    ensures
        path_before(a, b) || path_before(b, a) || a == b,
    decreases a.len(),
{
    if a.len() > 0 && b.len() > 0 {
        if rank(a[0]) == rank(b[0]) {
            lemma_before_total(a.skip(1), b.skip(1));
            lemma_rank_injective(a[0], b[0]);
            if a.skip(1) == b.skip(1) {
                assert(a =~= seq![a[0]] + a.skip(1));
                assert(b =~= seq![b[0]] + b.skip(1));
            }
        }
    } else if a.len() == 0 && b.len() == 0 {
        assert(a =~= b);
    }
}

proof fn lemma_below_is_after(dir: Seq<char>, path: Seq<char>)
    requires
        lies_below(dir, path),
    ensures
        path_before(dir, path),
    decreases dir.len(),
{
    if dir.len() > 0 {
        assert(path[0] == path.take(dir.len() as int)[0]);
        assert(path.skip(1).take(dir.len() - 1) =~= path.take(dir.len() as int).skip(1));
        assert(path.skip(1)[dir.len() - 1] == '/');
        lemma_below_is_after(dir.skip(1), path.skip(1));
    }
}

/// Whatever comes between a directory and a path below it lies below it too.
proof fn lemma_between_is_below(dir: Seq<char>, middle: Seq<char>, path: Seq<char>)
    requires
        lies_below(dir, path),
        !path_before(middle, dir),
        !path_before(path, middle),
    ensures
        middle == dir || lies_below(dir, middle),
    decreases dir.len(),
{
    if dir.len() == 0 {
        if middle.len() == 0 {
            assert(middle =~= dir);
        } else {
            lemma_rank_injective(middle[0], path[0]);
            assert(rank(middle[0]) <= rank(path[0]));
            assert(middle.take(0) =~= dir);
        }
    } else {
        assert(path[0] == path.take(dir.len() as int)[0]);
        assert(middle.len() > 0);
        assert(rank(middle[0]) == rank(dir[0]));
        lemma_rank_injective(middle[0], dir[0]);
        assert(path.skip(1).take(dir.len() - 1) =~= path.take(dir.len() as int).skip(1));
        assert(path.skip(1)[dir.len() - 1] == '/');
        lemma_between_is_below(dir.skip(1), middle.skip(1), path.skip(1));
        assert(middle =~= seq![middle[0]] + middle.skip(1));
        assert(dir =~= seq![dir[0]] + dir.skip(1));
        if lies_below(dir.skip(1), middle.skip(1)) {
            assert(middle.take(dir.len() as int) =~= seq![middle[0]] + middle.skip(1).take(
                dir.len() - 1,
            ));
            assert(middle[dir.len() as int] == middle.skip(1)[dir.len() - 1]);
        }
    }
}

/// Position `x` comes before position `y` once the paths are in order; equal paths keep their
/// order.
pub open spec fn position_before(paths: Seq<Seq<char>>, x: int, y: int) -> bool {
    path_before(paths[x], paths[y]) || (paths[x] == paths[y] && x < y)
}

/// `order` lists the positions `0..count` so that the paths at them are in order.
pub open spec fn in_order(paths: Seq<Seq<char>>, order: Seq<usize>) -> bool {
    &&& order.len() == paths.len()
    &&& forall|i: int| 0 <= i < order.len() ==> 0 <= #[trigger] order[i] < paths.len()
    &&& forall|x: int| 0 <= x < paths.len() ==> #[trigger] order.contains(x as usize)
    &&& ascending(paths, order)
}

pub open spec fn ascending(paths: Seq<Seq<char>>, order: Seq<usize>) -> bool {
    forall|i: int, j: int|
        0 <= i < j < order.len() ==> position_before(
            paths,
            #[trigger] order[i] as int,
            #[trigger] order[j] as int,
        )
}

pub open spec fn views(paths: Seq<Vec<char>>) -> Seq<Seq<char>> {
    paths.map_values(|path: Vec<char>| path@)
}

proof fn lemma_position_transitive(paths: Seq<Seq<char>>, x: int, y: int, z: int)
    requires
        position_before(paths, x, y),
        position_before(paths, y, z),
    ensures
        position_before(paths, x, z),
{
    if path_before(paths[x], paths[y]) && path_before(paths[y], paths[z]) {
        lemma_before_transitive(paths[x], paths[y], paths[z]);
    }
}

fn rank_of(c: char) -> (r: u32)
    ensures
        r as int == rank(c),
{
    if c == '/' {
        0
    } else {
        c as u32 + 1
    }
}

/// Whether one path comes before another.
pub fn is_before(a: &Vec<char>, b: &Vec<char>) -> (before: bool)
    ensures
        before == path_before(a@, b@),
{
    let mut i: usize = 0;
    assert(a@.skip(0) =~= a@);
    assert(b@.skip(0) =~= b@);
    while i < a.len() && i < b.len()
        invariant
            i <= a@.len(),
            i <= b@.len(),
            path_before(a@, b@) == path_before(a@.skip(i as int), b@.skip(i as int)),
        decreases a@.len() - i,
    {
        let ra: u32 = rank_of(a[i]);
        let rb: u32 = rank_of(b[i]);
        if ra != rb {
            return ra < rb;
        }
        assert(a@.skip(i as int).skip(1) =~= a@.skip(i as int + 1));
        assert(b@.skip(i as int).skip(1) =~= b@.skip(i as int + 1));
        i = i + 1;
    }
    i < b.len()
}

fn merge(paths: &Vec<Vec<char>>, left: Vec<usize>, right: Vec<usize>) -> (merged: Vec<usize>)
    requires
        forall|i: int| 0 <= i < left@.len() ==> #[trigger] left@[i] < paths@.len(),
        forall|i: int| 0 <= i < right@.len() ==> #[trigger] right@[i] < paths@.len(),
        forall|i: int, j: int|
            0 <= i < left@.len() && 0 <= j < right@.len() ==> #[trigger] left@[i]
                < #[trigger] right@[j],
        ascending(views(paths@), left@),
        ascending(views(paths@), right@),
    ensures
        merged@.len() == left@.len() + right@.len(),
        ascending(views(paths@), merged@),
        forall|x: usize| #[trigger]
            merged@.contains(x) <==> left@.contains(x) || right@.contains(x),
{
    let ghost all = views(paths@);
    let mut merged: Vec<usize> = Vec::new();
    let mut i: usize = 0;
    let mut j: usize = 0;
    while i < left.len() || j < right.len()
        invariant
            all == views(paths@),
            i <= left@.len(),
            j <= right@.len(),
            merged@.len() == i + j,
            forall|k: int| 0 <= k < left@.len() ==> #[trigger] left@[k] < paths@.len(),
            forall|k: int| 0 <= k < right@.len() ==> #[trigger] right@[k] < paths@.len(),
            forall|k: int, l: int|
                0 <= k < left@.len() && 0 <= l < right@.len() ==> #[trigger] left@[k]
                    < #[trigger] right@[l],
            ascending(all, left@),
            ascending(all, right@),
            ascending(all, merged@),
            forall|k: int, l: int|
                0 <= k < merged@.len() && i <= l < left@.len() ==> position_before(
                    all,
                    #[trigger] merged@[k] as int,
                    #[trigger] left@[l] as int,
                ),
            forall|k: int, l: int|
                0 <= k < merged@.len() && j <= l < right@.len() ==> position_before(
                    all,
                    #[trigger] merged@[k] as int,
                    #[trigger] right@[l] as int,
                ),
            forall|k: int|
                0 <= k < i ==> merged@.contains(#[trigger] left@[k]),
            forall|k: int|
                0 <= k < j ==> merged@.contains(#[trigger] right@[k]),
            forall|k: int|
                0 <= k < merged@.len() ==> left@.contains(#[trigger] merged@[k])
                    || right@.contains(merged@[k]),
        decreases left@.len() - i + right@.len() - j,
    {
        let ghost before = merged@;
        let take_left: bool = if i >= left.len() {
            false
        } else if j >= right.len() {
            true
        } else {
            let later = is_before(&paths[right[j]], &paths[left[i]]);
            proof {
                lemma_before_total(all[left@[i as int] as int], all[right@[j as int] as int]);
            }
            !later
        };
        let ghost gi = i as int;
        let ghost gj = j as int;
        if take_left {
            let next: usize = left[i];
            merged.push(next);
            i = i + 1;
            proof {
                assert forall|l: int| gj <= l < right@.len() implies position_before(
                    all,
                    next as int,
                    #[trigger] right@[l] as int,
                ) by {
                    assert(position_before(all, next as int, right@[gj] as int));
                    if l > gj {
                        lemma_position_transitive(
                            all,
                            next as int,
                            right@[gj] as int,
                            right@[l] as int,
                        );
                    }
                }
            }
        } else {
            let next: usize = right[j];
            merged.push(next);
            j = j + 1;
            proof {
                assert forall|l: int| gi <= l < left@.len() implies position_before(
                    all,
                    next as int,
                    #[trigger] left@[l] as int,
                ) by {
                    assert(position_before(all, next as int, left@[gi] as int));
                    if l > gi {
                        lemma_position_transitive(
                            all,
                            next as int,
                            left@[gi] as int,
                            left@[l] as int,
                        );
                    }
                }
            }
        }
        proof {
            assert forall|x: usize| before.contains(x) implies merged@.contains(x) by {
                let k = choose|k: int| 0 <= k < before.len() && before[k] == x;
                assert(merged@[k] == x);
            }
            assert(merged@[before.len() as int] == merged@.last());
            assert(merged@.contains(merged@.last()));
            assert forall|k: int| 0 <= k < merged@.len() implies left@.contains(
                #[trigger] merged@[k],
            ) || right@.contains(merged@[k]) by {
                if k < before.len() {
                    assert(before[k] == merged@[k]);
                }
            }
        }
    }
    proof {
        assert forall|x: usize| #[trigger]
            merged@.contains(x) <==> left@.contains(x) || right@.contains(x) by {
            if merged@.contains(x) {
                let k = choose|k: int| 0 <= k < merged@.len() && merged@[k] == x;
                assert(merged@[k] == x);
            }
            if left@.contains(x) {
                let k = choose|k: int| 0 <= k < left@.len() && left@[k] == x;
                assert(merged@.contains(left@[k]));
            }
            if right@.contains(x) {
                let k = choose|k: int| 0 <= k < right@.len() && right@[k] == x;
                assert(merged@.contains(right@[k]));
            }
        }
    }
    merged
}

fn sort_range(paths: &Vec<Vec<char>>, low: usize, high: usize) -> (order: Vec<usize>)
    requires
        low <= high <= paths@.len(),
    ensures
        order@.len() == high - low,
        ascending(views(paths@), order@),
        forall|x: usize| #[trigger] order@.contains(x) <==> low <= x < high,
    decreases high - low,
{
    let mut order: Vec<usize> = Vec::new();
    if high - low == 1 {
        order.push(low);
        assert(order@[0] == low);
        assert forall|x: usize| #[trigger] order@.contains(x) <==> low <= x < high by {
            if x == low {
                assert(order@[0] == x);
            }
        }
        return order;
    }
    if high - low >= 2 {
        let middle: usize = low + (high - low) / 2;
        let left = sort_range(paths, low, middle);
        let right = sort_range(paths, middle, high);
        proof {
            assert forall|i: int| 0 <= i < left@.len() implies #[trigger] left@[i]
                < middle by {
                assert(left@.contains(left@[i]));
            }
            assert forall|i: int| 0 <= i < right@.len() implies middle <= #[trigger] right@[i]
                < paths@.len() by {
                assert(right@.contains(right@[i]));
            }
        }
        return merge(paths, left, right);
    }
    order
}

/// The one list of positions that puts the paths in order.
pub open spec fn the_order(paths: Seq<Seq<char>>) -> Seq<usize> {
    choose|order: Seq<usize>| in_order(paths, order)
}

proof fn lemma_same_position(
    paths: Seq<Seq<char>>,
    first: Seq<usize>,
    second: Seq<usize>,
    at: int,
)
    requires
        in_order(paths, first),
        in_order(paths, second),
        0 <= at < paths.len() <= usize::MAX,
        forall|k: int| 0 <= k < at ==> first[k] == second[k],
    ensures
        first[at] == second[at],
{
    let x = first[at] as int;
    let y = second[at] as int;
    if x != y {
        assert(second.contains(x as usize));
        let j = choose|j: int| 0 <= j < second.len() && second[j] == x as usize;
        assert(first.contains(y as usize));
        let i = choose|i: int| 0 <= i < first.len() && first[i] == y as usize;
        lemma_before_irreflexive(paths[x]);
        lemma_before_irreflexive(paths[y]);
        if j < at {
            assert(first[j] == second[j]);
            assert(position_before(paths, first[j] as int, first[at] as int));
        }
        if i < at {
            assert(first[i] == second[i]);
            assert(position_before(paths, second[i] as int, second[at] as int));
        }
        assert(position_before(paths, first[at] as int, first[i] as int));
        assert(position_before(paths, second[at] as int, second[j] as int));
        lemma_position_transitive(paths, x, y, x);
    }
}

/// There is only one such list.
pub proof fn lemma_order_unique(paths: Seq<Seq<char>>, order: Seq<usize>)
    requires
        in_order(paths, order),
        paths.len() <= usize::MAX,
    ensures
        order == the_order(paths),
{
    let other = the_order(paths);
    assert(in_order(paths, other));
    assert forall|at: int| 0 <= at < paths.len() implies order[at] == other[at] by {
        lemma_same_prefix(paths, order, other, at + 1);
    }
    assert(order =~= other);
}

proof fn lemma_same_prefix(
    paths: Seq<Seq<char>>,
    first: Seq<usize>,
    second: Seq<usize>,
    count: int,
)
    requires
        in_order(paths, first),
        in_order(paths, second),
        0 <= count <= paths.len() <= usize::MAX,
    ensures
        forall|k: int| 0 <= k < count ==> first[k] == second[k],
    decreases count,
{
    if count > 0 {
        lemma_same_prefix(paths, first, second, count - 1);
        lemma_same_position(paths, first, second, count - 1);
    }
}

/// No position is listed twice.
pub proof fn lemma_order_distinct(paths: Seq<Seq<char>>, order: Seq<usize>, i: int, j: int)
    requires
        in_order(paths, order),
        0 <= i < j < order.len(),
    ensures
        order[i] != order[j],
{
    assert(position_before(paths, order[i] as int, order[j] as int));
    lemma_before_irreflexive(paths[order[i] as int]);
}

/// Every list of paths can be put in order.
pub proof fn lemma_order_exists(paths: Seq<Seq<char>>)
    requires
        paths.len() <= usize::MAX,
    ensures
        in_order(paths, the_order(paths)),
{
    let order = lemma_sorted_order(paths, paths.len());
    assert(in_order(paths, order));
}

/// The positions below `count` in order, by inserting one after the other.
proof fn lemma_sorted_order(paths: Seq<Seq<char>>, count: nat) -> (order: Seq<usize>)
    requires
        count <= paths.len() <= usize::MAX,
    ensures
        order.len() == count,
        forall|i: int| 0 <= i < order.len() ==> 0 <= #[trigger] order[i] < count,
        forall|x: int| 0 <= x < count ==> #[trigger] order.contains(x as usize),
        ascending(paths, order),
    decreases count,
{
    if count == 0 {
        Seq::empty()
    } else {
        let earlier = lemma_sorted_order(paths, (count - 1) as nat);
        let x = (count - 1) as usize;
        let at = lemma_insert_place(paths, earlier, x, earlier.len() as int);
        let order = earlier.insert(at, x);
        assert forall|i: int| 0 <= i < order.len() implies 0 <= #[trigger] order[i] < count by {
            if i < at {
                assert(order[i] == earlier[i]);
            } else if i > at {
                assert(order[i] == earlier[i - 1]);
            }
        }
        assert forall|y: int| 0 <= y < count implies #[trigger] order.contains(y as usize) by {
            if y == count - 1 {
                assert(order[at] == y as usize);
            } else {
                assert(earlier.contains(y as usize));
                let k = choose|k: int| 0 <= k < earlier.len() && earlier[k] == y as usize;
                if k < at {
                    assert(order[k] == y as usize);
                } else {
                    assert(order[k + 1] == y as usize);
                }
            }
        }
        assert forall|i: int, j: int| 0 <= i < j < order.len() implies position_before(
            paths,
            #[trigger] order[i] as int,
            #[trigger] order[j] as int,
        ) by {
            let a = if i < at {
                i
            } else {
                i - 1
            };
            let b = if j < at {
                j
            } else {
                j - 1
            };
            if i == at {
                assert(order[j] == earlier[b]);
            } else if j == at {
                assert(order[i] == earlier[a]);
            } else {
                assert(order[i] == earlier[a]);
                assert(order[j] == earlier[b]);
            }
        }
        order
    }
}

/// Where a new last position belongs in an ascending list.
proof fn lemma_insert_place(paths: Seq<Seq<char>>, order: Seq<usize>, x: usize, upto: int) -> (at:
    int)
    requires
        0 <= upto <= order.len(),
        ascending(paths, order),
        forall|i: int| 0 <= i < order.len() ==> #[trigger] order[i] < x,
        forall|i: int|
            upto <= i < order.len() ==> position_before(paths, x as int, #[trigger] order[i] as int),
    ensures
        0 <= at <= order.len(),
        forall|i: int|
            0 <= i < at ==> position_before(paths, #[trigger] order[i] as int, x as int),
        forall|i: int|
            at <= i < order.len() ==> position_before(paths, x as int, #[trigger] order[i] as int),
    decreases upto,
{
    if upto == 0 {
        0
    } else {
        let last = order[upto - 1];
        lemma_before_total(paths[last as int], paths[x as int]);
        if position_before(paths, last as int, x as int) {
            assert forall|i: int| 0 <= i < upto implies position_before(
                paths,
                #[trigger] order[i] as int,
                x as int,
            ) by {
                if i < upto - 1 {
                    lemma_position_transitive(paths, order[i] as int, last as int, x as int);
                }
            }
            upto
        } else {
            lemma_insert_place(paths, order, x, upto - 1)
        }
    }
}

/// The positions of the paths in their order; equal paths keep the order they came in.
pub fn sorted_positions(paths: &Vec<Vec<char>>) -> (order: Vec<usize>)
    ensures
        in_order(views(paths@), order@),
        order@ == the_order(views(paths@)),
{
    let order = sort_range(paths, 0, paths.len());
    proof {
        assert forall|i: int| 0 <= i < order@.len() implies 0 <= #[trigger] order@[i]
            < paths@.len() by {
            assert(order@.contains(order@[i]));
        }
        lemma_order_unique(views(paths@), order@);
    }
    order
}

fn is_conflict_in_order(dir: &Vec<char>, path: &Vec<char>) -> (found: bool)
    ensures
        found == (dir@ == path@ || lies_below(dir@, path@)),
{
    if dir.len() > path.len() {
        return false;
    }
    let mut i: usize = 0;
    while i < dir.len()
        invariant
            i <= dir@.len() <= path@.len(),
            forall|k: int| 0 <= k < i ==> dir@[k] == path@[k],
        decreases dir@.len() - i,
    {
        if dir[i] != path[i] {
            assert(path@.take(dir@.len() as int)[i as int] == path@[i as int]);
            return false;
        }
        i = i + 1;
    }
    assert(path@.take(dir@.len() as int) =~= dir@);
    if dir.len() == path.len() {
        assert(dir@ =~= path@);
        return true;
    }
    path[dir.len()] == '/'
}

/// In a sorted list two paths in conflict show up as neighbours.
proof fn lemma_conflict_is_adjacent(
    paths: Seq<Seq<char>>,
    order: Seq<usize>,
    x: int,
    y: int,
) -> (at: int)
    requires
        in_order(paths, order),
        0 <= x < y < paths.len() <= usize::MAX,
        conflict(paths[x], paths[y]),
    ensures
        0 <= at < order.len() - 1,
        conflict(paths[order[at] as int], paths[order[at + 1] as int]),
{
    assert(order.contains(x as usize));
    assert(order.contains(y as usize));
    let i0 = choose|i: int| 0 <= i < order.len() && order[i] == x as usize;
    let j0 = choose|j: int| 0 <= j < order.len() && order[j] == y as usize;
    let i = if i0 < j0 {
        i0
    } else {
        j0
    };
    let j = if i0 < j0 {
        j0
    } else {
        i0
    };
    let a = paths[order[i] as int];
    let b = paths[order[j] as int];
    assert(position_before(paths, order[i] as int, order[j] as int));
    lemma_before_irreflexive(a);
    if lies_below(b, a) {
        lemma_below_is_after(b, a);
        if path_before(a, b) {
            lemma_before_transitive(a, b, a);
        }
    }
    assert(a == b || lies_below(a, b));
    let m = paths[order[i + 1] as int];
    if i + 1 < j {
        assert(position_before(paths, order[i] as int, order[i + 1] as int));
        assert(position_before(paths, order[i + 1] as int, order[j] as int));
        if path_before(m, a) {
            if path_before(a, m) {
                lemma_before_transitive(a, m, a);
            }
        }
        if path_before(b, m) {
            if path_before(m, b) {
                lemma_before_transitive(b, m, b);
                lemma_before_irreflexive(b);
            }
            lemma_before_irreflexive(m);
        }
        if a == b {
            lemma_before_total(a, m);
        } else {
            lemma_between_is_below(a, m, b);
        }
    }
    i
}

/// Whether two of the paths are in conflict.
pub fn any_conflict(paths: &Vec<Vec<char>>) -> (found: bool)
    ensures
        found == some_conflict(views(paths@)),
{
    let ghost all = views(paths@);
    let order = sorted_positions(paths);
    let mut i: usize = 1;
    while i < order.len()
        invariant
            1 <= i,
            i <= order@.len() || order@.len() == 0,
            all == views(paths@),
            in_order(all, order@),
            forall|k: int|
                0 <= k < i - 1 ==> !conflict(
                    all[#[trigger] order@[k] as int],
                    all[order@[k + 1] as int],
                ),
        decreases order@.len() - i,
    {
        let first: usize = order[i - 1];
        let second: usize = order[i];
        let found = is_conflict_in_order(&paths[first], &paths[second]);
        proof {
            let a = all[first as int];
            let b = all[second as int];
            assert(position_before(all, order@[i as int - 1] as int, order@[i as int] as int));
            if lies_below(b, a) {
                lemma_below_is_after(b, a);
                lemma_before_irreflexive(a);
                if path_before(a, b) {
                    lemma_before_transitive(a, b, a);
                }
            }
        }
        if found {
            proof {
                if first < second {
                    assert(conflict(all[first as int], all[second as int]));
                } else {
                    if first == second {
                        lemma_before_irreflexive(all[first as int]);
                    }
                    assert(conflict(all[second as int], all[first as int]));
                }
            }
            return true;
        }
        i = i + 1;
    }
    proof {
        if some_conflict(all) {
            let (x, y) = choose|x: int, y: int|
                0 <= x < y < all.len() && conflict(#[trigger] all[x], #[trigger] all[y]);
            let at = lemma_conflict_is_adjacent(all, order@, x, y);
            assert(!conflict(all[order@[at] as int], all[order@[at + 1] as int]));
        }
    }
    false
}

/// Two paths are in conflict exactly if they are the same, character by character, or if one of them
/// goes on where the other ends, with a slash.
pub proof fn law_conflicts_are_the_same_or_below(a: Seq<char>, b: Seq<char>)
    ensures
        conflict(a, b) == conflict(b, a),
        conflict(a, b) <==> {
            ||| a.len() == b.len() && forall|k: int| 0 <= k < a.len() ==> #[trigger] a[k] == b[k]
            ||| a.len() < b.len() && b[a.len() as int] == '/' && forall|k: int|
                0 <= k < a.len() ==> #[trigger] a[k] == b[k]
            ||| b.len() < a.len() && a[b.len() as int] == '/' && forall|k: int|
                0 <= k < b.len() ==> #[trigger] a[k] == b[k]
        },
{
    if a.len() <= b.len() {
        assert(b.take(a.len() as int) == a <==> forall|k: int|
            0 <= k < a.len() ==> #[trigger] a[k] == b[k]) by {
            if forall|k: int| 0 <= k < a.len() ==> #[trigger] a[k] == b[k] {
                assert(b.take(a.len() as int) =~= a);
            }
            if b.take(a.len() as int) == a {
                assert forall|k: int| 0 <= k < a.len() implies #[trigger] a[k] == b[k] by {
                    assert(b.take(a.len() as int)[k] == b[k]);
                }
            }
        }
        assert(b.take(b.len() as int) =~= b);
    }
    if b.len() <= a.len() {
        assert(a.take(b.len() as int) == b <==> forall|k: int|
            0 <= k < b.len() ==> #[trigger] a[k] == b[k]) by {
            if forall|k: int| 0 <= k < b.len() ==> #[trigger] a[k] == b[k] {
                assert(a.take(b.len() as int) =~= b);
            }
        }
        assert(a.take(a.len() as int) =~= a);
    }
}

/// Two paths agree up to a place.
pub open spec fn agree_up_to(a: Seq<char>, b: Seq<char>, place: int) -> bool {
    &&& 0 <= place <= a.len() && place <= b.len()
    &&& forall|k: int| 0 <= k < place ==> #[trigger] a[k] == b[k]
}

/// At a place up to which they agree, one path has ended or has the lesser character there; the slash
/// is the least of all.
pub open spec fn less_at(a: Seq<char>, b: Seq<char>, place: int) -> bool {
    place < b.len() && (place == a.len() || (a[place] == '/' && b[place] != '/') || (a[place] != '/'
        && b[place] != '/' && (a[place] as int) < b[place] as int))
}

/// One path comes before another exactly if it is the lesser where they first differ. So a directory
/// comes right before what is in it.
pub proof fn law_paths_are_ordered_part_by_part(a: Seq<char>, b: Seq<char>)
    ensures
        path_before(a, b) <==> exists|place: int| #[trigger]
            agree_up_to(a, b, place) && less_at(a, b, place),
    decreases a.len(),
{
    if a.len() > 0 && b.len() > 0 && a[0] == b[0] {
        let x = a.skip(1);
        let y = b.skip(1);
        law_paths_are_ordered_part_by_part(x, y);
        if path_before(a, b) {
            let place = choose|place: int| #[trigger]
                agree_up_to(x, y, place) && less_at(x, y, place);
            assert forall|k: int| 0 <= k < place + 1 implies #[trigger] a[k] == b[k] by {
                if k > 0 {
                    assert(x[k - 1] == y[k - 1]);
                }
            }
            assert(agree_up_to(a, b, place + 1));
            assert(less_at(a, b, place + 1));
        }
        if exists|place: int| #[trigger] agree_up_to(a, b, place) && less_at(a, b, place) {
            let place = choose|place: int| #[trigger]
                agree_up_to(a, b, place) && less_at(a, b, place);
            assert(place > 0);
            assert forall|k: int| 0 <= k < place - 1 implies #[trigger] x[k] == y[k] by {
                assert(a[k + 1] == b[k + 1]);
            }
            assert(agree_up_to(x, y, place - 1));
            assert(less_at(x, y, place - 1));
        }
    } else {
        assert(agree_up_to(a, b, 0));
        assert forall|place: int| #[trigger] agree_up_to(a, b, place) implies place == 0 by {
            if place > 0 {
                assert(a[0] == b[0]);
            }
        }
        if a.len() > 0 && b.len() > 0 {
            lemma_rank_injective(a[0], b[0]);
        }
        assert(path_before(a, b) == less_at(a, b, 0));
        if exists|place: int| #[trigger] agree_up_to(a, b, place) && less_at(a, b, place) {
            let place = choose|place: int| #[trigger]
                agree_up_to(a, b, place) && less_at(a, b, place);
            assert(place == 0);
        }
    }
}

} // verus!
