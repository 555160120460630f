//! Unix paths as raw bytes.
//!
//! A path is a byte string. [`pieces`] cuts it at its slashes;
//! [`components`] gives it the meaning that the platform's path handling gives
//! it, where empty and interior `.` pieces vanish. Paths that name entries
//! below a tree root are kept in the one form in which the two readings agree:
//! see [`is_canonical`].

use crate::bytes::append;
use crate::bytes::bytes_equal;
use crate::bytes::to_vec;
use vstd::prelude::*;

verus! {

/// The byte that separates path components.
pub const SLASH: u8 = 0x2f;

/// The byte that names the current directory, alone, and the parent, doubled.
pub const DOT: u8 = 0x2e;

/// The contents of a vector of byte strings.
pub open spec fn views(list: Seq<Vec<u8>>) -> Seq<Seq<u8>> {
    Seq::new(list.len(), |i: int| list[i]@)
}

/// The byte strings between the separators of `path`; a path without a
/// separator is its own only piece.
pub open spec fn pieces(path: Seq<u8>, separator: u8) -> Seq<Seq<u8>>
    decreases path.len(),
{
    if path.len() == 0 {
        seq![Seq::<u8>::empty()]
    } else {
        let before = pieces(path.drop_last(), separator);
        if path.last() == separator {
            before.push(Seq::<u8>::empty())
        } else {
            before.update(before.len() - 1, before.last().push(path.last()))
        }
    }
}

/// `.`
pub open spec fn dot() -> Seq<u8> {
    seq![DOT]
}

/// `..`
pub open spec fn dot_dot() -> Seq<u8> {
    seq![DOT, DOT]
}

/// A piece that names an entry: neither empty nor `.` nor `..`.
pub open spec fn is_normal_piece(piece: Seq<u8>) -> bool {
    piece.len() > 0 && piece != dot() && piece != dot_dot()
}

/// What one component of a path means.
pub enum Component {
    /// The file system root.
    Root,
    /// A leading `.`.
    Current,
    /// `..`.
    Parent,
    /// An entry name.
    Normal(Seq<u8>),
}

/// The components contributed by the first `count` pieces of a path.
pub open spec fn components_of_pieces(parts: Seq<Seq<u8>>, count: int) -> Seq<Component>
    decreases count,
{
    if count <= 0 {
        Seq::empty()
    } else {
        let before = components_of_pieces(parts, count - 1);
        let piece = parts[count - 1];
        if piece.len() == 0 {
            before
        } else if piece == dot() {
            if count == 1 {
                before.push(Component::Current)
            } else {
                before
            }
        } else if piece == dot_dot() {
            before.push(Component::Parent)
        } else {
            before.push(Component::Normal(piece))
        }
    }
}

/// Whether the path starts at the file system root.
pub open spec fn is_absolute(path: Seq<u8>) -> bool {
    path.len() > 0 && path[0] == SLASH
}

/// The components of a path: a leading slash is the root, empty pieces and
/// interior `.` pieces stand for nothing.
pub open spec fn components(path: Seq<u8>) -> Seq<Component> {
    let parts = pieces(path, SLASH);
    let named = components_of_pieces(parts, parts.len() as int);
    if is_absolute(path) {
        seq![Component::Root] + named
    } else {
        named
    }
}

/// The empty path, or entry names joined by single slashes.
pub open spec fn is_canonical(path: Seq<u8>) -> bool {
    path.len() == 0 || forall|i: int|
        0 <= i < pieces(path, SLASH).len() ==> is_normal_piece(#[trigger] pieces(path, SLASH)[i])
}

/// How many entry names a canonical path has.
pub open spec fn depth(path: Seq<u8>) -> nat {
    if path.len() == 0 {
        0
    } else {
        pieces(path, SLASH).len()
    }
}

/// A path has at least one piece.
pub proof fn lemma_pieces_nonempty(path: Seq<u8>, separator: u8)
    ensures
        pieces(path, separator).len() >= 1,
        pieces(path, separator).len() <= path.len() + 1,
    decreases path.len(),
{
    if path.len() > 0 {
        lemma_pieces_nonempty(path.drop_last(), separator);
    }
}

/// Cuts `path` at every `separator`.
pub fn split(path: &[u8], separator: u8) -> (parts: Vec<Vec<u8>>)
    ensures
        views(parts@) == pieces(path@, separator),
{
    let mut done: Vec<Vec<u8>> = Vec::new();
    let mut current: Vec<u8> = Vec::new();
    let mut i: usize = 0;
    proof {
        assert(path@.take(0) =~= Seq::<u8>::empty());
        assert(views(done@).push(current@) =~= pieces(path@.take(0), separator));
    }
    while i < path.len()
        invariant
            i <= path.len(),
            views(done@).push(current@) == pieces(path@.take(i as int), separator),
        decreases path.len() - i,
    {
        let ghost before = views(done@).push(current@);
        let byte = path[i];
        proof {
            assert(path@.take(i + 1).drop_last() =~= path@.take(i as int));
            assert(path@.take(i + 1).last() == byte);
        }
        if byte == separator {
            let finished = current;
            current = Vec::new();
            done.push(finished);
            assert(views(done@) =~= before);
            assert(views(done@).push(current@) =~= before.push(Seq::<u8>::empty()));
        } else {
            current.push(byte);
            assert(views(done@).push(current@) =~= before.update(
                before.len() - 1,
                before.last().push(byte),
            ));
        }
        i += 1;
    }
    let ghost all = views(done@).push(current@);
    done.push(current);
    assert(views(done@) =~= all);
    assert(path@.take(path@.len() as int) =~= path@);
    done
}

/// Whether `piece` names an entry.
pub fn piece_is_normal(piece: &[u8]) -> (normal: bool)
    ensures
        normal == is_normal_piece(piece@),
{
    if piece.len() == 0 {
        false
    } else if piece.len() == 1 {
        assert(piece@[0] == DOT ==> piece@ =~= dot());
        piece[0] != DOT
    } else if piece.len() == 2 {
        assert(piece@[0] == DOT && piece@[1] == DOT ==> piece@ =~= dot_dot());
        assert(piece@ == dot_dot() ==> piece@[0] == DOT && piece@[1] == DOT);
        piece[0] != DOT || piece[1] != DOT
    } else {
        true
    }
}

/// The order in which `left` and `right` stand.
#[derive(Clone, Copy, Debug, PartialEq, Eq, Structural)]
pub enum PathOrder {
    Less,
    Equal,
    Greater,
}

/// Which byte strings come first: plain byte order, or the order of canonical
/// paths, where a component ends before anything longer.
#[derive(Clone, Copy, Debug, PartialEq, Eq, Structural)]
pub enum Collation {
    /// Byte by byte.
    Plain,
    /// Component by component.
    Components,
}

/// Where a byte stands in a collation. The slash ends a component, so it comes
/// before every byte that continues one.
pub open spec fn rank(collation: Collation, byte: u8) -> int {
    if collation == Collation::Components && byte == SLASH {
        -1
    } else {
        byte as int
    }
}

/// The two strings agree before `at`, and there `left` ends or has the smaller
/// byte.
pub open spec fn precedes_at(
    collation: Collation,
    left: Seq<u8>,
    right: Seq<u8>,
    at: int,
) -> bool {
    &&& 0 <= at <= left.len()
    &&& at < right.len()
    &&& left.take(at) == right.take(at)
    &&& at == left.len() || rank(collation, left[at]) < rank(collation, right[at])
}

/// Lexicographic order.
pub open spec fn precedes(collation: Collation, left: Seq<u8>, right: Seq<u8>) -> bool {
    exists|at: int| precedes_at(collation, left, right, at)
}

/// Canonical paths in component order.
pub open spec fn path_less(left: Seq<u8>, right: Seq<u8>) -> bool {
    precedes(Collation::Components, left, right)
}

/// No string comes before itself, and of two strings at most one comes first.
pub proof fn lemma_precedes_asymmetric(collation: Collation, left: Seq<u8>, right: Seq<u8>)
    requires
        precedes(collation, left, right),
    ensures
        left != right,
        !precedes(collation, right, left),
{
    let i = choose|at: int| precedes_at(collation, left, right, at);
    if left == right {
        assert(left[i] == right[i]);
    }
    if precedes(collation, right, left) {
        let j = choose|at: int| precedes_at(collation, right, left, at);
        if i < j {
            assert(left.take(j)[i] == right.take(j)[i]);
            assert(left[i] == right[i]);
        } else if j < i {
            assert(left.take(i)[j] == right.take(i)[j]);
            assert(left[j] == right[j]);
        }
    }
}

/// The order is transitive.
pub proof fn lemma_precedes_transitive(
    collation: Collation,
    first: Seq<u8>,
    second: Seq<u8>,
    third: Seq<u8>,
)
    requires
        precedes(collation, first, second),
        precedes(collation, second, third),
    ensures
        precedes(collation, first, third),
{
    let i = choose|at: int| precedes_at(collation, first, second, at);
    let j = choose|at: int| precedes_at(collation, second, third, at);
    let k = if i < j {
        i
    } else {
        j
    };
    assert(first.take(k) =~= first.take(i).take(k));
    assert(second.take(k) =~= second.take(i).take(k));
    assert(second.take(k) =~= second.take(j).take(k));
    assert(third.take(k) =~= third.take(j).take(k));
    if i < j {
        assert(second.take(j)[i] == third.take(j)[i]);
        assert(second[i] == third[i]);
    } else if j < i {
        assert(first.take(i)[j] == second.take(i)[j]);
        assert(first[j] == second[j]);
    }
    assert(precedes_at(collation, first, third, k));
}

/// Of two different strings one comes first.
pub proof fn lemma_precedes_total(collation: Collation, left: Seq<u8>, right: Seq<u8>)
    ensures
        left == right || precedes(collation, left, right) || precedes(collation, right, left),
{
    assert(left.take(0) =~= right.take(0));
    lemma_precedes_total_from(collation, left, right, 0);
}

proof fn lemma_precedes_total_from(
    collation: Collation,
    left: Seq<u8>,
    right: Seq<u8>,
    at: int,
)
    requires
        0 <= at <= left.len(),
        at <= right.len(),
        left.take(at) == right.take(at),
    ensures
        left == right || precedes(collation, left, right) || precedes(collation, right, left),
    decreases left.len() - at,
{
    if at == left.len() && at == right.len() {
        assert(left =~= left.take(at));
        assert(right =~= right.take(at));
    } else if at == left.len() {
        assert(precedes_at(collation, left, right, at));
    } else if at == right.len() {
        assert(precedes_at(collation, right, left, at));
    } else if left[at] == right[at] {
        assert(left.take(at + 1) =~= left.take(at).push(left[at]));
        assert(right.take(at + 1) =~= right.take(at).push(right[at]));
        lemma_precedes_total_from(collation, left, right, at + 1);
    } else if rank(collation, left[at]) < rank(collation, right[at]) {
        assert(precedes_at(collation, left, right, at));
    } else {
        assert(precedes_at(collation, right, left, at));
    }
}

/// Compares two strings in the given collation.
pub fn compare_bytes(collation: Collation, left: &[u8], right: &[u8]) -> (order: PathOrder)
    ensures
        order == PathOrder::Less <==> precedes(collation, left@, right@),
        order == PathOrder::Equal <==> left@ == right@,
        order == PathOrder::Greater <==> precedes(collation, right@, left@),
{
    let mut i: usize = 0;
    while i < left.len() && i < right.len()
        invariant
            i <= left.len(),
            i <= right.len(),
            left@.take(i as int) == right@.take(i as int),
        decreases left.len() - i,
    {
        let a = left[i];
        let b = right[i];
        if a != b {
            let low: bool = (matches!(collation, Collation::Components) && a == SLASH)
                || (!(matches!(collation, Collation::Components) && b == SLASH) && a < b);
            if low {
                proof {
                    assert(precedes_at(collation, left@, right@, i as int));
                    lemma_precedes_asymmetric(collation, left@, right@);
                }
                return PathOrder::Less;
            }
            proof {
                assert(precedes_at(collation, right@, left@, i as int));
                lemma_precedes_asymmetric(collation, right@, left@);
            }
            return PathOrder::Greater;
        }
        proof {
            assert(left@.take(i + 1) =~= left@.take(i as int).push(a));
            assert(right@.take(i + 1) =~= right@.take(i as int).push(b));
        }
        i += 1;
    }
    if i < right.len() {
        proof {
            assert(precedes_at(collation, left@, right@, i as int));
            lemma_precedes_asymmetric(collation, left@, right@);
        }
        PathOrder::Less
    } else if i < left.len() {
        proof {
            assert(precedes_at(collation, right@, left@, i as int));
            lemma_precedes_asymmetric(collation, right@, left@);
        }
        PathOrder::Greater
    } else {
        proof {
            assert(left@ =~= left@.take(i as int));
            assert(right@ =~= right@.take(i as int));
            if precedes(collation, left@, right@) {
                lemma_precedes_asymmetric(collation, left@, right@);
            }
            if precedes(collation, right@, left@) {
                lemma_precedes_asymmetric(collation, right@, left@);
            }
        }
        PathOrder::Equal
    }
}

/// What precedes the last slash; nothing where there is none.
pub open spec fn parent(path: Seq<u8>) -> Seq<u8>
    decreases path.len(),
{
    if path.len() == 0 {
        path
    } else if path.last() == SLASH {
        path.drop_last()
    } else {
        parent(path.drop_last())
    }
}

/// `path` lies strictly below `directory`.
pub open spec fn is_beneath(directory: Seq<u8>, path: Seq<u8>) -> bool {
    if directory.len() == 0 {
        path.len() > 0
    } else {
        &&& path.len() > directory.len()
        &&& path.take(directory.len() as int) == directory
        &&& path[directory.len() as int] == SLASH
    }
}

/// A path without a slash has the empty parent; otherwise the parent is what
/// precedes the last slash.
pub proof fn lemma_parent(path: Seq<u8>)
    ensures
        parent(path).len() < path.len() || path.len() == 0,
        parent(path) == path.take(parent(path).len() as int),
        parent(path).len() > 0 ==> path[parent(path).len() as int] == SLASH,
        forall|i: int| parent(path).len() < i < path.len() ==> path[i] != SLASH,
    decreases path.len(),
{
    if path.len() == 0 {
        assert(path.take(0) =~= path);
    } else if path.last() == SLASH {
        assert(path.take(path.len() - 1) =~= path.drop_last());
    } else {
        let shorter = path.drop_last();
        lemma_parent(shorter);
        assert(path.take(parent(path).len() as int) =~= shorter.take(parent(path).len() as int));
        assert forall|i: int| parent(path).len() < i < path.len() implies path[i] != SLASH by {
            if i < shorter.len() {
                assert(shorter[i] == path[i]);
            }
        }
        if parent(path).len() > 0 {
            assert(shorter[parent(path).len() as int] == path[parent(path).len() as int]);
        }
    }
}

/// What lies between a directory and a path below it, in component order, also
/// lies below that directory: a subtree is contiguous.
pub proof fn lemma_subtree_contiguous(directory: Seq<u8>, middle: Seq<u8>, path: Seq<u8>)
    requires
        is_beneath(directory, path),
        directory == middle || path_less(directory, middle),
        path_less(middle, path),
    ensures
        middle == directory || is_beneath(directory, middle),
{
    if middle != directory {
        let n = directory.len() as int;
        let i = choose|at: int|
            precedes_at(Collation::Components, directory, middle, at);
        let j = choose|at: int| precedes_at(Collation::Components, middle, path, at);
        if n > 0 {
            if i < n {
                assert(path.take(n)[i] == directory[i]);
                if j < i {
                    assert(directory.take(i)[j] == middle.take(i)[j]);
                    assert(path.take(n)[j] == directory[j]);
                } else if i < j {
                    assert(middle.take(j)[i] == path.take(j)[i]);
                }
                assert(false);
            }
            assert(i == n);
            assert(directory.take(n) =~= directory);
            if j < n {
                assert(directory.take(n)[j] == middle.take(n)[j]);
                assert(path.take(n)[j] == directory[j]);
                assert(false);
            }
            if j > n {
                assert(middle.take(j)[n] == path.take(j)[n]);
            }
            assert(middle[n] == SLASH);
        }
    }
}

/// The bytes before the last slash of `path`, or none.
pub fn path_parent_bytes(path: &[u8]) -> (above: &[u8])
    ensures
        above@ == parent(path@),
{
    let mut end: usize = path.len();
    proof {
        assert(path@.take(end as int) =~= path@);
    }
    while end > 0
        invariant
            end <= path.len(),
            parent(path@) == parent(path@.take(end as int)),
        decreases end,
    {
        let ghost head = path@.take(end as int);
        assert(head.drop_last() =~= path@.take(end - 1));
        if path[end - 1] == SLASH {
            assert(head.last() == SLASH);
            return vstd::slice::slice_subrange(path, 0, end - 1);
        }
        assert(head.last() != SLASH);
        end -= 1;
    }
    let above = vstd::slice::slice_subrange(path, 0, 0);
    assert(above@ =~= path@.take(0));
    above
}

/// Whether `path` lies strictly below `directory`.
pub fn path_is_beneath(directory: &[u8], path: &[u8]) -> (beneath: bool)
    ensures
        beneath == is_beneath(directory@, path@),
{
    if directory.len() == 0 {
        return path.len() > 0;
    }
    if path.len() <= directory.len() {
        return false;
    }
    let head = vstd::slice::slice_subrange(path, 0, directory.len());
    assert(head@ =~= path@.take(directory@.len() as int));
    bytes_equal(head, directory) && path[directory.len()] == SLASH
}

/// `name` as an entry of `directory`.
pub open spec fn joined(directory: Seq<u8>, name: Seq<u8>) -> Seq<u8> {
    if directory.len() == 0 {
        name
    } else {
        directory.push(SLASH) + name
    }
}

/// The path of the entry `name` of `directory`.
pub fn join(directory: &[u8], name: &[u8]) -> (path: Vec<u8>)
    ensures
        path@ == joined(directory@, name@),
{
    let mut path = to_vec(directory);
    if directory.len() > 0 {
        path.push(SLASH);
    }
    append(&mut path, name);
    assert(path@ =~= joined(directory@, name@));
    path
}

/// One component of a path.
#[derive(Clone, Debug, PartialEq, Eq)]
pub enum PathPart {
    Root,
    Current,
    Parent,
    Normal(Vec<u8>),
}

impl View for PathPart {
    type V = Component;

    open spec fn view(&self) -> Component {
        match *self {
            PathPart::Root => Component::Root,
            PathPart::Current => Component::Current,
            PathPart::Parent => Component::Parent,
            PathPart::Normal(name) => Component::Normal(name@),
        }
    }
}

/// The contents of a list of components.
pub open spec fn part_views(list: Seq<PathPart>) -> Seq<Component> {
    Seq::new(list.len(), |i: int| list[i]@)
}

/// The components of `path`.
pub fn path_components(path: &[u8]) -> (parts: Vec<PathPart>)
    ensures
        part_views(parts@) == components(path@),
{
    let cut = split(path, SLASH);
    let ghost strings = views(cut@);
    let mut parts: Vec<PathPart> = Vec::new();
    if path.len() > 0 && path[0] == SLASH {
        parts.push(PathPart::Root);
    }
    let ghost start = part_views(parts@);
    let mut i: usize = 0;
    proof {
        assert(start =~= if is_absolute(path@) {
            seq![Component::Root]
        } else {
            Seq::empty()
        });
        assert(part_views(parts@) =~= start + components_of_pieces(strings, 0));
    }
    while i < cut.len()
        invariant
            i <= cut@.len(),
            strings == views(cut@),
            part_views(parts@) == start + components_of_pieces(strings, i as int),
        decreases cut@.len() - i,
    {
        let piece = &cut[i];
        let ghost before = part_views(parts@);
        proof {
            assert(strings[i as int] == piece@);
            assert(piece@.len() == 1 && piece@[0] == DOT ==> piece@ =~= dot());
            assert(piece@.len() == 2 && piece@[0] == DOT && piece@[1] == DOT ==> piece@
                =~= dot_dot());
        }
        if piece.len() == 0 {
        } else if piece.len() == 1 && piece[0] == DOT {
            if i == 0 {
                parts.push(PathPart::Current);
                assert(part_views(parts@) =~= before.push(Component::Current));
            }
        } else if piece.len() == 2 && piece[0] == DOT && piece[1] == DOT {
            parts.push(PathPart::Parent);
            assert(part_views(parts@) =~= before.push(Component::Parent));
        } else {
            let name = to_vec(piece);
            parts.push(PathPart::Normal(name));
            assert(part_views(parts@) =~= before.push(Component::Normal(piece@)));
        }
        assert(part_views(parts@) =~= start + components_of_pieces(strings, i + 1));
        i += 1;
    }
    assert(part_views(parts@) =~= components(path@));
    parts
}

/// `path` followed from `base`: an absolute path stands for itself, any other is
/// put behind `base` with one slash between them.
pub open spec fn pushed(base: Seq<u8>, path: Seq<u8>) -> Seq<u8> {
    if is_absolute(path) || base.len() == 0 {
        path
    } else if base.last() == SLASH {
        base + path
    } else {
        base.push(SLASH) + path
    }
}

/// Follows `path` from `base`.
pub fn push_path(base: &[u8], path: &[u8]) -> (full: Vec<u8>)
    ensures
        full@ == pushed(base@, path@),
{
    if base.len() == 0 || (path.len() > 0 && path[0] == SLASH) {
        return to_vec(path);
    }
    let mut full = to_vec(base);
    if base[base.len() - 1] != SLASH {
        full.push(SLASH);
    }
    append(&mut full, path);
    assert(full@ =~= pushed(base@, path@));
    full
}

/// The two paths have the same components, so they lead to the same place.
pub open spec fn same_path(left: Seq<u8>, right: Seq<u8>) -> bool {
    components(left) == components(right)
}

/// Whether two components are the same.
fn parts_equal(left: &PathPart, right: &PathPart) -> (same: bool)
    ensures
        same == (left@ == right@),
{
    match (left, right) {
        (PathPart::Root, PathPart::Root) => true,
        (PathPart::Current, PathPart::Current) => true,
        (PathPart::Parent, PathPart::Parent) => true,
        (PathPart::Normal(first), PathPart::Normal(second)) => bytes_equal(
            first.as_slice(),
            second.as_slice(),
        ),
        _ => false,
    }
}

/// Whether two lists hold the same components.
fn part_lists_equal(left: &Vec<PathPart>, right: &Vec<PathPart>) -> (same: bool)
    ensures
        same == (part_views(left@) == part_views(right@)),
{
    let ghost first = part_views(left@);
    let ghost second = part_views(right@);
    if left.len() != right.len() {
        assert(first.len() != second.len());
        return false;
    }
    let mut i: usize = 0;
    while i < left.len()
        invariant
            i <= left@.len(),
            left@.len() == right@.len(),
            first == part_views(left@),
            second == part_views(right@),
            forall|n: int| 0 <= n < i ==> #[trigger] first[n] == second[n],
        decreases left@.len() - i,
    {
        assert(first[i as int] == left@[i as int]@);
        assert(second[i as int] == right@[i as int]@);
        if !parts_equal(&left[i], &right[i]) {
            return false;
        }
        i += 1;
    }
    assert(first =~= second);
    true
}

/// Whether two paths have the same components.
pub fn paths_equal(left: &[u8], right: &[u8]) -> (same: bool)
    ensures
        same == same_path(left@, right@),
{
    let first = path_components(left);
    let second = path_components(right);
    part_lists_equal(&first, &second)
}

/// The shortest start of `path`, of `from` bytes or more, that has the given
/// components.
pub open spec fn shortest_start(path: Seq<u8>, wanted: Seq<Component>, from: int) -> Option<Seq<u8>>
    decreases path.len() + 1 - from,
{
    if from > path.len() {
        None
    } else if components(path.take(from)) == wanted {
        Some(path.take(from))
    } else {
        shortest_start(path, wanted, from + 1)
    }
}

/// The directory that a path lies in: the path without its last component. The
/// root, and no path at all, lie in none.
pub open spec fn enclosing(path: Seq<u8>) -> Option<Seq<u8>> {
    let parts = components(path);
    if parts.len() == 0 || parts.last() is Root {
        None
    } else {
        shortest_start(path, parts.drop_last(), 0)
    }
}

/// The components before the last piece of a path.
spec fn settled_components(path: Seq<u8>) -> Seq<Component> {
    let parts = pieces(path, SLASH);
    let named = components_of_pieces(parts, parts.len() - 1);
    if is_absolute(path) {
        seq![Component::Root] + named
    } else {
        named
    }
}

/// Components come from their own pieces alone.
proof fn lemma_components_of_pieces_local(left: Seq<Seq<u8>>, right: Seq<Seq<u8>>, count: int)
    requires
        count <= left.len(),
        count <= right.len(),
        forall|i: int| 0 <= i < count ==> left[i] == right[i],
    ensures
        components_of_pieces(left, count) == components_of_pieces(right, count),
    decreases count,
{
    if count > 0 {
        lemma_components_of_pieces_local(left, right, count - 1);
    }
}

/// The last piece of a path adds at most one component.
proof fn lemma_last_piece(path: Seq<u8>)
    ensures
        settled_components(path).is_prefix_of(components(path)),
        components(path).len() <= settled_components(path).len() + 1,
{
    lemma_pieces_nonempty(path, SLASH);
}

/// Every run of components from the start of a path is that of a start of it.
proof fn lemma_start_exists(path: Seq<u8>, count: int) -> (end: int)
    requires
        0 <= count <= components(path).len(),
        is_absolute(path) ==> count > 0,
    ensures
        0 <= end <= path.len(),
        components(path.take(end)) == components(path).take(count),
    decreases path.len(),
{
    let all = components(path);
    if count == all.len() {
        assert(path.take(path.len() as int) =~= path);
        assert(all.take(count) =~= all);
        path.len() as int
    } else {
        assert(path.len() > 0) by {
            if path.len() == 0 {
                assert(pieces(path, SLASH) =~= seq![Seq::<u8>::empty()]);
                reveal_with_fuel(components_of_pieces, 2);
                assert(all.len() == 0);
            }
        }
        let shorter = path.drop_last();
        lemma_last_piece(path);
        lemma_last_piece(shorter);
        lemma_pieces_nonempty(shorter, SLASH);
        let before = pieces(shorter, SLASH);
        let parts = pieces(path, SLASH);
        if path.last() == SLASH {
            lemma_components_of_pieces_local(parts, before, before.len() as int);
            if path.len() == 1 {
                assert(before =~= seq![Seq::<u8>::empty()]);
                reveal_with_fuel(components_of_pieces, 3);
                assert(all =~= seq![Component::Root]);
                assert(false);
            }
            assert(components(shorter) =~= all);
        } else {
            lemma_components_of_pieces_local(parts, before, before.len() - 1);
            if path.len() == 1 {
                assert(all.len() <= 1);
                assert(settled_components(path).len() == 0);
            } else {
                assert(settled_components(path) =~= settled_components(shorter));
            }
        }
        if shorter.len() == 0 {
            assert(count == 0);
            assert(path.take(0) =~= shorter);
            assert(components(shorter).len() == 0) by {
                assert(before =~= seq![Seq::<u8>::empty()]);
                reveal_with_fuel(components_of_pieces, 2);
            }
            assert(components(path.take(0)) =~= all.take(count));
            0
        } else {
            assert(components(shorter).take(count) =~= all.take(count));
            let end = lemma_start_exists(shorter, count);
            assert(path.take(end) =~= shorter.take(end));
            end
        }
    }
}

/// A start that has the components is found.
proof fn lemma_shortest_start(path: Seq<u8>, wanted: Seq<Component>, from: int, end: int)
    requires
        0 <= from <= end <= path.len(),
        components(path.take(end)) == wanted,
    ensures
        shortest_start(path, wanted, from) is Some,
        components(shortest_start(path, wanted, from)->0) == wanted,
    decreases end - from,
{
    if components(path.take(from)) != wanted {
        lemma_shortest_start(path, wanted, from + 1, end);
    }
}

/// Every path but the root and the empty one lies in a directory, which has all
/// its components but the last.
pub proof fn lemma_enclosing(path: Seq<u8>)
    requires
        components(path).len() > 0,
        !(components(path).last() is Root),
    ensures
        enclosing(path) is Some,
        components(enclosing(path)->0) == components(path).drop_last(),
{
    let parts = components(path);
    let count = parts.len() - 1;
    assert(is_absolute(path) ==> parts[0] is Root);
    let end = lemma_start_exists(path, count);
    assert(parts.drop_last() =~= parts.take(count));
    lemma_shortest_start(path, parts.drop_last(), 0, end);
}

/// The directory that a path lies in.
pub fn enclosing_directory(path: &[u8]) -> (directory: Option<Vec<u8>>)
    ensures
        match directory {
            Some(found) => enclosing(path@) == Some(found@),
            None => enclosing(path@) is None,
        },
{
    let mut wanted = path_components(path);
    let ghost parts = components(path@);
    if wanted.len() == 0 {
        return None;
    }
    assert(parts.last() == wanted@.last()@);
    if matches!(wanted[wanted.len() - 1], PathPart::Root) {
        return None;
    }
    let _last = wanted.pop();
    assert(part_views(wanted@) =~= parts.drop_last());
    let mut end: usize = 0;
    loop
        invariant
            end <= path@.len(),
            part_views(wanted@) == parts.drop_last(),
            enclosing(path@) == shortest_start(path@, parts.drop_last(), end as int),
        decreases path@.len() - end,
    {
        let start = vstd::slice::slice_subrange(path, 0, end);
        assert(start@ =~= path@.take(end as int));
        let found = path_components(start);
        if part_lists_equal(&found, &wanted) {
            return Some(to_vec(start));
        }
        if end == path.len() {
            assert(shortest_start(path@, parts.drop_last(), end + 1) is None);
            return None;
        }
        end += 1;
    }
}

/// An entry of a directory lies below it, and its parent is the directory.
pub proof fn law_entries_lie_in_their_directory(directory: Seq<u8>, name: Seq<u8>)
    requires
        name.len() > 0,
        !name.contains(SLASH),
    ensures
        parent(joined(directory, name)) == directory,
        is_beneath(directory, joined(directory, name)),
    decreases name.len(),
{
    let path = joined(directory, name);
    assert(name.contains(name.last()));
    let less = name.drop_last();
    assert forall|b: u8| less.contains(b) implies name.contains(b) by {
        let n = choose|n: int| 0 <= n < less.len() && less[n] == b;
        assert(name[n] == b);
    }
    if directory.len() == 0 {
        if less.len() > 0 {
            law_entries_lie_in_their_directory(directory, less);
        } else {
            assert(path.drop_last() =~= Seq::<u8>::empty());
        }
        assert(path.drop_last() =~= less);
        assert(directory =~= Seq::<u8>::empty());
    } else {
        assert(path.take(directory.len() as int) =~= directory);
        assert(path.drop_last() =~= directory.push(SLASH) + less);
        if less.len() > 0 {
            law_entries_lie_in_their_directory(directory, less);
        } else {
            assert(path.drop_last() =~= directory.push(SLASH));
            assert(directory.push(SLASH).drop_last() =~= directory);
        }
    }
}

/// What is followed from a base lies behind it, with one slash between them; an
/// absolute path stands for itself.
pub proof fn law_followed_paths_start_at_their_base(base: Seq<u8>, path: Seq<u8>)
    ensures
        path.len() > 0 && path[0] == SLASH ==> pushed(base, path) == path,
        !(path.len() > 0 && path[0] == SLASH) && base.len() > 0 ==> pushed(base, path).take(
            base.len() as int,
        ) == base && (base.last() == SLASH ==> pushed(base, path).len() == base.len() + path.len())
            && (base.last() != SLASH ==> pushed(base, path).len() == base.len() + 1 + path.len()
            && pushed(base, path)[base.len() as int] == SLASH),
{
    if !(path.len() > 0 && path[0] == SLASH) && base.len() > 0 {
        assert(pushed(base, path).take(base.len() as int) =~= base);
    }
}

} // verus!
