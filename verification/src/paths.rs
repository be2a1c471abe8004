//! The order in which paths are read.

use vstd::prelude::*;

use crate::order::{lemma_ranked_view, ranked_by, stable_sort, Ranked};
use crate::text::{
    chars_of, lt, same, split, split_text, text_lt, text_lt_irreflexive, text_lt_total,
    text_lt_transitive, texts,
};

verus! {

/// A part of a path.
#[derive(Debug, Eq, PartialEq)]
pub enum PathPart {
    /// The slash in front.
    Root,
    /// A single dot in front.
    Current,
    /// Two dots.
    Parent,
    /// A name.
    Named(String),
}

/// A part of a path, as text.
pub enum PartView {
    Root,
    Current,
    Parent,
    Named(Seq<char>),
}

impl PathPart {
    /// The part as text.
    pub open spec fn view(self) -> PartView {
        match self {
            PathPart::Root => PartView::Root,
            PathPart::Current => PartView::Current,
            PathPart::Parent => PartView::Parent,
            PathPart::Named(name) => PartView::Named(name@),
        }
    }
}

/// The parts as text.
pub open spec fn part_views(parts: Seq<PathPart>) -> Seq<PartView> {
    parts.map_values(|part: PathPart| part.view())
}

/// The part that a piece between slashes makes, where it makes one: an empty piece and a
/// single dot do not.
pub open spec fn part_of(piece: Seq<char>) -> Option<PartView> {
    if piece.len() == 0 || piece == "."@ {
        None
    } else if piece == ".."@ {
        Some(PartView::Parent)
    } else {
        Some(PartView::Named(piece))
    }
}

/// The parts that pieces between slashes make.
pub open spec fn parts_of(pieces: Seq<Seq<char>>) -> Seq<PartView>
    decreases pieces.len(),
{
    if pieces.len() == 0 {
        Seq::empty()
    } else {
        let before = parts_of(pieces.drop_last());
        match part_of(pieces.last()) {
            Some(part) => before.push(part),
            None => before,
        }
    }
}

/// The part in front of the others: the root, or the dot that a relative path begins with.
pub open spec fn front_of(path: Seq<char>) -> Seq<PartView> {
    if path.len() > 0 && path[0] == '/' {
        seq![PartView::Root]
    } else if split_text(path, '/')[0] == "."@ {
        seq![PartView::Current]
    } else {
        Seq::empty()
    }
}

/// The parts of a path.
pub open spec fn path_parts(path: Seq<char>) -> Seq<PartView> {
    front_of(path) + parts_of(split_text(path, '/'))
}

/// Where the kinds of parts stand.
pub open spec fn part_rank(part: PartView) -> int {
    match part {
        PartView::Root => 0,
        PartView::Current => 1,
        PartView::Parent => 2,
        PartView::Named(_) => 3,
    }
}

/// A part stands before another: by its kind, and of two names by the names.
pub open spec fn part_lt(a: PartView, b: PartView) -> bool {
    match (a, b) {
        (PartView::Named(x), PartView::Named(y)) => text_lt(x, y),
        _ => part_rank(a) < part_rank(b),
    }
}

/// Parts stand before others: by the first part in which they differ, and the shorter first.
pub open spec fn parts_lt(a: Seq<PartView>, b: Seq<PartView>) -> bool
    decreases a.len(),
{
    if b.len() == 0 {
        false
    } else if a.len() == 0 {
        true
    } else if a[0] != b[0] {
        part_lt(a[0], b[0])
    } else {
        parts_lt(a.drop_first(), b.drop_first())
    }
}

/// A path may stand before another: part by part, not character by character.
pub open spec fn path_le(a: Seq<char>, b: Seq<char>) -> bool {
    path_parts(a) == path_parts(b) || parts_lt(path_parts(a), path_parts(b))
}

/// Paths in order; those with the same parts stay as they were.
pub open spec fn in_path_order(paths: Seq<Seq<char>>) -> Seq<Seq<char>> {
    ranked_by(paths, |a: Seq<char>, b: Seq<char>| path_le(a, b))
}

proof fn lemma_part_lt(a: PartView, b: PartView)
    ensures
        part_lt(a, b) || a == b || part_lt(b, a),
        !part_lt(a, a),
{
    if let PartView::Named(x) = a {
        text_lt_irreflexive(x);
        if let PartView::Named(y) = b {
            text_lt_total(x, y);
        }
    }
}

proof fn lemma_parts_total(a: Seq<PartView>, b: Seq<PartView>)
    ensures
        parts_lt(a, b) || a == b || parts_lt(b, a),
    decreases a.len(),
{
    if a.len() == 0 || b.len() == 0 {
        if a.len() == 0 && b.len() == 0 {
            assert(a =~= b);
        }
    } else if a[0] == b[0] {
        lemma_parts_total(a.drop_first(), b.drop_first());
        if a.drop_first() == b.drop_first() {
            assert(a =~= seq![a[0]] + a.drop_first());
            assert(b =~= seq![b[0]] + b.drop_first());
        }
    } else {
        lemma_part_lt(a[0], b[0]);
    }
}

proof fn lemma_parts_transitive(a: Seq<PartView>, b: Seq<PartView>, c: Seq<PartView>)
    requires
        parts_lt(a, b),
        parts_lt(b, c),
    ensures
        parts_lt(a, c),
    decreases a.len(),
{
    if a.len() > 0 {
        if a[0] == b[0] && b[0] == c[0] {
            lemma_parts_transitive(a.drop_first(), b.drop_first(), c.drop_first());
        } else if a[0] != b[0] && b[0] != c[0] {
            if let (PartView::Named(x), PartView::Named(y), PartView::Named(z)) = (a[0], b[0], c[0]) {
                text_lt_transitive(x, y, z);
            }
            lemma_part_lt(a[0], a[0]);
        }
    }
}

/// A path that is put in its place.
#[derive(Debug, Eq, PartialEq)]
struct Placed {
    path: String,
    parts: Vec<PathPart>,
}

impl Placed {
    #[verifier::type_invariant]
    spec fn has_its_parts(self) -> bool {
        part_views(self.parts@) == path_parts(self.path@)
    }
}

/// Whether the parts of one path stand before those of another or are the same.
fn parts_at_most(a: &Vec<PathPart>, b: &Vec<PathPart>) -> (r: bool)
    ensures
        r == (part_views(a@) == part_views(b@) || parts_lt(part_views(a@), part_views(b@))),
{
    let ghost x = part_views(a@);
    let ghost y = part_views(b@);
    let mut i: usize = 0;
    assert(x.skip(0) =~= x);
    assert(y.skip(0) =~= y);
    while i < a.len() && i < b.len()
        invariant
            i <= a@.len(),
            i <= b@.len(),
            x == part_views(a@),
            y == part_views(b@),
            (x == y) == (x.skip(i as int) == y.skip(i as int)),
            parts_lt(x, y) == parts_lt(x.skip(i as int), y.skip(i as int)),
        decreases a@.len() - i,
    {
        proof {
            assert(x[i as int] == a@[i as int].view());
            assert(y[i as int] == b@[i as int].view());
            assert(x.skip(i as int)[0] == x[i as int]);
            assert(y.skip(i as int)[0] == y[i as int]);
            assert(x.skip(i as int).drop_first() =~= x.skip(i + 1));
            assert(y.skip(i as int).drop_first() =~= y.skip(i + 1));
        }
        let (first, before): (bool, bool) = match (&a[i], &b[i]) {
            (PathPart::Named(p), PathPart::Named(q)) => (
                same(p.as_str(), q.as_str()),
                lt(p.as_str(), q.as_str()),
            ),
            (p, q) => {
                let p: u8 = rank_of(p);
                let q: u8 = rank_of(q);
                (p == q, p < q)
            },
        };
        if !first {
            return before;
        }
        proof {
            if x.skip(i + 1) == y.skip(i + 1) {
                assert(x.skip(i as int) =~= seq![x[i as int]] + x.skip(i + 1));
                assert(y.skip(i as int) =~= seq![y[i as int]] + y.skip(i + 1));
            }
        }
        i += 1;
    }
    assert(x.skip(i as int).len() == 0 || y.skip(i as int).len() == 0);
    if a.len() == b.len() {
        assert(x.skip(i as int) =~= y.skip(i as int));
    }
    a.len() <= b.len()
}

fn rank_of(part: &PathPart) -> (r: u8)
    ensures
        r as int == part_rank(part.view()),
{
    match part {
        PathPart::Root => 0,
        PathPart::Current => 1,
        PathPart::Parent => 2,
        PathPart::Named(_) => 3,
    }
}

/// The parts of a path.
fn parts(path: &str) -> (r: Vec<PathPart>)
    ensures
        part_views(r@) == path_parts(path@),
{
    let pieces: Vec<String> = split(path, '/');
    let ghost views = texts(pieces@);
    let chars: Vec<char> = chars_of(path);
    let mut r: Vec<PathPart> = Vec::new();
    assert(views.len() > 0);
    assert(views[0] == pieces@[0]@);
    if chars.len() > 0 && chars[0] == '/' {
        r.push(PathPart::Root);
    } else if same(pieces[0].as_str(), ".") {
        r.push(PathPart::Current);
    }
    let ghost front = front_of(path@);
    assert(part_views(r@) =~= front);
    let mut i: usize = 0;
    assert(views.take(0) =~= Seq::<Seq<char>>::empty());
    assert(front + parts_of(views.take(0)) =~= front);
    while i < pieces.len()
        invariant
            i <= pieces@.len(),
            views == texts(pieces@),
            part_views(r@) == front + parts_of(views.take(i as int)),
        decreases pieces@.len() - i,
    {
        let piece: &str = pieces[i].as_str();
        let ghost before = parts_of(views.take(i as int));
        proof {
            assert(views.take(i + 1).drop_last() =~= views.take(i as int));
            assert(views.take(i + 1).last() == piece@);
        }
        if !piece.is_empty() && !same(piece, ".") {
            let part: PathPart = if same(piece, "..") {
                PathPart::Parent
            } else {
                PathPart::Named(piece.to_owned())
            };
            let ghost view = part.view();
            let ghost had = r@;
            r.push(part);
            assert(part_views(r@) =~= part_views(had).push(view));
            assert((front + before).push(view) =~= front + before.push(view));
        }
        i += 1;
    }
    assert(views.take(i as int) =~= views);
    r
}

impl Ranked for Placed {
    closed spec fn at_most(self, other: Self) -> bool {
        path_le(self.path@, other.path@)
    }

    proof fn at_most_total(a: Self, b: Self) {
        lemma_parts_total(path_parts(a.path@), path_parts(b.path@));
    }

    proof fn at_most_transitive(a: Self, b: Self, c: Self) {
        let (x, y, z) = (path_parts(a.path@), path_parts(b.path@), path_parts(c.path@));
        if parts_lt(x, y) && parts_lt(y, z) {
            lemma_parts_transitive(x, y, z);
        }
    }

    fn is_at_most(&self, other: &Self) -> (r: bool) {
        proof {
            use_type_invariant(self);
            use_type_invariant(other);
        }
        parts_at_most(&self.parts, &other.parts)
    }
}

/// Puts paths in order, part by part.
pub fn sort_paths(paths: &Vec<String>) -> (r: Vec<String>)
    ensures
        texts(r@) == in_path_order(texts(paths@)),
{
    let ghost text = |placed: Placed| placed.path@;
    let ghost views = texts(paths@);
    let mut all: Vec<Placed> = Vec::new();
    let mut i: usize = 0;
    while i < paths.len()
        invariant
            i <= paths@.len(),
            views == texts(paths@),
            text == (|placed: Placed| placed.path@),
            all@.map_values(text) == views.take(i as int),
        decreases paths@.len() - i,
    {
        let path: String = paths[i].clone();
        let parts: Vec<PathPart> = parts(path.as_str());
        let ghost had = all@;
        let placed = Placed { path, parts };
        all.push(placed);
        proof {
            assert(views[i as int] == path@);
            assert(all@.map_values(text) =~= had.map_values(text).push(path@));
            assert(views.take(i + 1) =~= views.take(i as int).push(path@));
        }
        i += 1;
    }
    assert(views.take(i as int) =~= views);
    let ghost unsorted = all@;
    let sorted: Vec<Placed> = stable_sort(all);
    proof {
        lemma_ranked_view(unsorted, text, |a: Seq<char>, b: Seq<char>| path_le(a, b));
    }
    let mut r: Vec<String> = Vec::new();
    let mut j: usize = 0;
    while j < sorted.len()
        invariant
            j <= sorted@.len(),
            text == (|placed: Placed| placed.path@),
            texts(r@) == sorted@.map_values(text).take(j as int),
        decreases sorted@.len() - j,
    {
        let path: String = sorted[j].path.clone();
        let ghost had = r@;
        r.push(path);
        assert(texts(r@) =~= texts(had).push(path@));
        assert(sorted@.map_values(text).take(j + 1) =~= sorted@.map_values(text).take(
            j as int,
        ).push(path@));
        j += 1;
    }
    assert(sorted@.map_values(text).take(j as int) =~= sorted@.map_values(text));
    r
}

/// Any two paths are in order one way or the other, and the order is transitive.
pub proof fn paths_are_ordered()
    ensures
        forall|a: Seq<char>, b: Seq<char>| #[trigger] path_le(a, b) || path_le(b, a),
        forall|a: Seq<char>, b: Seq<char>, c: Seq<char>|
            #[trigger] path_le(a, b) && #[trigger] path_le(b, c) ==> path_le(a, c),
{
    assert forall|a: Seq<char>, b: Seq<char>| #[trigger] path_le(a, b) || path_le(b, a) by {
        lemma_parts_total(path_parts(a), path_parts(b));
    }
    assert forall|a: Seq<char>, b: Seq<char>, c: Seq<char>|
        #[trigger] path_le(a, b) && #[trigger] path_le(b, c) implies path_le(a, c) by {
        let (x, y, z) = (path_parts(a), path_parts(b), path_parts(c));
        if parts_lt(x, y) && parts_lt(y, z) {
            lemma_parts_transitive(x, y, z);
        }
    }
}

} // verus!
