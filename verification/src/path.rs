//! Qualified names: ordered sequences of name segments.

use vstd::prelude::*;

verus! {

/// One name segment of a qualified path.
#[derive(Debug)]
pub struct PathSegment(pub String);

impl View for PathSegment {
    type V = Seq<char>;

    open spec fn view(&self) -> Seq<char> {
        self.0@
    }
}

impl PathSegment {
    /// A fresh segment holding the same name.
    pub fn duplicate(&self) -> (r: PathSegment)
        ensures
            r == *self,
    {
        PathSegment(self.0.clone())
    }
}

/// A qualified name identifying a declaration: an ordered sequence of
/// name segments.  The root path has no segments; `extend` appends one
/// segment and `join_with` concatenates two paths.
#[derive(Debug)]
pub struct Path {
    pub segments: Vec<PathSegment>,
}

impl View for Path {
    type V = Seq<Seq<char>>;

    open spec fn view(&self) -> Seq<Seq<char>> {
        self.segments@.map(|i: int, s: PathSegment| s@)
    }
}

/// Copies a segment list, name for name.
fn copy_segments(v: &Vec<PathSegment>) -> (r: Vec<PathSegment>)
    ensures
        r@ =~= v@,
{
    let mut r: Vec<PathSegment> = Vec::new();
    let n = v.len();
    let mut i: usize = 0;
    while i < n
        invariant
            n == v@.len(),
            i <= n,
            r@ =~= v@.subrange(0, i as int),
        decreases n - i,
    {
        r.push(v[i].duplicate());
        i += 1;
    }
    proof {
        assert(r@ =~= v@);
    }
    r
}

impl Path {
    /// The root path: the empty segment sequence.
    pub fn root() -> (r: Path)
        ensures
            r@ =~= Seq::<Seq<char>>::empty(),
    {
        let r = Path { segments: Vec::new() };
        proof {
            assert(r@ =~= Seq::<Seq<char>>::empty());
        }
        r
    }

    /// A fresh path with the same segments.
    pub fn duplicate(&self) -> (r: Path)
        ensures
            r@ =~= self@,
    {
        Path { segments: copy_segments(&self.segments) }
    }

    /// A new path with one more segment at the end.
    pub fn extend(&self, segment: PathSegment) -> (r: Path)
        ensures
            r@ =~= self@.push(segment@),
    {
        let mut segments = copy_segments(&self.segments);
        segments.push(segment);
        let r = Path { segments };
        proof {
            assert(r@ =~= self@.push(r.segments@.last()@));
        }
        r
    }

    /// The concatenation of this path (as the prefix) with `suffix`.
    pub fn join_with(&self, suffix: &Path) -> (r: Path)
        ensures
            r@ =~= self@ + suffix@,
    {
        let mut segments = copy_segments(&self.segments);
        let n = suffix.segments.len();
        let mut i: usize = 0;
        while i < n
            invariant
                n == suffix.segments@.len(),
                i <= n,
                segments@ =~= self.segments@ + suffix.segments@.subrange(0, i as int),
            decreases n - i,
        {
            segments.push(suffix.segments[i].duplicate());
            i += 1;
        }
        let r = Path { segments };
        proof {
            assert(r.segments@ =~= self.segments@ + suffix.segments@);
            assert(r@ =~= self@ + suffix@);
        }
        r
    }
}

} // verus!
