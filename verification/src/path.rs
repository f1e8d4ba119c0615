//! Paths: ordered sequences of name segments.

use vstd::prelude::*;
use vstd::string::StringExecFns;

verus! {

/// The segments of a vector of strings, each as its character sequence.
pub open spec fn segments_view(v: Seq<String>) -> Seq<Seq<char>> {
    v.map_values(|s: String| s@)
}

/// `tail` is an exact, contiguous suffix of `full`.
pub open spec fn spec_ends_with(full: Seq<Seq<char>>, tail: Seq<Seq<char>>) -> bool {
    &&& tail.len() <= full.len()
    &&& forall|i: int|
        0 <= i < tail.len() ==> full[full.len() - tail.len() + i] == #[trigger] tail[i]
}

/// A path of the same length is a suffix exactly when it is the same path.
pub proof fn lemma_ends_with_same_len(full: Seq<Seq<char>>, tail: Seq<Seq<char>>)
    requires
        full.len() == tail.len(),
    ensures
        spec_ends_with(full, tail) <==> full == tail,
{
    if spec_ends_with(full, tail) {
        assert(full =~= tail);
    }
}

fn clone_segments(v: &Vec<String>) -> (r: Vec<String>)
    ensures
        r@ == v@,
{
    let mut out: Vec<String> = Vec::new();
    let mut i: usize = 0;
    while i < v.len()
        invariant
            i <= v.len(),
            out@ == v@.take(i as int),
        decreases v.len() - i,
    {
        out.push(v[i].clone());
        assert(out@ =~= v@.take(i + 1));
        i += 1;
    }
    assert(v@.take(v.len() as int) =~= v@);
    out
}

/// A possibly partial path, as written where a name is used.
#[derive(Debug)]
pub struct Path {
    pub segments: Vec<String>,
}

/// A complete, qualified path: the identity under which an entry is stored.
#[derive(Debug)]
pub struct FullPath {
    pub segments: Vec<String>,
}

impl View for Path {
    type V = Seq<Seq<char>>;

    open spec fn view(&self) -> Seq<Seq<char>> {
        segments_view(self.segments@)
    }
}

impl View for FullPath {
    type V = Seq<Seq<char>>;

    open spec fn view(&self) -> Seq<Seq<char>> {
        segments_view(self.segments@)
    }
}

impl Clone for Path {
    fn clone(&self) -> (r: Self)
        ensures
            r@ == self@,
    {
        Path { segments: clone_segments(&self.segments) }
    }
}

impl Clone for FullPath {
    fn clone(&self) -> (r: Self)
        ensures
            r@ == self@,
    {
        FullPath { segments: clone_segments(&self.segments) }
    }
}

impl Path {
    /// The path made of the given segments, in order.
    pub fn new(segments: Vec<String>) -> (r: Path)
        ensures
            r@ == segments_view(segments@),
    {
        Path { segments }
    }

    /// The path of one segment.
    pub fn single(name: &str) -> (r: Path)
        ensures
            r@ == seq![name@],
    {
        let mut segments: Vec<String> = Vec::new();
        segments.push(String::from_str(name));
        assert(segments_view(segments@) =~= seq![name@]);
        Path { segments }
    }

    /// Takes the path as already fully qualified.
    pub fn into_full(self) -> (r: FullPath)
        ensures
            r@ == self@,
    {
        FullPath { segments: self.segments }
    }
}

impl FullPath {
    /// The full path made of the given segments, in order.
    pub fn new(segments: Vec<String>) -> (r: FullPath)
        ensures
            r@ == segments_view(segments@),
    {
        FullPath { segments }
    }

    /// The full path of one segment.
    pub fn single(name: &str) -> (r: FullPath)
        ensures
            r@ == seq![name@],
    {
        let mut segments: Vec<String> = Vec::new();
        segments.push(String::from_str(name));
        assert(segments_view(segments@) =~= seq![name@]);
        FullPath { segments }
    }

    /// Whether `path` is an exact, contiguous suffix of this path.
    pub fn ends_with(&self, path: &Path) -> (b: bool)
        ensures
            b == spec_ends_with(self@, path@),
    {
        let n: usize = self.segments.len();
        let m: usize = path.segments.len();
        if m > n {
            return false;
        }
        let off: usize = n - m;
        let mut i: usize = 0;
        while i < m
            invariant
                n == self.segments.len(),
                m == path.segments.len(),
                m <= n,
                off == n - m,
                i <= m,
                forall|j: int| 0 <= j < i ==> self@[off + j] == #[trigger] path@[j],
            decreases m - i,
        {
            if !(self.segments[off + i] == path.segments[i]) {
                assert(self@[off + i] != path@[i as int]);
                return false;
            }
            i += 1;
        }
        true
    }

    /// Whether the two paths have the same segments in the same order.
    pub fn same(&self, other: &FullPath) -> (b: bool)
        ensures
            b == (self@ == other@),
    {
        let n: usize = self.segments.len();
        if other.segments.len() != n {
            assert(self@.len() != other@.len());
            return false;
        }
        let mut i: usize = 0;
        while i < n
            invariant
                n == self.segments.len(),
                n == other.segments.len(),
                i <= n,
                forall|j: int| 0 <= j < i ==> self@[j] == #[trigger] other@[j],
            decreases n - i,
        {
            if !(self.segments[i] == other.segments[i]) {
                assert(self@[i as int] != other@[i as int]);
                return false;
            }
            i += 1;
        }
        assert(self@ =~= other@);
        true
    }
}

} // verus!
