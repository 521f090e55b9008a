use vstd::prelude::*;
use crate::glob::{glob_match, glob_matches};
use crate::text::{split_spec, split_on, views, copy_chars};

verus! {

/// One segment of a compiled pattern.
pub enum PatSeg {
    /// `**`: zero or more whole path segments.
    AnyDepth,
    /// A glob that must match exactly one path segment.
    Glob(Vec<char>),
}

/// The predicate a rule's pattern compiles to.
pub struct CompiledMatcher {
    pub segments: Vec<PatSeg>,
    pub directory_only: bool,
    /// The pattern holds a `..` segment; such a pattern matches nothing.
    pub traversal: bool,
}

pub open spec fn star_star() -> Seq<char> {
    seq!['*', '*']
}

pub open spec fn dot_dot() -> Seq<char> {
    seq!['.', '.']
}

/// Whether the pattern segments `ps[i..]` match the path segments `path[j..end]`.
pub open spec fn segs_at(ps: Seq<PatSeg>, i: int, path: Seq<Seq<char>>, j: int, end: int) -> bool
    decreases ps.len() - i + end - j,
{
    if i < 0 || j < 0 || j > end {
        false
    } else if i >= ps.len() {
        j == end
    } else {
        match ps[i] {
            PatSeg::AnyDepth => segs_at(ps, i + 1, path, j, end) || (j < end && segs_at(
                ps,
                i,
                path,
                j + 1,
                end,
            )),
            PatSeg::Glob(g) => j < end && glob_match(g@, path[j]) && segs_at(
                ps,
                i + 1,
                path,
                j + 1,
                end,
            ),
        }
    }
}

/// Whether the compiled segment `s` stands for the pattern text `text`.
pub open spec fn seg_denotes(s: PatSeg, text: Seq<char>) -> bool {
    match s {
        PatSeg::AnyDepth => text == star_star(),
        PatSeg::Glob(g) => text != star_star() && g@ == text,
    }
}

/// `m` is what `pattern` compiles to: its `/`-separated pieces in order, `**` as
/// `AnyDepth`, behind a leading `AnyDepth` when the pattern is not anchored (so that it
/// may match at any depth).
pub open spec fn compiled_from(
    m: CompiledMatcher,
    pattern: Seq<char>,
    anchored: bool,
    directory_only: bool,
) -> bool {
    let pieces = split_spec(pattern, '/');
    let o: int = if anchored {
        0
    } else {
        1
    };
    &&& m.directory_only == directory_only
    &&& m.traversal == (exists|k: int| 0 <= k < pieces.len() && pieces[k] == dot_dot())
    &&& m.segments@.len() == o + pieces.len()
    &&& (!anchored ==> m.segments@[0] is AnyDepth)
    &&& forall|k: int| 0 <= k < pieces.len() ==> seg_denotes(m.segments@[o + k], #[trigger] pieces[k])
}

/// Whether `m` fires on the prefix `path[..end]`, that prefix being a directory or not.
pub open spec fn fires(m: CompiledMatcher, path: Seq<Seq<char>>, end: int, is_dir: bool) -> bool {
    &&& !m.traversal
    &&& (!m.directory_only || is_dir)
    &&& segs_at(m.segments@, 0, path, 0, end)
}

fn is_star_star(v: &Vec<char>) -> (r: bool)
    ensures
        r == (v@ == star_star()),
{
    let r = v.len() == 2 && v[0] == '*' && v[1] == '*';
    if r {
        assert(v@ =~= star_star());
    }
    r
}

pub(crate) fn is_dot_dot(v: &Vec<char>) -> (r: bool)
    ensures
        r == (v@ == dot_dot()),
{
    let r = v.len() == 2 && v[0] == '.' && v[1] == '.';
    if r {
        assert(v@ =~= dot_dot());
    }
    r
}

/// Compiles a rule's pattern text.
pub fn compile(pattern: &Vec<char>, anchored: bool, directory_only: bool) -> (m: CompiledMatcher)
    ensures
        compiled_from(m, pattern@, anchored, directory_only),
{
    let pieces = split_on(pattern, '/');
    let ghost pv = split_spec(pattern@, '/');
    let mut segments: Vec<PatSeg> = Vec::new();
    let ghost o: int = if anchored {
        0
    } else {
        1
    };
    if !anchored {
        segments.push(PatSeg::AnyDepth);
    }
    let mut traversal = false;
    let mut k: usize = 0;
    while k < pieces.len()
        invariant
            views(pieces@) == pv,
            o == (if anchored {
                0int
            } else {
                1int
            }),
            k <= pieces.len(),
            segments@.len() == o + k,
            !anchored ==> segments@[0] is AnyDepth,
            forall|q: int| 0 <= q < k ==> seg_denotes(#[trigger] segments@[o + q], pv[q]),
            traversal == (exists|q: int| 0 <= q < k && pv[q] == dot_dot()),
        decreases pieces.len() - k,
    {
        let piece = &pieces[k];
        assert(pv[k as int] == piece@);
        if is_dot_dot(piece) {
            traversal = true;
        }
        let ghost before = segments@;
        if is_star_star(piece) {
            segments.push(PatSeg::AnyDepth);
        } else {
            segments.push(PatSeg::Glob(copy_chars(piece)));
        }
        assert(segments@.drop_last() == before);
        assert(forall|q: int| 0 <= q < o + k ==> segments@[q] == before[q]);
        assert(seg_denotes(segments@[o + k], pv[k as int]));
        k = k + 1;
    }
    CompiledMatcher { segments, directory_only, traversal }
}

fn segs_at_exec(ps: &Vec<PatSeg>, i: usize, path: &Vec<Vec<char>>, j: usize, end: usize) -> (r: bool)
    requires
        i <= ps.len(),
        j <= end <= path.len(),
    ensures
        r == segs_at(ps@, i as int, views(path@), j as int, end as int),
    decreases ps.len() - i + end - j,
{
    if i >= ps.len() {
        j == end
    } else {
        match &ps[i] {
            PatSeg::AnyDepth => {
                if segs_at_exec(ps, i + 1, path, j, end) {
                    true
                } else if j < end {
                    segs_at_exec(ps, i, path, j + 1, end)
                } else {
                    false
                }
            },
            PatSeg::Glob(g) => {
                j < end && glob_matches(g, &path[j]) && segs_at_exec(ps, i + 1, path, j + 1, end)
            },
        }
    }
}

impl CompiledMatcher {
    /// Whether this matcher fires on the first `end` segments of `path`.
    pub fn fires_on(&self, path: &Vec<Vec<char>>, end: usize, is_dir: bool) -> (r: bool)
        requires
            end <= path.len(),
        ensures
            r == fires(*self, views(path@), end as int, is_dir),
    {
        !self.traversal && (!self.directory_only || is_dir) && segs_at_exec(
            &self.segments,
            0,
            path,
            0,
            end,
        )
    }
}

} // verus!
