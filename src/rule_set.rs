use vstd::prelude::*;
use crate::matcher::{CompiledMatcher, compile, compiled_from, fires, dot_dot, is_dot_dot};
use crate::rule::{Rule, RuleView, parse, parse_spec, rule_views};
use crate::text::{split_spec, split_on, views, copy_chars};

verus! {

/// The outcome of matching a path; the index names the deciding rule of the set.
#[derive(PartialEq, Eq, Structural, Clone, Copy, Debug)]
pub enum Verdict {
    NoMatch,
    Ignored(usize),
    Whitelisted(usize),
}

/// A path piece that names a segment: not empty and not `.`.
pub open spec fn names_segment(piece: Seq<char>) -> bool {
    piece.len() > 0 && piece != seq!['.']
}

/// `pieces` resolved in order: empty pieces and `.` are dropped, and `..` removes the
/// segment before it. The flag says whether some `..` climbed above the first segment;
/// such a `..` removes nothing.
pub open spec fn normalize(pieces: Seq<Seq<char>>) -> (Seq<Seq<char>>, bool)
    decreases pieces.len(),
{
    if pieces.len() == 0 {
        (Seq::empty(), false)
    } else {
        let (r, up) = normalize(pieces.drop_last());
        let x = pieces.last();
        if x == dot_dot() {
            if r.len() > 0 {
                (r.drop_last(), up)
            } else {
                (r, true)
            }
        } else if names_segment(x) {
            (r.push(x), up)
        } else {
            (r, up)
        }
    }
}

/// The segments of a `/`-separated path, resolved by `normalize`.
pub open spec fn path_segments(path: Seq<char>) -> Seq<Seq<char>> {
    normalize(split_spec(path, '/')).0
}

/// Whether some `..` of `path` climbs above its first segment.
pub open spec fn climbs_above(path: Seq<char>) -> bool {
    normalize(split_spec(path, '/')).1
}

pub open spec fn is_absolute(path: Seq<char>) -> bool {
    path.len() > 0 && path[0] == '/'
}

/// The segments of `path` relative to the base directory with segments `base`: an
/// absolute path must lie under the base, a relative one is taken as relative to it.
/// Both are first normalized. `None` for a path outside the base (a relative one whose
/// `..` climbs above the base included) and for the base itself.
pub open spec fn relative_spec(base: Seq<Seq<char>>, path: Seq<char>) -> Option<Seq<Seq<char>>> {
    let segs = path_segments(path);
    let rel = if is_absolute(path) {
        segs.skip(base.len() as int)
    } else {
        segs
    };
    if is_absolute(path) && !(base.len() <= segs.len() && segs.take(base.len() as int) == base) {
        None
    } else if !is_absolute(path) && climbs_above(path) {
        None
    } else if rel.len() == 0 {
        None
    } else {
        Some(rel)
    }
}

/// Whether `m` fires on some ancestor prefix of `rel` or on `rel` itself; every proper
/// prefix is a directory.
pub open spec fn hits(m: CompiledMatcher, rel: Seq<Seq<char>>, is_dir: bool) -> bool {
    exists|k: int| 1 <= k <= rel.len() && #[trigger] fires_at(m, rel, k, is_dir)
}

/// Whether `m` fires on the prefix of `rel` with `k` segments.
pub open spec fn fires_at(m: CompiledMatcher, rel: Seq<Seq<char>>, k: int, is_dir: bool) -> bool {
    fires(m, rel, k, k < rel.len() || is_dir)
}

/// The highest index below `n` of a matcher that hits `rel`: the last rule that fires wins.
pub open spec fn last_hit(ms: Seq<CompiledMatcher>, n: int, rel: Seq<Seq<char>>, is_dir: bool) -> Option<int>
    decreases n,
{
    if n <= 0 {
        None
    } else if hits(ms[n - 1], rel, is_dir) {
        Some(n - 1)
    } else {
        last_hit(ms, n - 1, rel, is_dir)
    }
}

/// An ordered list of rules, each with its compiled matcher, bound to a base directory.
pub struct RuleSet {
    pub rules: Vec<Rule>,
    pub matchers: Vec<CompiledMatcher>,
    /// The segments of the base directory.
    pub base: Vec<Vec<char>>,
}

impl RuleSet {
    /// Each rule stands beside the matcher its pattern compiles to.
    pub open spec fn wf(&self) -> bool {
        &&& self.rules@.len() == self.matchers@.len()
        &&& forall|i: int|
            0 <= i < self.rules@.len() ==> compiled_from(
                #[trigger] self.matchers@[i],
                self.rules@[i].pattern@,
                self.rules@[i].anchored,
                self.rules@[i].directory_only,
            )
    }

    pub open spec fn rule_views(&self) -> Seq<RuleView> {
        rule_views(self.rules@)
    }

    pub open spec fn base_view(&self) -> Seq<Seq<char>> {
        views(self.base@)
    }

    /// The verdict for `path`.
    pub open spec fn verdict(&self, path: Seq<char>, is_dir: bool) -> Verdict {
        match relative_spec(self.base_view(), path) {
            None => Verdict::NoMatch,
            Some(rel) => match last_hit(self.matchers@, self.matchers@.len() as int, rel, is_dir) {
                None => Verdict::NoMatch,
                Some(i) => if self.rules@[i].negated {
                    Verdict::Whitelisted(i as usize)
                } else {
                    Verdict::Ignored(i as usize)
                },
            },
        }
    }
}

/// The segments of `path`, resolved, and whether a `..` climbed above the first one.
pub fn segments_of(path: &Vec<char>) -> (r: (Vec<Vec<char>>, bool))
    ensures
        views(r.0@) == path_segments(path@),
        r.1 == climbs_above(path@),
{
    let pieces = split_on(path, '/');
    let ghost pv = split_spec(path@, '/');
    let mut r: Vec<Vec<char>> = Vec::new();
    let mut up = false;
    let mut i: usize = 0;
    while i < pieces.len()
        invariant
            views(pieces@) == pv,
            i <= pieces.len(),
            (views(r@), up) == normalize(pv.take(i as int)),
        decreases pieces.len() - i,
    {
        let piece = &pieces[i];
        assert(pv.take(i as int + 1).drop_last() =~= pv.take(i as int));
        assert(pv.take(i as int + 1).last() == piece@);
        let ghost before = r@;
        let is_dot = piece.len() == 1 && piece[0] == '.';
        if is_dot {
            assert(piece@ =~= seq!['.']);
        } else if piece.len() == 1 {
            assert(piece@ != seq!['.']) by {
                assert(piece@[0] != seq!['.'][0]);
            }
        }
        if is_dot_dot(piece) {
            if r.len() > 0 {
                r.pop();
                assert(views(r@) =~= views(before).drop_last());
            } else {
                up = true;
            }
        } else if piece.len() > 0 && !is_dot {
            r.push(copy_chars(piece));
            assert(views(r@) =~= views(before).push(piece@));
        }
        i = i + 1;
    }
    assert(pv.take(pieces.len() as int) =~= pv);
    (r, up)
}

fn same_chars(a: &Vec<char>, b: &Vec<char>) -> (r: bool)
    ensures
        r == (a@ == b@),
{
    if a.len() != b.len() {
        return false;
    }
    let mut i: usize = 0;
    while i < a.len()
        invariant
            a.len() == b.len(),
            i <= a.len(),
            forall|q: int| 0 <= q < i ==> a@[q] == b@[q],
        decreases a.len() - i,
    {
        if a[i] != b[i] {
            return false;
        }
        i = i + 1;
    }
    assert(a@ =~= b@);
    true
}

/// The segments of `path` relative to the base directory `base`, as `relative_spec` says.
pub fn relative_to(base: &Vec<Vec<char>>, path: &Vec<char>) -> (r: Option<Vec<Vec<char>>>)
    ensures
        match r {
            Some(rel) => relative_spec(views(base@), path@) == Some(views(rel@)),
            None => relative_spec(views(base@), path@) is None,
        },
{
    let (segs, up) = segments_of(path);
    let ghost sv = views(segs@);
    let ghost bv = views(base@);
    let absolute = path.len() > 0 && path[0] == '/';
    let start: usize = if absolute {
        if base.len() > segs.len() {
            return None;
        }
        let mut i: usize = 0;
        while i < base.len()
            invariant
                sv == views(segs@),
                sv == path_segments(path@),
                bv == views(base@),
                is_absolute(path@),
                base.len() <= segs.len(),
                i <= base.len(),
                forall|q: int| 0 <= q < i ==> sv[q] == bv[q],
            decreases base.len() - i,
        {
            if !same_chars(&segs[i], &base[i]) {
                assert(sv.take(base.len() as int)[i as int] != bv[i as int]);
                assert(sv.take(base.len() as int) != bv);
                return None;
            }
            i = i + 1;
        }
        assert(sv.take(base.len() as int) =~= bv);
        base.len()
    } else {
        if up {
            return None;
        }
        0
    };
    let mut rel: Vec<Vec<char>> = Vec::new();
    let mut i: usize = start;
    while i < segs.len()
        invariant
            sv == views(segs@),
            sv == path_segments(path@),
            bv == views(base@),
            start == (if is_absolute(path@) {
                bv.len()
            } else {
                0
            }),
            is_absolute(path@) ==> bv.len() <= sv.len() && sv.take(bv.len() as int) == bv,
            !is_absolute(path@) ==> !climbs_above(path@),
            start <= i <= segs.len(),
            views(rel@) == sv.subrange(start as int, i as int),
        decreases segs.len() - i,
    {
        let ghost before = rel@;
        let seg = copy_chars(&segs[i]);
        rel.push(seg);
        assert(views(rel@) =~= views(before).push(seg@));
        i = i + 1;
        assert(views(rel@) =~= sv.subrange(start as int, i as int));
    }
    assert(sv.subrange(start as int, segs.len() as int) =~= sv.skip(start as int));
    assert(sv.skip(0) =~= sv);
    if rel.len() == 0 {
        return None;
    }
    Some(rel)
}

fn hits_exec(m: &CompiledMatcher, rel: &Vec<Vec<char>>, is_dir: bool) -> (r: bool)
    ensures
        r == hits(*m, views(rel@), is_dir),
{
    let n = rel.len();
    let mut k: usize = 0;
    while k < n
        invariant
            n == rel.len(),
            k <= n,
            forall|q: int| 1 <= q <= k ==> !fires_at(*m, views(rel@), q, is_dir),
        decreases n - k,
    {
        if m.fires_on(rel, k + 1, k + 1 < n || is_dir) {
            assert(fires_at(*m, views(rel@), k + 1, is_dir));
            return true;
        }
        k = k + 1;
    }
    false
}

/// Compiles each rule.
fn compile_all(rules: &Vec<Rule>) -> (ms: Vec<CompiledMatcher>)
    ensures
        ms@.len() == rules@.len(),
        forall|i: int|
            0 <= i < rules@.len() ==> compiled_from(
                #[trigger] ms@[i],
                rules@[i].pattern@,
                rules@[i].anchored,
                rules@[i].directory_only,
            ),
{
    let mut ms: Vec<CompiledMatcher> = Vec::new();
    let mut i: usize = 0;
    while i < rules.len()
        invariant
            i <= rules.len(),
            ms@.len() == i,
            forall|q: int|
                0 <= q < i ==> compiled_from(
                    #[trigger] ms@[q],
                    rules@[q].pattern@,
                    rules@[q].anchored,
                    rules@[q].directory_only,
                ),
        decreases rules.len() - i,
    {
        let r = &rules[i];
        ms.push(compile(&r.pattern, r.anchored, r.directory_only));
        i = i + 1;
    }
    ms
}

/// The segments of the directory that holds the file at `path`: all but the last.
pub open spec fn parent_segments(path: Seq<char>) -> Seq<Seq<char>> {
    let segs = path_segments(path);
    if segs.len() == 0 {
        segs
    } else {
        segs.drop_last()
    }
}

/// The rule set of the ignore file at `gitignore_path`, whose contents are `text`, or
/// `None` when the file could not be read (then no rule applies). Paths are read
/// relative to `root` when given, else to the directory holding the file.
pub fn new_gitignore_with_root(
    gitignore_path: &Vec<char>,
    root: Option<&Vec<char>>,
    text: Option<&Vec<char>>,
) -> (s: RuleSet)
    ensures
        s.wf(),
        s.base_view() == match root {
            Some(r) => path_segments(r@),
            None => parent_segments(gitignore_path@),
        },
        s.rule_views() == match text {
            Some(t) => parse_spec(t@),
            None => Seq::<RuleView>::empty(),
        },
        forall|i: int|
            0 <= i < s.rules@.len() ==> (#[trigger] s.rules@[i]).origin_file@ == gitignore_path@,
{
    let base = match root {
        Some(r) => segments_of(r).0,
        None => {
            let mut segs = segments_of(gitignore_path).0;
            if segs.len() > 0 {
                let ghost before = segs@;
                segs.pop();
                assert(views(segs@) =~= views(before).drop_last());
            }
            segs
        },
    };
    let rules = match text {
        Some(t) => parse(t, gitignore_path),
        None => Vec::new(),
    };
    proof {
        if text is None {
            assert(rule_views(rules@) =~= Seq::<RuleView>::empty());
        }
    }
    let matchers = compile_all(&rules);
    RuleSet { rules, matchers, base }
}

impl RuleSet {
    /// A rule set with no rules: every path gets `NoMatch`.
    pub fn empty(base_directory: &Vec<char>) -> (s: RuleSet)
        ensures
            s.wf(),
            s.rules@.len() == 0,
            s.base_view() == path_segments(base_directory@),
    {
        RuleSet { rules: Vec::new(), matchers: Vec::new(), base: segments_of(base_directory).0 }
    }

    /// The rule set of an ignore file with contents `text`, named `origin`, whose paths
    /// are read relative to `base_directory`.
    pub fn new(base_directory: &Vec<char>, text: &Vec<char>, origin: &Vec<char>) -> (s: RuleSet)
        ensures
            s.wf(),
            s.rule_views() == parse_spec(text@),
            forall|i: int| 0 <= i < s.rules@.len() ==> (#[trigger] s.rules@[i]).origin_file@ == origin@,
            s.base_view() == path_segments(base_directory@),
    {
        let rules = parse(text, origin);
        let matchers = compile_all(&rules);
        RuleSet { rules, matchers, base: segments_of(base_directory).0 }
    }

    /// The rules of a global ignore file followed by those of a local one; the local
    /// rules, coming later, take precedence.
    pub fn layered(
        base_directory: &Vec<char>,
        global_text: &Vec<char>,
        global_origin: &Vec<char>,
        local_text: &Vec<char>,
        local_origin: &Vec<char>,
    ) -> (s: RuleSet)
        ensures
            s.wf(),
            s.rule_views() == parse_spec(global_text@) + parse_spec(local_text@),
            forall|i: int|
                0 <= i < parse_spec(global_text@).len() ==> (#[trigger] s.rules@[i]).origin_file@
                    == global_origin@,
            forall|i: int|
                parse_spec(global_text@).len() <= i < s.rules@.len() ==> (
                #[trigger] s.rules@[i]).origin_file@ == local_origin@,
            s.base_view() == path_segments(base_directory@),
    {
        let mut rules = parse(global_text, global_origin);
        let mut local = parse(local_text, local_origin);
        let ghost g = rules@;
        let ghost l = local@;
        rules.append(&mut local);
        assert(rule_views(rules@) =~= rule_views(g) + rule_views(l));
        assert(forall|i: int| g.len() <= i < rules@.len() ==> rules@[i] == l[i - g.len()]);
        let matchers = compile_all(&rules);
        RuleSet { rules, matchers, base: segments_of(base_directory).0 }
    }

    /// The number of rules.
    pub fn len(&self) -> (n: usize)
        ensures
            n == self.rules@.len(),
    {
        self.rules.len()
    }

    /// The rule at index `i`, as a verdict names it.
    pub fn rule(&self, i: usize) -> (r: &Rule)
        requires
            i < self.rules@.len(),
        ensures
            *r == self.rules@[i as int],
    {
        &self.rules[i]
    }

    /// The verdict for `path`: the last rule, in order, that fires on the path or on
    /// one of its ancestor directories decides; `NoMatch` when none fires or the path
    /// lies outside the base directory.
    pub fn matched(&self, path: &Vec<char>, is_dir: bool) -> (v: Verdict)
        requires
            self.wf(),
        ensures
            v == self.verdict(path@, is_dir),
    {
        let rel = match relative_to(&self.base, path) {
            Some(rel) => rel,
            None => {
                return Verdict::NoMatch;
            },
        };
        let n = self.matchers.len();
        let mut i: usize = n;
        while i > 0
            invariant
                self.wf(),
                relative_spec(self.base_view(), path@) == Some(views(rel@)),
                n == self.matchers@.len(),
                i <= n,
                last_hit(self.matchers@, n as int, views(rel@), is_dir) == last_hit(
                    self.matchers@,
                    i as int,
                    views(rel@),
                    is_dir,
                ),
            decreases i,
        {
            if hits_exec(&self.matchers[i - 1], &rel, is_dir) {
                if self.rules[i - 1].negated {
                    return Verdict::Whitelisted(i - 1);
                } else {
                    return Verdict::Ignored(i - 1);
                }
            }
            i = i - 1;
        }
        Verdict::NoMatch
    }
}

} // verus!
