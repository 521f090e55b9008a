use vstd::prelude::*;
use crate::matcher::{CompiledMatcher, PatSeg, compiled_from, seg_denotes, segs_at};
use crate::rule::parse_spec;
use crate::rule_set::{
    RuleSet, Verdict, climbs_above, fires_at, hits, last_hit, relative_spec, path_segments,
    is_absolute,
};

verus! {

/// Matching is a function of the rule set, the path and its directory flag: two
/// queries with the same path give the same verdict, however often they are repeated.
pub proof fn lemma_verdict_deterministic(s: RuleSet, p: Seq<char>, q: Seq<char>, is_dir: bool)
    requires
        p == q,
    ensures
        s.verdict(p, is_dir) == s.verdict(q, is_dir),
{
}

/// An absolute path that does not lie under the base directory matches no rule.
pub proof fn lemma_outside_base_no_match(s: RuleSet, path: Seq<char>, is_dir: bool)
    requires
        is_absolute(path),
        !(s.base_view().len() <= path_segments(path).len() && path_segments(path).take(
            s.base_view().len() as int,
        ) == s.base_view()),
    ensures
        s.verdict(path, is_dir) == Verdict::NoMatch,
{
}

proof fn lemma_no_matchers_no_hit(s: RuleSet, rel: Seq<Seq<char>>, is_dir: bool)
    requires
        s.matchers@.len() == 0,
    ensures
        last_hit(s.matchers@, 0, rel, is_dir) is None,
{
}

/// A rule set without rules, such as that of a missing file, matches nothing.
pub proof fn lemma_no_rules_no_match(s: RuleSet, path: Seq<char>, is_dir: bool)
    requires
        s.wf(),
        s.rules@.len() == 0,
    ensures
        s.verdict(path, is_dir) == Verdict::NoMatch,
{
    if let Some(rel) = relative_spec(s.base_view(), path) {
        lemma_no_matchers_no_hit(s, rel, is_dir);
    }
}

/// An empty ignore file holds no rules, so its rule set matches nothing.
pub proof fn lemma_empty_file_no_match(s: RuleSet, path: Seq<char>, is_dir: bool)
    requires
        s.wf(),
        s.rule_views() == parse_spec(Seq::empty()),
    ensures
        parse_spec(Seq::empty()).len() == 0,
        s.verdict(path, is_dir) == Verdict::NoMatch,
{
    let e = Seq::<char>::empty();
    let lines = crate::text::split_spec(e, '\n');
    assert(lines.len() == 1);
    assert(lines.drop_last().len() == 0);
    assert(lines.last().len() == 0);
    assert(crate::rule::trim_end(lines.last()) == lines.last());
    assert(crate::rule::line_rule(lines.last(), 1) is None);
    assert(crate::rule::rules_of(lines.drop_last()).len() == 0);
    assert(crate::rule::rules_of(lines).len() == 0);
    assert(s.rule_views().len() == s.rules@.len());
    lemma_no_rules_no_match(s, path, is_dir);
}

proof fn lemma_last_hit_is(s: RuleSet, n: int, i: int, rel: Seq<Seq<char>>, is_dir: bool)
    requires
        0 <= i < n <= s.matchers@.len(),
        hits(s.matchers@[i], rel, is_dir),
        forall|j: int| i < j < n ==> !#[trigger] hits(s.matchers@[j], rel, is_dir),
    ensures
        last_hit(s.matchers@, n, rel, is_dir) == Some(i),
    decreases n,
{
    if n - 1 > i {
        assert(!hits(s.matchers@[n - 1], rel, is_dir));
        lemma_last_hit_is(s, n - 1, i, rel, is_dir);
    }
}

/// The last rule in order that fires, on the path or on any of its ancestor
/// directories, decides: it ignores the path, or whitelists it when negated, whatever
/// earlier rules say.
pub proof fn lemma_last_firing_rule_decides(
    s: RuleSet,
    path: Seq<char>,
    is_dir: bool,
    rel: Seq<Seq<char>>,
    i: int,
)
    requires
        s.wf(),
        relative_spec(s.base_view(), path) == Some(rel),
        0 <= i < s.matchers@.len(),
        hits(s.matchers@[i], rel, is_dir),
        forall|j: int| i < j < s.matchers@.len() ==> !#[trigger] hits(s.matchers@[j], rel, is_dir),
    ensures
        s.verdict(path, is_dir) == (if s.rules@[i].negated {
            Verdict::Whitelisted(i as usize)
        } else {
            Verdict::Ignored(i as usize)
        }),
{
    lemma_last_hit_is(s, s.matchers@.len() as int, i, rel, is_dir);
}

/// A leading `**` lets the rest of a pattern match at any depth: whatever matches
/// `path[j..end]` is matched, behind it, by the whole pattern on `path[0..end]`.
pub proof fn lemma_any_depth_matches_deeper(ps: Seq<PatSeg>, path: Seq<Seq<char>>, j: int, end: int)
    requires
        ps.len() > 0,
        ps[0] is AnyDepth,
        0 <= j <= end,
        segs_at(ps, 1, path, j, end),
    ensures
        segs_at(ps, 0, path, 0, end),
{
    lemma_any_depth_from(ps, path, j, j, end);
}

proof fn lemma_any_depth_from(ps: Seq<PatSeg>, path: Seq<Seq<char>>, k: int, j: int, end: int)
    requires
        ps.len() > 0,
        ps[0] is AnyDepth,
        0 <= k <= j <= end,
        segs_at(ps, 1, path, j, end),
    ensures
        segs_at(ps, 0, path, j - k, end),
    decreases k,
{
    if k > 0 {
        lemma_any_depth_from(ps, path, k - 1, j, end);
    }
}

/// A pattern without `**` aligns segment by segment: it matches `path[j..end]` only
/// when that part has exactly as many segments as the pattern from `i` on, so an anchored
/// pattern such as `/build` matches only at the top.
pub proof fn lemma_plain_pattern_aligns(ps: Seq<PatSeg>, i: int, path: Seq<Seq<char>>, j: int, end: int)
    requires
        0 <= i <= ps.len(),
        forall|q: int| 0 <= q < ps.len() ==> (#[trigger] ps[q]) is Glob,
        segs_at(ps, i, path, j, end),
    ensures
        end - j == ps.len() - i,
    decreases ps.len() - i,
{
    if i < ps.len() {
        assert(ps[i] is Glob);
        lemma_plain_pattern_aligns(ps, i + 1, path, j + 1, end);
    }
}

/// A relative path whose `..` climbs above the base directory matches no rule.
pub proof fn lemma_climbing_path_no_match(s: RuleSet, path: Seq<char>, is_dir: bool)
    requires
        !is_absolute(path),
        climbs_above(path),
    ensures
        s.verdict(path, is_dir) == Verdict::NoMatch,
{
}

/// Two compiled segments that match the same path segments.
pub open spec fn seg_equiv(a: PatSeg, b: PatSeg) -> bool {
    match (a, b) {
        (PatSeg::AnyDepth, PatSeg::AnyDepth) => true,
        (PatSeg::Glob(g), PatSeg::Glob(h)) => g@ == h@,
        _ => false,
    }
}

proof fn lemma_segs_equiv(
    ps: Seq<PatSeg>,
    qs: Seq<PatSeg>,
    i: int,
    path: Seq<Seq<char>>,
    j: int,
    end: int,
)
    requires
        ps.len() == qs.len(),
        forall|k: int| 0 <= k < ps.len() ==> seg_equiv(#[trigger] ps[k], qs[k]),
    ensures
        segs_at(ps, i, path, j, end) == segs_at(qs, i, path, j, end),
    decreases ps.len() - i + end - j,
{
    if 0 <= i < ps.len() && 0 <= j <= end {
        assert(seg_equiv(ps[i], qs[i]));
        lemma_segs_equiv(ps, qs, i + 1, path, j, end);
        if j < end {
            lemma_segs_equiv(ps, qs, i + 1, path, j + 1, end);
            lemma_segs_equiv(ps, qs, i, path, j + 1, end);
        }
    }
}

proof fn lemma_compiled_same_hits(
    m: CompiledMatcher,
    n: CompiledMatcher,
    pattern: Seq<char>,
    anchored: bool,
    directory_only: bool,
    rel: Seq<Seq<char>>,
    is_dir: bool,
)
    requires
        compiled_from(m, pattern, anchored, directory_only),
        compiled_from(n, pattern, anchored, directory_only),
    ensures
        hits(m, rel, is_dir) == hits(n, rel, is_dir),
{
    let o: int = if anchored {
        0
    } else {
        1
    };
    let pieces = crate::text::split_spec(pattern, '/');
    assert forall|k: int| 0 <= k < m.segments@.len() implies seg_equiv(
        #[trigger] m.segments@[k],
        n.segments@[k],
    ) by {
        if k >= o {
            let q = k - o;
            assert(compiled_from(m, pattern, anchored, directory_only));
            assert(seg_denotes(m.segments@[o + q], pieces[q]));
            assert(seg_denotes(n.segments@[o + q], pieces[q]));
        }
    }
    assert forall|k: int| 1 <= k <= rel.len() implies #[trigger] fires_at(m, rel, k, is_dir)
        == fires_at(n, rel, k, is_dir) by {
        lemma_segs_equiv(m.segments@, n.segments@, 0, rel, 0, k);
    }
    if hits(m, rel, is_dir) {
        let k = choose|k: int| 1 <= k <= rel.len() && #[trigger] fires_at(m, rel, k, is_dir);
        assert(fires_at(n, rel, k, is_dir));
    }
    if hits(n, rel, is_dir) {
        let k = choose|k: int| 1 <= k <= rel.len() && #[trigger] fires_at(n, rel, k, is_dir);
        assert(fires_at(m, rel, k, is_dir));
    }
}

proof fn lemma_same_last_hit(s: RuleSet, t: RuleSet, n: int, rel: Seq<Seq<char>>, is_dir: bool)
    requires
        s.wf(),
        t.wf(),
        s.rule_views() == t.rule_views(),
        n <= s.matchers@.len(),
    ensures
        last_hit(s.matchers@, n, rel, is_dir) == last_hit(t.matchers@, n, rel, is_dir),
    decreases n,
{
    assert(s.rules@.len() == s.rule_views().len());
    assert(t.rules@.len() == t.rule_views().len());
    if n > 0 {
        let i = n - 1;
        assert(s.rule_views()[i] == s.rules@[i]@);
        assert(t.rule_views()[i] == t.rules@[i]@);
        assert(compiled_from(
            s.matchers@[i],
            s.rules@[i].pattern@,
            s.rules@[i].anchored,
            s.rules@[i].directory_only,
        ));
        assert(compiled_from(
            t.matchers@[i],
            t.rules@[i].pattern@,
            t.rules@[i].anchored,
            t.rules@[i].directory_only,
        ));
        lemma_compiled_same_hits(
            s.matchers@[i],
            t.matchers@[i],
            s.rules@[i].pattern@,
            s.rules@[i].anchored,
            s.rules@[i].directory_only,
            rel,
            is_dir,
        );
        lemma_same_last_hit(s, t, n - 1, rel, is_dir);
    }
}

/// Rule sets built from the same inputs (the same rules over the same base directory,
/// as every constructor states) give the same verdict for every path: building again
/// and querying again changes nothing.
pub proof fn lemma_same_inputs_same_verdict(s: RuleSet, t: RuleSet, path: Seq<char>, is_dir: bool)
    requires
        s.wf(),
        t.wf(),
        s.rule_views() == t.rule_views(),
        s.base_view() == t.base_view(),
    ensures
        s.verdict(path, is_dir) == t.verdict(path, is_dir),
{
    assert(s.rules@.len() == s.rule_views().len());
    assert(t.rules@.len() == t.rule_views().len());
    if let Some(rel) = relative_spec(s.base_view(), path) {
        lemma_same_last_hit(s, t, s.matchers@.len() as int, rel, is_dir);
        if let Some(i) = last_hit(s.matchers@, s.matchers@.len() as int, rel, is_dir) {
            lemma_last_hit_in_range(s, s.matchers@.len() as int, rel, is_dir);
            assert(s.rule_views()[i] == s.rules@[i]@);
            assert(t.rule_views()[i] == t.rules@[i]@);
        }
    }
}

proof fn lemma_last_hit_in_range(s: RuleSet, n: int, rel: Seq<Seq<char>>, is_dir: bool)
    ensures
        match last_hit(s.matchers@, n, rel, is_dir) {
            Some(i) => 0 <= i < n,
            None => true,
        },
    decreases n,
{
    if n > 0 {
        lemma_last_hit_in_range(s, n - 1, rel, is_dir);
    }
}

} // verus!
