use check_ignore::glob::glob_matches;
use check_ignore::matcher::{compile, PatSeg};
use check_ignore::rule::{parse, parse_line};
use check_ignore::rule_set::{segments_of, RuleSet, Verdict};

fn chars(s: &str) -> Vec<char> {
    s.chars().collect()
}

fn set(lines: &[&str]) -> RuleSet {
    RuleSet::new(&chars("/repo"), &chars(&lines.join("\n")), &chars(".gitignore"))
}

fn verdict(s: &RuleSet, path: &str, is_dir: bool) -> Verdict {
    s.matched(&chars(path), is_dir)
}

#[test]
fn repeated_queries_agree() {
    let s = set(&["*.log", "!keep.log", "target/"]);
    for (p, d) in [("a.log", false), ("keep.log", false), ("target/x", false), ("src", true)] {
        let first = verdict(&s, p, d);
        assert_eq!(first, verdict(&s, p, d));
        assert_eq!(first, verdict(&s, p, d));
    }
}

#[test]
fn negation_round_trip() {
    let s = set(&["build/", "!build/keep.txt"]);
    assert_eq!(verdict(&s, "build/keep.txt", false), Verdict::Whitelisted(1));
    assert_eq!(verdict(&s, "build/other.txt", false), Verdict::Ignored(0));
    assert_eq!(verdict(&s, "build", true), Verdict::Ignored(0));
}

#[test]
fn order_sensitivity() {
    let s = set(&["*.log", "!important.log"]);
    assert_eq!(verdict(&s, "important.log", false), Verdict::Whitelisted(1));
    let r = set(&["!important.log", "*.log"]);
    assert_eq!(verdict(&r, "important.log", false), Verdict::Ignored(1));
}

#[test]
fn directory_propagation() {
    let s = set(&["node_modules/"]);
    assert_eq!(verdict(&s, "node_modules/pkg/index.js", false), Verdict::Ignored(0));
    assert_eq!(verdict(&s, "node_modules", false), Verdict::NoMatch);
    assert_eq!(verdict(&s, "node_modules", true), Verdict::Ignored(0));
}

#[test]
fn excluded_directory_hides_earlier_whitelist() {
    let s = set(&["!keep.txt", "build/"]);
    assert_eq!(verdict(&s, "build/keep.txt", false), Verdict::Ignored(1));
    assert_eq!(verdict(&s, "keep.txt", false), Verdict::Whitelisted(0));
}

#[test]
fn anchoring() {
    let s = set(&["/build"]);
    assert_eq!(verdict(&s, "build", true), Verdict::Ignored(0));
    assert_eq!(verdict(&s, "src/build", true), Verdict::NoMatch);
    let u = set(&["build"]);
    assert_eq!(verdict(&u, "build", true), Verdict::Ignored(0));
    assert_eq!(verdict(&u, "src/build", true), Verdict::Ignored(0));
    let e = set(&["doc/*.md"]);
    assert_eq!(verdict(&e, "doc/a.md", false), Verdict::Ignored(0));
    assert_eq!(verdict(&e, "x/doc/a.md", false), Verdict::NoMatch);
}

#[test]
fn double_star() {
    let s = set(&["**/foo"]);
    assert_eq!(verdict(&s, "foo", false), Verdict::Ignored(0));
    assert_eq!(verdict(&s, "a/foo", false), Verdict::Ignored(0));
    assert_eq!(verdict(&s, "a/b/foo", false), Verdict::Ignored(0));
    let m = set(&["a/**/b"]);
    assert_eq!(verdict(&m, "a/b", false), Verdict::Ignored(0));
    assert_eq!(verdict(&m, "a/x/b", false), Verdict::Ignored(0));
    assert_eq!(verdict(&m, "a/x/y/b", false), Verdict::Ignored(0));
    assert_eq!(verdict(&m, "c/a/b", false), Verdict::NoMatch);
    let t = set(&["logs/**"]);
    assert_eq!(verdict(&t, "logs/a/b.txt", false), Verdict::Ignored(0));
}

#[test]
fn unrelated_path() {
    let s = set(&["*.log"]);
    assert_eq!(verdict(&s, "/elsewhere/x.log", false), Verdict::NoMatch);
    assert_eq!(verdict(&s, "/repository/x.log", false), Verdict::NoMatch);
    assert_eq!(verdict(&s, "/repo/x.log", false), Verdict::Ignored(0));
    assert_eq!(verdict(&s, "/repo", true), Verdict::NoMatch);
    assert_eq!(verdict(&s, "../x.log", false), Verdict::NoMatch);
}

#[test]
fn empty_pattern_file() {
    let s = set(&[]);
    assert_eq!(s.len(), 0);
    assert_eq!(verdict(&s, "a", false), Verdict::NoMatch);
    assert_eq!(verdict(&s, "a/b", true), Verdict::NoMatch);
    let e = RuleSet::empty(&chars("/repo"));
    assert_eq!(e.len(), 0);
    assert_eq!(verdict(&e, "/repo/a", false), Verdict::NoMatch);
}

#[test]
fn comments_and_blank_lines() {
    let s = set(&["# a comment", "", "   ", "*.o"]);
    assert_eq!(s.len(), 1);
    assert_eq!(s.rule(0).line_number, 4);
    assert_eq!(s.rule(0).original, chars("*.o"));
    assert_eq!(s.rule(0).origin_file, chars(".gitignore"));
    assert_eq!(verdict(&s, "x.o", false), Verdict::Ignored(0));
}

#[test]
fn escapes() {
    let s = set(&["\\#hash", "\\!bang", "foo   ", "bar\\ "]);
    assert_eq!(s.len(), 4);
    assert!(!s.rule(1).negated);
    assert_eq!(s.rule(0).pattern, chars("#hash"));
    assert_eq!(s.rule(1).pattern, chars("!bang"));
    assert_eq!(s.rule(2).pattern, chars("foo"));
    assert_eq!(s.rule(3).pattern, chars("bar "));
    assert_eq!(verdict(&s, "#hash", false), Verdict::Ignored(0));
    assert_eq!(verdict(&s, "!bang", false), Verdict::Ignored(1));
    assert_eq!(verdict(&s, "foo", false), Verdict::Ignored(2));
    assert_eq!(verdict(&s, "bar ", false), Verdict::Ignored(3));
    assert_eq!(verdict(&s, "bar", false), Verdict::NoMatch);
}

#[test]
fn parse_markers() {
    let r = parse_line(&chars("!/foo/bar/"), 7, &chars("f")).unwrap();
    assert!(r.negated);
    assert!(r.anchored);
    assert!(r.directory_only);
    assert_eq!(r.pattern, chars("foo/bar"));
    assert_eq!(r.original, chars("!/foo/bar/"));
    assert_eq!(r.line_number, 7);
    let u = parse_line(&chars("*.txt"), 1, &chars("f")).unwrap();
    assert!(!u.negated && !u.anchored && !u.directory_only);
    assert!(parse_line(&chars("!"), 1, &chars("f")).is_none());
    assert!(parse_line(&chars("/"), 1, &chars("f")).is_none());
    assert!(parse_line(&chars("# x"), 1, &chars("f")).is_none());
    let rules = parse(&chars("a\r\n\nb/\n"), &chars("f"));
    assert_eq!(rules.len(), 2);
    assert_eq!(rules[0].pattern, chars("a"));
    assert_eq!(rules[1].line_number, 3);
    assert!(rules[1].directory_only);
}

#[test]
fn single_segment_wildcards() {
    assert!(glob_matches(&chars("*.txt"), &chars("a.txt")));
    assert!(glob_matches(&chars("*.txt"), &chars(".txt")));
    assert!(!glob_matches(&chars("*.txt"), &chars("a.txt.bak")));
    assert!(glob_matches(&chars("?.md"), &chars("a.md")));
    assert!(!glob_matches(&chars("?.md"), &chars("ab.md")));
    assert!(glob_matches(&chars("a*b*c"), &chars("axxbyyc")));
    assert!(!glob_matches(&chars("a*b*c"), &chars("axxbyy")));
    let s = set(&["a/*.txt"]);
    assert_eq!(verdict(&s, "a/b/c.txt", false), Verdict::NoMatch);
}

#[test]
fn character_classes() {
    assert!(glob_matches(&chars("[a-c].txt"), &chars("b.txt")));
    assert!(!glob_matches(&chars("[a-c].txt"), &chars("d.txt")));
    assert!(glob_matches(&chars("[!a-c].txt"), &chars("d.txt")));
    assert!(!glob_matches(&chars("[!a-c].txt"), &chars("a.txt")));
    assert!(glob_matches(&chars("[]x]"), &chars("]")));
    assert!(glob_matches(&chars("[xyz]"), &chars("y")));
    assert!(glob_matches(&chars("[abc"), &chars("[abc")));
    assert!(!glob_matches(&chars("[abc"), &chars("a")));
}

#[test]
fn traversal_never_matches() {
    let s = set(&["../x", "a/../b"]);
    assert_eq!(verdict(&s, "x", false), Verdict::NoMatch);
    assert_eq!(verdict(&s, "b", false), Verdict::NoMatch);
    let m = compile(&chars("a/../b"), true, false);
    assert!(m.traversal);
}

#[test]
fn compile_segments() {
    let m = compile(&chars("a/**/b"), true, true);
    assert_eq!(m.segments.len(), 3);
    assert!(matches!(m.segments[1], PatSeg::AnyDepth));
    assert!(m.directory_only);
    let u = compile(&chars("x"), false, false);
    assert_eq!(u.segments.len(), 2);
    assert!(matches!(u.segments[0], PatSeg::AnyDepth));
    assert!(matches!(&u.segments[1], PatSeg::Glob(g) if *g == chars("x")));
}

#[test]
fn path_normalisation() {
    let s = set(&["*.log"]);
    assert_eq!(verdict(&s, "./a.log", false), Verdict::Ignored(0));
    assert_eq!(verdict(&s, "/repo//sub/./a.log", false), Verdict::Ignored(0));
    let (segs, up) = segments_of(&chars("/a//b/./c/"));
    assert_eq!(segs, vec![chars("a"), chars("b"), chars("c")]);
    assert!(!up);
    let (segs, up) = segments_of(&chars("a/../../b"));
    assert_eq!(segs, vec![chars("b")]);
    assert!(up);
}

#[test]
fn parent_segments_are_resolved() {
    let s = set(&["*.log", "/top"]);
    assert_eq!(verdict(&s, "/repo/x/../a.log", false), Verdict::Ignored(0));
    assert_eq!(verdict(&s, "x/../a.log", false), Verdict::Ignored(0));
    assert_eq!(verdict(&s, "x/y/../../top", false), Verdict::Ignored(1));
    assert_eq!(verdict(&s, "sub/../../a.log", false), Verdict::NoMatch);
    assert_eq!(verdict(&s, "/repo/../a.log", false), Verdict::NoMatch);
    assert_eq!(verdict(&s, "/repo/../repo/a.log", false), Verdict::Ignored(0));
    assert_eq!(verdict(&s, "/../repo/a.log", false), Verdict::Ignored(0));
}

#[test]
fn global_rules_come_first() {
    let s = RuleSet::layered(
        &chars("/repo"),
        &chars("*.log\n!keep.tmp"),
        &chars("global"),
        &chars("!keep.log\n*.tmp"),
        &chars(".gitignore"),
    );
    assert_eq!(s.len(), 4);
    assert_eq!(verdict(&s, "keep.log", false), Verdict::Whitelisted(2));
    assert_eq!(verdict(&s, "other.log", false), Verdict::Ignored(0));
    assert_eq!(verdict(&s, "keep.tmp", false), Verdict::Ignored(3));
    assert_eq!(s.rule(0).origin_file, chars("global"));
    assert_eq!(s.rule(2).origin_file, chars(".gitignore"));
}
