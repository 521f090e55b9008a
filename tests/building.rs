use check_ignore::report::{exit_status, is_reported, report_line};
use check_ignore::rule_set::{new_gitignore_with_root, Verdict};

fn chars(s: &str) -> Vec<char> {
    s.chars().collect()
}

#[test]
fn base_is_the_ignore_files_directory() {
    let text = chars("/build\n*.log");
    let s = new_gitignore_with_root(&chars("/home/u/proj/.gitignore"), None, Some(&text));
    assert_eq!(s.base, vec![chars("home"), chars("u"), chars("proj")]);
    assert_eq!(s.matched(&chars("/home/u/proj/build"), true), Verdict::Ignored(0));
    assert_eq!(s.matched(&chars("/home/u/proj/src/build"), true), Verdict::NoMatch);
    assert_eq!(s.matched(&chars("/home/u/other/a.log"), false), Verdict::NoMatch);
    assert_eq!(s.rule(1).origin_file, chars("/home/u/proj/.gitignore"));
}

#[test]
fn parsed_rules_of_a_file() {
    let f = chars("/p/.gitignore");
    let text = chars("# c\n\n!/build/\nsrc/*.o\n\\#x");
    let s = new_gitignore_with_root(&f, None, Some(&text));
    assert_eq!(s.len(), 3);
    let a = s.rule(0);
    assert_eq!(a.pattern, chars("build"));
    assert!(a.negated && a.anchored && a.directory_only);
    assert_eq!(a.line_number, 3);
    assert_eq!(a.origin_file, f);
    let b = s.rule(1);
    assert_eq!(b.pattern, chars("src/*.o"));
    assert!(!b.negated && b.anchored && !b.directory_only);
    assert_eq!(b.line_number, 4);
    let c = s.rule(2);
    assert_eq!(c.pattern, chars("#x"));
    assert!(!c.negated && !c.anchored && !c.directory_only);
    assert_eq!(c.line_number, 5);
    assert_eq!(c.original, chars("\\#x"));
    assert_eq!(s.matched(&chars("/p/#x"), false), Verdict::Ignored(2));
}

#[test]
fn building_twice_gives_the_same_verdicts() {
    let f = chars("/p/.gitignore");
    let text = chars("*.log\n!keep.log\nout/");
    let r1 = new_gitignore_with_root(&f, None, Some(&text));
    let r2 = new_gitignore_with_root(&f, None, Some(&text));
    for (p, d) in [("/p/a.log", false), ("/p/keep.log", false), ("/p/out/x", false), ("/q/a.log", false)] {
        let v = r1.matched(&chars(p), d);
        assert_eq!(v, r1.matched(&chars(p), d));
        assert_eq!(v, r2.matched(&chars(p), d));
    }
}

#[test]
fn explicit_root_overrides_directory() {
    let text = chars("/build");
    let root = chars("/srv/site");
    let s = new_gitignore_with_root(&chars("/etc/ignores/site"), Some(&root), Some(&text));
    assert_eq!(s.matched(&chars("/srv/site/build"), true), Verdict::Ignored(0));
    assert_eq!(s.matched(&chars("/etc/ignores/build"), true), Verdict::NoMatch);
}

#[test]
fn unreadable_file_gives_empty_set() {
    let s = new_gitignore_with_root(&chars("/nowhere/.gitignore"), None, None);
    assert_eq!(s.len(), 0);
    assert_eq!(s.matched(&chars("/nowhere/a"), false), Verdict::NoMatch);
}

#[test]
fn reporting_policy() {
    assert!(is_reported(Verdict::Ignored(0), false));
    assert!(!is_reported(Verdict::Whitelisted(0), false));
    assert!(is_reported(Verdict::Whitelisted(0), true));
    assert!(!is_reported(Verdict::NoMatch, true));
}

#[test]
fn exit_status_reduces_verdicts() {
    assert_eq!(exit_status(&vec![]), 1);
    assert_eq!(exit_status(&vec![Verdict::NoMatch, Verdict::NoMatch]), 1);
    assert_eq!(exit_status(&vec![Verdict::NoMatch, Verdict::Whitelisted(2)]), 0);
    assert_eq!(exit_status(&vec![Verdict::Ignored(0)]), 0);
}

#[test]
fn report_line_format() {
    assert_eq!(report_line(&chars("*.log"), &chars("a.log")), chars("*.log => a.log"));
    assert_eq!(report_line(&chars(""), &chars("")), chars(" => "));
}
