use vstd::prelude::*;
use crate::text::{split_spec, split_on, views, copy_chars};

verus! {

/// One pattern line of an ignore file.
pub struct Rule {
    /// The line as written, trailing whitespace removed.
    pub original: Vec<char>,
    /// The glob text, without the `!`, leading `/` and trailing `/` markers. A leading
    /// `\#` or `\!` and a trailing `\ ` are unescaped to their literal character; the
    /// glob reads any other `\x` as the character `x`.
    pub pattern: Vec<char>,
    pub negated: bool,
    pub directory_only: bool,
    pub anchored: bool,
    /// 1-based line number within its file.
    pub line_number: usize,
    pub origin_file: Vec<char>,
}

/// What a rule says, as mathematical values.
pub struct RuleView {
    pub original: Seq<char>,
    pub pattern: Seq<char>,
    pub negated: bool,
    pub directory_only: bool,
    pub anchored: bool,
    pub line_number: nat,
}

impl View for Rule {
    type V = RuleView;

    open spec fn view(&self) -> RuleView {
        RuleView {
            original: self.original@,
            pattern: self.pattern@,
            negated: self.negated,
            directory_only: self.directory_only,
            anchored: self.anchored,
            line_number: self.line_number as nat,
        }
    }
}

pub open spec fn is_blank(c: char) -> bool {
    c == ' ' || c == '\t' || c == '\r'
}

/// Whether the last character of `s` is trailing whitespace that is dropped: blank and
/// not escaped by a backslash.
pub open spec fn ends_in_loose_blank(s: Seq<char>) -> bool {
    s.len() > 0 && is_blank(s.last()) && !(s.len() >= 2 && s[s.len() - 2] == '\\')
}

/// `s` without its trailing whitespace; an escaped blank is kept.
pub open spec fn trim_end(s: Seq<char>) -> Seq<char>
    decreases s.len(),
{
    if ends_in_loose_blank(s) {
        trim_end(s.drop_last())
    } else {
        s
    }
}

/// The line starts with `\#` or `\!`: a literal `#` or `!`, not a comment or negation.
pub open spec fn escaped_marker(t: Seq<char>) -> bool {
    t.len() >= 2 && t[0] == '\\' && (t[1] == '#' || t[1] == '!')
}

/// `p` with a trailing escaped space `\ ` turned into a plain space.
pub open spec fn unescape_trailing_space(p: Seq<char>) -> Seq<char> {
    if p.len() >= 2 && p.last() == ' ' && p[p.len() - 2] == '\\' {
        p.take(p.len() - 2).push(' ')
    } else {
        p
    }
}

/// The rule that line number `n`, with text `line`, holds; `None` for a blank line, a
/// comment, or a line with no pattern left once its markers are taken off.
pub open spec fn line_rule(line: Seq<char>, n: nat) -> Option<RuleView> {
    let t = trim_end(line);
    if t.len() == 0 || t[0] == '#' {
        None
    } else {
        let a: int = if t[0] == '!' || escaped_marker(t) {
            1
        } else {
            0
        };
        let lead = a < t.len() && t[a] == '/';
        let b: int = if lead {
            a + 1
        } else {
            a
        };
        let dir = b < t.len() && t.last() == '/' && !(t.len() - b >= 2 && t[t.len() - 2] == '\\');
        let e: int = if dir {
            t.len() - 1
        } else {
            t.len() as int
        };
        let pat = unescape_trailing_space(t.subrange(b, e));
        if pat.len() == 0 {
            None
        } else {
            Some(
                RuleView {
                    original: t,
                    pattern: pat,
                    negated: t[0] == '!',
                    directory_only: dir,
                    anchored: lead || pat.contains('/'),
                    line_number: n,
                },
            )
        }
    }
}

/// The rules of `lines`, in file order.
pub open spec fn rules_of(lines: Seq<Seq<char>>) -> Seq<RuleView>
    decreases lines.len(),
{
    if lines.len() == 0 {
        Seq::empty()
    } else {
        let prev = rules_of(lines.drop_last());
        match line_rule(lines.last(), lines.len()) {
            Some(r) => prev.push(r),
            None => prev,
        }
    }
}

/// The rules of an ignore file with contents `text`.
pub open spec fn parse_spec(text: Seq<char>) -> Seq<RuleView> {
    rules_of(split_spec(text, '\n'))
}

pub open spec fn rule_views(rules: Seq<Rule>) -> Seq<RuleView> {
    rules.map_values(|r: Rule| r@)
}

fn copy_range(v: &Vec<char>, lo: usize, hi: usize) -> (r: Vec<char>)
    requires
        lo <= hi <= v.len(),
    ensures
        r@ == v@.subrange(lo as int, hi as int),
{
    let mut r: Vec<char> = Vec::new();
    let mut i: usize = lo;
    while i < hi
        invariant
            lo <= i <= hi <= v.len(),
            r@ == v@.subrange(lo as int, i as int),
        decreases hi - i,
    {
        r.push(v[i]);
        i = i + 1;
        assert(r@ =~= v@.subrange(lo as int, i as int));
    }
    r
}

fn has_slash(v: &Vec<char>) -> (r: bool)
    ensures
        r == v@.contains('/'),
{
    let mut i: usize = 0;
    while i < v.len()
        invariant
            i <= v.len(),
            forall|q: int| 0 <= q < i ==> v@[q] != '/',
        decreases v.len() - i,
    {
        if v[i] == '/' {
            assert(v@[i as int] == '/');
            return true;
        }
        i = i + 1;
    }
    false
}

/// Parses one line, numbered `n`, of a file named `origin`.
pub fn parse_line(line: &Vec<char>, n: usize, origin: &Vec<char>) -> (r: Option<Rule>)
    ensures
        match r {
            Some(rule) => line_rule(line@, n as nat) == Some(rule@) && rule.origin_file@ == origin@,
            None => line_rule(line@, n as nat) is None,
        },
{
    let mut hi: usize = line.len();
    assert(line@.take(line.len() as int) =~= line@);
    while hi > 0 && is_blank_exec(line[hi - 1]) && !(hi >= 2 && line[hi - 2] == '\\')
        invariant
            hi <= line.len(),
            trim_end(line@.take(hi as int)) == trim_end(line@),
        decreases hi,
    {
        assert(line@.take(hi as int).drop_last() =~= line@.take(hi as int - 1));
        hi = hi - 1;
    }
    assert(!ends_in_loose_blank(line@.take(hi as int)));
    let t = copy_range(line, 0, hi);
    assert(t@ == trim_end(line@));
    if t.len() == 0 || t[0] == '#' {
        return None;
    }
    let negated = t[0] == '!';
    let escaped = t.len() >= 2 && t[0] == '\\' && (t[1] == '#' || t[1] == '!');
    let a: usize = if negated || escaped {
        1
    } else {
        0
    };
    let lead = a < t.len() && t[a] == '/';
    let b: usize = if lead {
        a + 1
    } else {
        a
    };
    let len = t.len();
    let dir = b < len && t[len - 1] == '/' && !(len - b >= 2 && t[len - 2] == '\\');
    let e: usize = if dir {
        len - 1
    } else {
        len
    };
    let mut pattern = copy_range(&t, b, e);
    let plen = pattern.len();
    if plen >= 2 && pattern[plen - 1] == ' ' && pattern[plen - 2] == '\\' {
        let ghost raw = pattern@;
        pattern.pop();
        pattern.pop();
        pattern.push(' ');
        assert(pattern@ =~= raw.take(raw.len() - 2).push(' '));
    }
    if pattern.len() == 0 {
        return None;
    }
    let anchored = lead || has_slash(&pattern);
    Some(
        Rule {
            original: t,
            pattern,
            negated,
            directory_only: dir,
            anchored,
            line_number: n,
            origin_file: copy_chars(origin),
        },
    )
}

fn is_blank_exec(c: char) -> (r: bool)
    ensures
        r == is_blank(c),
{
    c == ' ' || c == '\t' || c == '\r'
}

/// The rules of an ignore file with contents `text`, named `origin`, in file order.
pub fn parse(text: &Vec<char>, origin: &Vec<char>) -> (r: Vec<Rule>)
    ensures
        rule_views(r@) == parse_spec(text@),
        forall|i: int| 0 <= i < r@.len() ==> (#[trigger] r@[i]).origin_file@ == origin@,
{
    let lines = split_on(text, '\n');
    let ghost lv = split_spec(text@, '\n');
    let mut rules: Vec<Rule> = Vec::new();
    let mut i: usize = 0;
    while i < lines.len()
        invariant
            views(lines@) == lv,
            i <= lines.len(),
            rule_views(rules@) == rules_of(lv.take(i as int)),
            forall|q: int| 0 <= q < rules@.len() ==> (#[trigger] rules@[q]).origin_file@ == origin@,
        decreases lines.len() - i,
    {
        assert(lv.take(i as int + 1).drop_last() =~= lv.take(i as int));
        assert(lv.take(i as int + 1).last() == lines@[i as int]@);
        let ghost before = rules@;
        match parse_line(&lines[i], i + 1, origin) {
            Some(rule) => {
                rules.push(rule);
                assert(rule_views(rules@) =~= rule_views(before).push(rule@));
            },
            None => {},
        }
        i = i + 1;
    }
    assert(lv.take(lines.len() as int) =~= lv);
    rules
}

} // verus!
