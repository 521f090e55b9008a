use vstd::prelude::*;

verus! {

/// `!` or `^` right after `[` negates a character class.
pub open spec fn is_class_negation(c: char) -> bool {
    c == '!' || c == '^'
}

/// Index of the first `]` at or after `k`, or `p.len()` when there is none.
pub open spec fn find_close(p: Seq<char>, k: int) -> int
    decreases p.len() - k,
{
    if k >= p.len() {
        p.len() as int
    } else if p[k] == ']' {
        k
    } else {
        find_close(p, k + 1)
    }
}

/// Whether the class opened by `[` at `i` is negated.
pub open spec fn class_negated(p: Seq<char>, i: int) -> bool {
    i + 1 < p.len() && is_class_negation(p[i + 1])
}

/// First index of the class body that starts at `i`.
pub open spec fn class_body(p: Seq<char>, i: int) -> int {
    if class_negated(p, i) {
        i + 2
    } else {
        i + 1
    }
}

/// Index of the `]` closing the class that starts at `i`; a `]` right at the start of
/// the body is a member, not the end. `p.len()` when the class is never closed.
pub open spec fn class_close(p: Seq<char>, i: int) -> int {
    let b = class_body(p, i);
    if b < p.len() {
        find_close(p, b + 1)
    } else {
        p.len() as int
    }
}

/// Whether the class body `p[q..k]` (single characters and ranges `a-z`) holds `c`.
pub open spec fn class_has(p: Seq<char>, q: int, k: int, c: char) -> bool
    decreases k - q,
{
    if q >= k {
        false
    } else if q + 2 < k && p[q + 1] == '-' {
        (p[q] <= c && c <= p[q + 2]) || class_has(p, q + 3, k, c)
    } else {
        p[q] == c || class_has(p, q + 1, k, c)
    }
}

/// Whether the glob `p[i..]` matches the whole of `s[j..]`, within one path segment:
/// `*` takes any run of characters, `?` one character, `[...]` one character of a class,
/// `\x` the character `x`; an unclosed `[` and every other character stand for themselves.
pub open spec fn glob_at(p: Seq<char>, i: int, s: Seq<char>, j: int) -> bool
    decreases p.len() - i + s.len() - j,
    via glob_at_decreases
{
    if i < 0 || j < 0 || j > s.len() {
        false
    } else if i >= p.len() {
        j == s.len()
    } else if p[i] == '*' {
        glob_at(p, i + 1, s, j) || (j < s.len() && glob_at(p, i, s, j + 1))
    } else if j >= s.len() {
        false
    } else if p[i] == '?' {
        glob_at(p, i + 1, s, j + 1)
    } else if p[i] == '\\' && i + 1 < p.len() {
        s[j] == p[i + 1] && glob_at(p, i + 2, s, j + 1)
    } else if p[i] == '[' && class_close(p, i) < p.len() {
        let k = class_close(p, i);
        (class_negated(p, i) != class_has(p, class_body(p, i), k, s[j])) && glob_at(
            p,
            k + 1,
            s,
            j + 1,
        )
    } else {
        s[j] == p[i] && glob_at(p, i + 1, s, j + 1)
    }
}

proof fn lemma_find_close_bounds(p: Seq<char>, k: int)
    requires
        0 <= k,
    ensures
        k <= find_close(p, k) || find_close(p, k) == p.len(),
        find_close(p, k) <= p.len() || k > p.len(),
    decreases p.len() - k,
{
    if k < p.len() && p[k] != ']' {
        lemma_find_close_bounds(p, k + 1);
    }
}

#[via_fn]
proof fn glob_at_decreases(p: Seq<char>, i: int, s: Seq<char>, j: int) {
    if 0 <= i < p.len() && p[i] == '[' {
        let b = class_body(p, i);
        if b < p.len() {
            lemma_find_close_bounds(p, b + 1);
        }
    }
}

/// Whether the glob `p` matches the segment `s` as a whole.
pub open spec fn glob_match(p: Seq<char>, s: Seq<char>) -> bool {
    glob_at(p, 0, s, 0)
}

fn find_close_exec(p: &Vec<char>, k: usize) -> (r: usize)
    requires
        k <= p.len(),
    ensures
        r == find_close(p@, k as int),
        k <= r <= p.len(),
    decreases p.len() - k,
{
    if k >= p.len() {
        p.len()
    } else if p[k] == ']' {
        k
    } else {
        find_close_exec(p, k + 1)
    }
}

fn class_close_exec(p: &Vec<char>, i: usize) -> (r: usize)
    requires
        i < p.len(),
    ensures
        r == class_close(p@, i as int),
        i < r <= p.len(),
{
    let b: usize = if i + 1 < p.len() && (p[i + 1] == '!' || p[i + 1] == '^') {
        i + 2
    } else {
        i + 1
    };
    if b < p.len() {
        find_close_exec(p, b + 1)
    } else {
        p.len()
    }
}

fn class_has_exec(p: &Vec<char>, q: usize, k: usize, c: char) -> (r: bool)
    requires
        q <= k <= p.len(),
    ensures
        r == class_has(p@, q as int, k as int, c),
    decreases k - q,
{
    if q >= k {
        false
    } else if k - q > 2 && p[q + 1] == '-' {
        if p[q] <= c && c <= p[q + 2] {
            true
        } else {
            class_has_exec(p, q + 3, k, c)
        }
    } else if p[q] == c {
        true
    } else {
        class_has_exec(p, q + 1, k, c)
    }
}

fn glob_at_exec(p: &Vec<char>, i: usize, s: &Vec<char>, j: usize) -> (r: bool)
    requires
        i <= p.len(),
        j <= s.len(),
    ensures
        r == glob_at(p@, i as int, s@, j as int),
    decreases p.len() - i + s.len() - j,
{
    if i >= p.len() {
        j == s.len()
    } else if p[i] == '*' {
        if glob_at_exec(p, i + 1, s, j) {
            true
        } else if j < s.len() {
            glob_at_exec(p, i, s, j + 1)
        } else {
            false
        }
    } else if j >= s.len() {
        false
    } else if p[i] == '?' {
        glob_at_exec(p, i + 1, s, j + 1)
    } else if p[i] == '\\' && i + 1 < p.len() {
        s[j] == p[i + 1] && glob_at_exec(p, i + 2, s, j + 1)
    } else if p[i] == '[' && class_close_exec(p, i) < p.len() {
        let k = class_close_exec(p, i);
        let negated = i + 1 < p.len() && (p[i + 1] == '!' || p[i + 1] == '^');
        let b: usize = if negated {
            i + 2
        } else {
            i + 1
        };
        proof {
            lemma_find_close_bounds(p@, b as int + 1);
        }
        let member = class_has_exec(p, b, k, s[j]);
        (negated != member) && glob_at_exec(p, k + 1, s, j + 1)
    } else {
        s[j] == p[i] && glob_at_exec(p, i + 1, s, j + 1)
    }
}

/// Whether the glob `p` matches the whole path segment `s`.
pub fn glob_matches(p: &Vec<char>, s: &Vec<char>) -> (r: bool)
    ensures
        r == glob_match(p@, s@),
{
    glob_at_exec(p, 0, s, 0)
}

} // verus!
