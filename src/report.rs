use vstd::prelude::*;
use crate::rule_set::Verdict;

verus! {

/// Whether a path with verdict `v` is reported: an ignored one always, a whitelisted one
/// only when asked for.
pub open spec fn reported_spec(v: Verdict, show_whitelisted: bool) -> bool {
    match v {
        Verdict::NoMatch => false,
        Verdict::Ignored(_) => true,
        Verdict::Whitelisted(_) => show_whitelisted,
    }
}

/// Whether a path with verdict `v` is reported.
pub fn is_reported(v: Verdict, show_whitelisted: bool) -> (r: bool)
    ensures
        r == reported_spec(v, show_whitelisted),
{
    match v {
        Verdict::NoMatch => false,
        Verdict::Ignored(_) => true,
        Verdict::Whitelisted(_) => show_whitelisted,
    }
}

/// The process status for a run whose paths got `verdicts`: 0 when at least one path
/// matched a rule, 1 otherwise.
pub fn exit_status(verdicts: &Vec<Verdict>) -> (r: i32)
    ensures
        r == (if exists|i: int| 0 <= i < verdicts@.len() && verdicts@[i] != Verdict::NoMatch {
            0i32
        } else {
            1i32
        }),
{
    let mut i: usize = 0;
    while i < verdicts.len()
        invariant
            i <= verdicts.len(),
            forall|q: int| 0 <= q < i ==> verdicts@[q] == Verdict::NoMatch,
        decreases verdicts.len() - i,
    {
        if verdicts[i] != Verdict::NoMatch {
            return 0;
        }
        i = i + 1;
    }
    1
}

pub open spec fn arrow() -> Seq<char> {
    seq![' ', '=', '>', ' ']
}

/// The report line `<pattern> => <path>`.
pub fn report_line(pattern: &Vec<char>, path: &Vec<char>) -> (r: Vec<char>)
    ensures
        r@ == pattern@ + arrow() + path@,
{
    let mut r: Vec<char> = Vec::new();
    let mut i: usize = 0;
    while i < pattern.len()
        invariant
            i <= pattern.len(),
            r@ == pattern@.take(i as int),
        decreases pattern.len() - i,
    {
        r.push(pattern[i]);
        i = i + 1;
        assert(r@ =~= pattern@.take(i as int));
    }
    assert(pattern@.take(pattern.len() as int) =~= pattern@);
    r.push(' ');
    r.push('=');
    r.push('>');
    r.push(' ');
    assert(r@ =~= pattern@ + arrow());
    let mut j: usize = 0;
    while j < path.len()
        invariant
            j <= path.len(),
            r@ == pattern@ + arrow() + path@.take(j as int),
        decreases path.len() - j,
    {
        r.push(path[j]);
        j = j + 1;
        assert(r@ =~= pattern@ + arrow() + path@.take(j as int));
    }
    assert(path@.take(path.len() as int) =~= path@);
    r
}

} // verus!
