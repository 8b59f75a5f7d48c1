use vstd::prelude::*;

verus! {

/// Whether `s` matches the SQL `LIKE` pattern `p`: `%` stands for any run of
/// characters, `_` for exactly one, every other character for itself.
/// Matching is case sensitive.
pub open spec fn like_match(s: Seq<char>, p: Seq<char>) -> bool
    decreases p.len(), s.len(),
{
    if p.len() == 0 {
        s.len() == 0
    } else if p[0] == '%' {
        like_match(s, p.drop_first()) || (s.len() > 0 && like_match(s.drop_first(), p))
    } else {
        s.len() > 0 && (p[0] == '_' || p[0] == s[0]) && like_match(s.drop_first(), p.drop_first())
    }
}

fn match_from(s: &Vec<char>, p: &Vec<char>, i: usize, j: usize) -> (r: bool)
    requires
        i <= s.len(),
        j <= p.len(),
    ensures
        r == like_match(s@.subrange(i as int, s.len() as int), p@.subrange(j as int, p.len() as int)),
    decreases p.len() - j, s.len() - i,
{
    let ghost ss = s@.subrange(i as int, s.len() as int);
    let ghost ps = p@.subrange(j as int, p.len() as int);
    if j == p.len() {
        i == s.len()
    } else if p[j] == '%' {
        assert(ps.drop_first() =~= p@.subrange(j + 1, p.len() as int));
        if match_from(s, p, i, j + 1) {
            true
        } else if i < s.len() {
            assert(ss.drop_first() =~= s@.subrange(i + 1, s.len() as int));
            match_from(s, p, i + 1, j)
        } else {
            false
        }
    } else if i < s.len() && (p[j] == '_' || p[j] == s[i]) {
        assert(ss.drop_first() =~= s@.subrange(i + 1, s.len() as int));
        assert(ps.drop_first() =~= p@.subrange(j + 1, p.len() as int));
        match_from(s, p, i + 1, j + 1)
    } else {
        false
    }
}

/// Decides `s LIKE p`.
pub fn like_matches(s: &Vec<char>, p: &Vec<char>) -> (r: bool)
    ensures
        r == like_match(s@, p@),
{
    assert(s@.subrange(0, s.len() as int) =~= s@);
    assert(p@.subrange(0, p.len() as int) =~= p@);
    match_from(s, p, 0, 0)
}

} // verus!
