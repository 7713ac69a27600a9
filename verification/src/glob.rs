//! The pattern dialect an event filter names kinds in: `*` stands for any run of
//! characters including none, and every other character is itself.

use vstd::prelude::*;

use crate::text::characters;

verus! {

/// Whether `pattern` matches the whole of `text`.
pub open spec fn globs(pattern: Seq<char>, text: Seq<char>) -> bool
    decreases pattern.len(),
{
    if pattern.len() == 0 {
        text.len() == 0
    } else if pattern[0] == '*' {
        exists|run: int|
            0 <= run <= text.len() && globs(pattern.drop_first(), #[trigger] text.skip(run))
    } else {
        text.len() > 0 && pattern[0] == text[0] && globs(pattern.drop_first(), text.drop_first())
    }
}

/// Whether what is left of the pattern at `p` matches what is left of the text at
/// `t`.
spec fn from(pattern: Seq<char>, text: Seq<char>, p: int, t: int) -> bool {
    globs(pattern.skip(p), text.skip(t))
}

proof fn a_literal_step(pattern: Seq<char>, text: Seq<char>, p: int, t: int)
    requires
        0 <= p < pattern.len(),
        0 <= t <= text.len(),
        pattern[p] != '*',
    ensures
        from(pattern, text, p, t) == (t < text.len() && pattern[p] == text[t] && from(
            pattern,
            text,
            p + 1,
            t + 1,
        )),
{
    assert(pattern.skip(p).drop_first() =~= pattern.skip(p + 1));
    if t < text.len() {
        assert(text.skip(t).drop_first() =~= text.skip(t + 1));
    }
}

proof fn a_star_step(pattern: Seq<char>, text: Seq<char>, p: int, t: int)
    requires
        0 <= p < pattern.len(),
        0 <= t <= text.len(),
        pattern[p] == '*',
    ensures
        from(pattern, text, p, t) == (exists|k: int|
            t <= k <= text.len() && #[trigger] from(pattern, text, p + 1, k)),
{
    assert(pattern.skip(p).drop_first() =~= pattern.skip(p + 1));
    let rest = text.skip(t);
    if from(pattern, text, p, t) {
        let run = choose|run: int|
            0 <= run <= rest.len() && globs(pattern.skip(p).drop_first(), #[trigger] rest.skip(run));
        assert(rest.skip(run) =~= text.skip(t + run));
        assert(from(pattern, text, p + 1, t + run));
    }
    if exists|k: int| t <= k <= text.len() && #[trigger] from(pattern, text, p + 1, k) {
        let k = choose|k: int| t <= k <= text.len() && #[trigger] from(pattern, text, p + 1, k);
        assert(rest.skip(k - t) =~= text.skip(k));
        assert(globs(pattern.skip(p).drop_first(), rest.skip(k - t)));
    }
}

/// A stretch of the pattern with no `*` in it that matches at `t` takes exactly
/// as much of the text.
proof fn a_literal_stretch(pattern: Seq<char>, text: Seq<char>, p: int, q: int, t: int)
    requires
        0 <= p <= q <= pattern.len(),
        0 <= t <= text.len(),
        forall|i: int| p <= i < q ==> pattern[i] != '*',
    ensures
        from(pattern, text, p, t) ==> t + (q - p) <= text.len() && from(
            pattern,
            text,
            q,
            t + (q - p),
        ),
        t + (q - p) <= text.len() && from(pattern, text, q, t + (q - p)) && (forall|i: int|
            p <= i < q ==> pattern[i] == text[t + (i - p)]) ==> from(pattern, text, p, t),
    decreases q - p,
{
    if p < q {
        a_literal_step(pattern, text, p, t);
        if t < text.len() {
            a_literal_stretch(pattern, text, p + 1, q, t + 1);
            if t + (q - p) <= text.len() && (forall|i: int|
                p <= i < q ==> pattern[i] == text[t + (i - p)]) {
                assert forall|i: int| p + 1 <= i < q implies pattern[i] == text[t + 1 + (i - (p
                    + 1))] by {
                    assert(pattern[i] == text[t + (i - p)]);
                }
                assert(pattern[p] == text[t + (p - p)]);
            }
        }
    }
}

/// With the text used up, only stars can be left.
proof fn what_is_left_is_stars(pattern: Seq<char>, text: Seq<char>, p: int)
    requires
        0 <= p <= pattern.len(),
    ensures
        from(pattern, text, p, text.len() as int) == (forall|i: int|
            p <= i < pattern.len() ==> pattern[i] == '*'),
    decreases pattern.len() - p,
{
    let end = text.len() as int;
    if p < pattern.len() {
        what_is_left_is_stars(pattern, text, p + 1);
        if pattern[p] == '*' {
            a_star_step(pattern, text, p, end);
            assert(from(pattern, text, p, end) == from(pattern, text, p + 1, end));
        } else {
            a_literal_step(pattern, text, p, end);
        }
    }
}

/// Whether `pattern` matches `text`.
#[verifier::loop_isolation(false)]
pub fn glob(pattern: &str, text: &str) -> (matched: bool)
    ensures
        matched == globs(pattern@, text@),
{
    let pattern = characters(pattern);
    let text = characters(text);
    let ghost pat = pattern@;
    let ghost txt = text@;
    let mut p: usize = 0;
    let mut t: usize = 0;
    // Where to resume from if the run the last `*` is standing for turns out to
    // be one character too short.
    let mut star: Option<usize> = None;
    let mut resume: usize = 0;
    proof {
        assert(pat.skip(0) =~= pat);
        assert(txt.skip(0) =~= txt);
    }
    while t < text.len()
        invariant
            pattern@ == pat,
            text@ == txt,
            p <= pat.len(),
            resume <= t <= txt.len(),
            star is None ==> globs(pat, txt) == from(pat, txt, p as int, t as int) && resume == 0,
            star matches Some(at) ==> {
                &&& at < p
                &&& pat[at as int] == '*'
                &&& p - (at + 1) == t - resume
                &&& forall|i: int| at < i < p ==> pat[i] != '*'
                &&& forall|i: int| at < i < p ==> pat[i] == txt[resume + (i - (at + 1))]
                &&& globs(pat, txt) == exists|k: int|
                    resume <= k <= txt.len() && #[trigger] from(pat, txt, at + 1, k)
            },
        decreases
            pat.len() - (match star {
                Some(at) => at + 1,
                None => 0,
            }),
            txt.len() - resume,
            txt.len() - t,
    {
        if p < pattern.len() && pattern[p] == '*' {
            proof {
                a_star_step(pat, txt, p as int, t as int);
                if let Some(at) = star {
                    // A run of the earlier star that ends later leaves this star
                    // no more to stand for than the run just found.
                    a_literal_stretch(pat, txt, at + 1, p as int, resume as int);
                    if globs(pat, txt) {
                        let k = choose|k: int|
                            resume <= k <= txt.len() && #[trigger] from(pat, txt, at + 1, k);
                        a_literal_stretch(pat, txt, at + 1, p as int, k);
                        let landed = k + (p - (at + 1));
                        a_star_step(pat, txt, p as int, landed);
                        let j = choose|j: int|
                            landed <= j <= txt.len() && #[trigger] from(pat, txt, p + 1, j);
                        assert(t <= j <= txt.len() && from(pat, txt, p + 1, j));
                    }
                    if from(pat, txt, p as int, t as int) {
                        assert(from(pat, txt, at + 1, resume as int));
                    }
                }
            }
            star = Some(p);
            resume = t;
            p = p + 1;
        } else if p < pattern.len() && pattern[p] == text[t] {
            proof {
                a_literal_step(pat, txt, p as int, t as int);
            }
            p = p + 1;
            t = t + 1;
        } else if let Some(at) = star {
            proof {
                if p < pat.len() {
                    a_literal_step(pat, txt, p as int, t as int);
                } else {
                    assert(pat.skip(p as int).len() == 0);
                }
                assert(!from(pat, txt, p as int, t as int));
                a_literal_stretch(pat, txt, at + 1, p as int, resume as int);
                assert(!from(pat, txt, at + 1, resume as int));
                if globs(pat, txt) {
                    let k = choose|k: int|
                        resume <= k <= txt.len() && #[trigger] from(pat, txt, at + 1, k);
                    assert(resume + 1 <= k <= txt.len() && from(pat, txt, at + 1, k));
                }
            }
            p = at + 1;
            resume = resume + 1;
            t = resume;
        } else {
            proof {
                if p < pat.len() {
                    a_literal_step(pat, txt, p as int, t as int);
                } else {
                    assert(pat.skip(p as int).len() == 0);
                }
            }
            return false;
        }
    }
    proof {
        what_is_left_is_stars(pat, txt, p as int);
        if let Some(at) = star {
            a_literal_stretch(pat, txt, at + 1, p as int, resume as int);
            if globs(pat, txt) {
                let k = choose|k: int|
                    resume <= k <= txt.len() && #[trigger] from(pat, txt, at + 1, k);
                a_literal_stretch(pat, txt, at + 1, p as int, k);
                assert(k == resume);
            }
            if from(pat, txt, p as int, txt.len() as int) {
                assert(from(pat, txt, at + 1, resume as int));
            }
        }
    }
    while p < pattern.len()
        invariant
            p <= pat.len(),
            pattern@ == pat,
            globs(pat, txt) == (forall|i: int| p <= i < pat.len() ==> pat[i] == '*'),
        decreases pat.len() - p,
    {
        if pattern[p] != '*' {
            assert(pat[p as int] != '*');
            return false;
        }
        p = p + 1;
    }
    true
}

/// A pattern with no `*` in it matches itself and nothing else.
pub proof fn a_pattern_without_a_star_matches_only_itself(pattern: Seq<char>, text: Seq<char>)
    requires
        forall|i: int| 0 <= i < pattern.len() ==> pattern[i] != '*',
    ensures
        globs(pattern, text) <==> pattern == text,
    decreases pattern.len(),
{
    if pattern.len() > 0 {
        if text.len() > 0 {
            a_pattern_without_a_star_matches_only_itself(pattern.drop_first(), text.drop_first());
            if pattern[0] == text[0] && pattern.drop_first() == text.drop_first() {
                assert(pattern =~= seq![pattern[0]] + pattern.drop_first());
                assert(text =~= seq![text[0]] + text.drop_first());
            }
        }
    } else if text.len() == 0 {
        assert(pattern =~= text);
    }
}

/// A lone `*` matches everything.
pub proof fn a_lone_star_matches_everything(text: Seq<char>)
    ensures
        globs(seq!['*'], text),
{
    let pattern = seq!['*'];
    assert(pattern.drop_first() =~= seq![]);
    assert(text.skip(text.len() as int) =~= seq![]);
    assert(globs(pattern.drop_first(), text.skip(text.len() as int)));
}

/// A pattern that is a literal and then a `*` matches exactly the texts that
/// begin with the literal.
pub proof fn a_trailing_star_matches_by_prefix(prefix: Seq<char>, text: Seq<char>)
    requires
        forall|i: int| 0 <= i < prefix.len() ==> prefix[i] != '*',
    ensures
        globs(prefix.push('*'), text) <==> prefix.len() <= text.len() && text.take(
            prefix.len() as int,
        ) == prefix,
    decreases prefix.len(),
{
    let pattern = prefix.push('*');
    if prefix.len() == 0 {
        assert(pattern =~= seq!['*']);
        a_lone_star_matches_everything(text);
        assert(text.take(0) =~= prefix);
    } else if text.len() > 0 {
        assert(pattern.drop_first() =~= prefix.drop_first().push('*'));
        a_trailing_star_matches_by_prefix(prefix.drop_first(), text.drop_first());
        let n = prefix.len() as int;
        if n <= text.len() {
            assert(text.take(n).drop_first() =~= text.drop_first().take(n - 1));
            if prefix[0] == text[0] && text.drop_first().take(n - 1) == prefix.drop_first() {
                assert(text.take(n) =~= seq![text[0]] + text.drop_first().take(n - 1));
                assert(prefix =~= seq![prefix[0]] + prefix.drop_first());
            }
        }
    }
}

} // verus!
