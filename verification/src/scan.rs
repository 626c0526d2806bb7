//! Substring scanning over character vectors: first-occurrence search and
//! pattern replacement, with the lemma that a search started before escaped
//! text lands exactly on the delimiter that follows it.

use vstd::prelude::*;
use vstd::std_specs::vec::spec_vec_len;
use crate::text::{chars_of, string_from_chars};

verus! {

/// `pat` occurs in `t` starting at position `pos`.
pub open spec fn is_match(t: Seq<char>, pos: int, pat: Seq<char>) -> bool {
    &&& 0 <= pos
    &&& pos + pat.len() <= t.len()
    &&& t.subrange(pos, pos + pat.len() as int) == pat
}

/// The first position at or after `pos` where `pat` occurs in `t`.
pub open spec fn spec_find(t: Seq<char>, pos: int, pat: Seq<char>) -> Option<int>
    decreases t.len() - pos,
    when 0 <= pos && pat.len() > 0
{
    if pos + pat.len() > t.len() {
        None
    } else if is_match(t, pos, pat) {
        Some(pos)
    } else {
        spec_find(t, pos + 1, pat)
    }
}

pub proof fn lemma_find_bounds(t: Seq<char>, pos: int, pat: Seq<char>)
    requires
        0 <= pos,
        pat.len() > 0,
        spec_find(t, pos, pat) is Some,
    ensures
        spec_find(t, pos, pat) matches Some(i) ==> pos <= i && is_match(t, i, pat),
    decreases t.len() - pos,
{
    if pos + pat.len() > t.len() {
    } else if is_match(t, pos, pat) {
    } else {
        lemma_find_bounds(t, pos + 1, pat);
    }
}

/// Whether `pat` occurs at exactly position `pos` of `t`.
pub fn starts_with_at(t: &Vec<char>, pos: usize, pat: &Vec<char>) -> (b: bool)
    requires
        pos <= t@.len(),
    ensures
        b == is_match(t@, pos as int, pat@),
{
    if t.len() - pos < pat.len() {
        return false;
    }
    proof {
        broadcast use vstd::std_specs::vec::axiom_spec_len;

        assert(spec_vec_len(t) == t@.len());
    }
    let mut j: usize = 0;
    while j < pat.len()
        invariant
            t@.len() <= usize::MAX,
            pos <= t@.len(),
            pos + pat@.len() <= t@.len(),
            j <= pat@.len(),
            forall|k: int| 0 <= k < j ==> t@[pos + k] == pat@[k],
        decreases pat.len() - j,
    {
        if t[pos + j] != pat[j] {
            proof {
                assert(!is_match(t@, pos as int, pat@)) by {
                    if is_match(t@, pos as int, pat@) {
                        assert(t@.subrange(pos as int, pos + pat@.len() as int)[j as int]
                            == pat@[j as int]);
                    }
                }
            }
            return false;
        }
        j = j + 1;
    }
    proof {
        assert(t@.subrange(pos as int, pos + pat@.len() as int) =~= pat@);
    }
    true
}

/// The first occurrence of `pat` in `t` at or after `pos`.
pub fn find_from(t: &Vec<char>, pos: usize, pat: &Vec<char>) -> (r: Option<usize>)
    requires
        pos <= t@.len(),
        pat@.len() > 0,
    ensures
        match r {
            Some(i) => spec_find(t@, pos as int, pat@) == Some(i as int) && pos <= i && is_match(
                t@,
                i as int,
                pat@,
            ),
            None => spec_find(t@, pos as int, pat@) is None,
        },
{
    let mut i: usize = pos;
    loop
        invariant
            pos <= i <= t@.len(),
            pat@.len() > 0,
            spec_find(t@, pos as int, pat@) == spec_find(t@, i as int, pat@),
        decreases t@.len() - i,
    {
        if t.len() - i < pat.len() {
            return None;
        }
        if starts_with_at(t, i, pat) {
            return Some(i);
        }
        i = i + 1;
    }
}

/// Splitting a known suffix: if the text from `pos` on reads `a` then `b`,
/// then `a` sits at `pos` and `b` right after it.
pub proof fn lemma_suffix_split(t: Seq<char>, pos: int, a: Seq<char>, b: Seq<char>)
    requires
        0 <= pos <= t.len(),
        t.subrange(pos, t.len() as int) == a + b,
    ensures
        pos + a.len() <= t.len(),
        t.subrange(pos, pos + a.len()) == a,
        t.subrange(pos + a.len(), t.len() as int) == b,
{
    assert(t.subrange(pos, t.len() as int).len() == a.len() + b.len());
    assert(t.subrange(pos, pos + a.len()) =~= a) by {
        assert forall|k: int| 0 <= k < a.len() implies t.subrange(pos, pos + a.len())[k] == a[k] by {
            assert(t.subrange(pos, t.len() as int)[k] == (a + b)[k]);
        }
    }
    assert(t.subrange(pos + a.len(), t.len() as int) =~= b) by {
        assert forall|k: int| 0 <= k < b.len() implies t.subrange(pos + a.len(), t.len() as int)[k]
            == b[k] by {
            assert(t.subrange(pos, t.len() as int)[a.len() + k] == (a + b)[a.len() + k]);
            assert((a + b)[a.len() + k] == b[k]);
            assert(t.subrange(pos, t.len() as int)[a.len() + k] == t[pos + a.len() + k]);
            assert(t.subrange(pos + a.len(), t.len() as int)[k] == t[pos + a.len() + k]);
        }
    }
}

/// A search for `pat` started just before text that contains no occurrence
/// of `pat`'s first character lands exactly on the `pat` that follows it.
pub proof fn lemma_find_after_clean(t: Seq<char>, pos: int, e: Seq<char>, pat: Seq<char>)
    requires
        0 <= pos,
        pos + e.len() + pat.len() <= t.len(),
        t.subrange(pos, pos + e.len()) == e,
        t.subrange(pos + e.len(), pos + e.len() + pat.len()) == pat,
        pat.len() > 0,
        forall|k: int| 0 <= k < e.len() ==> e[k] != pat[0],
    ensures
        spec_find(t, pos, pat) == Some(pos + e.len()),
    decreases e.len(),
{
    if e.len() == 0 {
        assert(is_match(t, pos, pat));
    } else {
        assert(t[pos] == e[0]) by {
            assert(t.subrange(pos, pos + e.len())[0] == t[pos]);
        }
        assert(!is_match(t, pos, pat)) by {
            if is_match(t, pos, pat) {
                assert(t.subrange(pos, pos + pat.len())[0] == t[pos]);
                assert(pat[0] == t[pos]);
            }
        }
        let e2 = e.drop_first();
        assert(t.subrange(pos + 1, pos + 1 + e2.len()) =~= e2) by {
            assert forall|k: int| 0 <= k < e2.len() implies t.subrange(pos + 1, pos + 1 + e2.len())[k] == e2[k] by {
                assert(t.subrange(pos + 1, pos + 1 + e2.len())[k] == t[pos + 1 + k]);
                assert(t.subrange(pos, pos + e.len())[k + 1] == t[pos + 1 + k]);
                assert(e2[k] == e[k + 1]);
            }
        }
        assert(t.subrange(pos + 1 + e2.len(), pos + 1 + e2.len() + pat.len()) == pat);
        lemma_find_after_clean(t, pos + 1, e2, pat);
        assert(spec_find(t, pos, pat) == spec_find(t, pos + 1, pat));
    }
}

/// The suffix of `s` from `pos` on, with every occurrence of `pat` replaced
/// by `rep`, scanning left to right without overlap.
pub open spec fn spec_replace_from(s: Seq<char>, pos: int, pat: Seq<char>, rep: Seq<char>) -> Seq<
    char,
>
    decreases s.len() - pos,
    when 0 <= pos <= s.len() && pat.len() > 0
    via spec_replace_from_decreases
{
    match spec_find(s, pos, pat) {
        None => s.subrange(pos, s.len() as int),
        Some(i) => s.subrange(pos, i) + rep + spec_replace_from(s, i + pat.len() as int, pat, rep),
    }
}

#[via_fn]
proof fn spec_replace_from_decreases(s: Seq<char>, pos: int, pat: Seq<char>, rep: Seq<char>) {
    if spec_find(s, pos, pat) is Some {
        lemma_find_bounds(s, pos, pat);
    }
}

/// `s` with every occurrence of `pat` replaced by `rep`.
pub open spec fn spec_replace_all(s: Seq<char>, pat: Seq<char>, rep: Seq<char>) -> Seq<char> {
    spec_replace_from(s, 0, pat, rep)
}

/// Replaces every occurrence of `pat` in `s` with `rep`.
pub fn replace_all(s: &str, pat: &str, rep: &str) -> (r: String)
    requires
        pat@.len() > 0,
    ensures
        r@ == spec_replace_all(s@, pat@, rep@),
{
    let cs = chars_of(s);
    let pv = chars_of(pat);
    let rv = chars_of(rep);
    let mut out: Vec<char> = Vec::new();
    let mut pos: usize = 0;
    loop
        invariant
            cs@ == s@,
            pv@ == pat@,
            rv@ == rep@,
            pat@.len() > 0,
            pos <= cs@.len(),
            spec_replace_all(s@, pat@, rep@) == out@ + spec_replace_from(
                s@,
                pos as int,
                pat@,
                rep@,
            ),
        decreases s@.len() - pos,
    {
        let ghost out0 = out@;
        let ghost pos0 = pos as int;
        proof {
            broadcast use vstd::std_specs::vec::axiom_spec_len;

            assert(spec_vec_len(&cs) == cs@.len());
        }
        match find_from(&cs, pos, &pv) {
            None => {
                let mut k: usize = pos;
                while k < cs.len()
                    invariant
                        cs@ == s@,
                        pos <= k <= cs@.len(),
                        out@ == out0 + s@.subrange(pos as int, k as int),
                    decreases cs@.len() - k,
                {
                    out.push(cs[k]);
                    proof {
                        assert(out@ =~= out0 + s@.subrange(pos as int, k + 1));
                    }
                    k = k + 1;
                }
                proof {
                    assert(out@ =~= out0 + spec_replace_from(s@, pos as int, pat@, rep@));
                }
                return string_from_chars(&out);
            },
            Some(i) => {
                let mut k: usize = pos;
                while k < i
                    invariant
                        cs@ == s@,
                        pos <= k <= i <= cs@.len(),
                        out@ == out0 + s@.subrange(pos as int, k as int),
                    decreases i - k,
                {
                    out.push(cs[k]);
                    proof {
                        assert(out@ =~= out0 + s@.subrange(pos as int, k + 1));
                    }
                    k = k + 1;
                }
                let ghost out1 = out@;
                let mut j: usize = 0;
                while j < rv.len()
                    invariant
                        rv@ == rep@,
                        j <= rv@.len(),
                        out@ == out1 + rep@.take(j as int),
                    decreases rv@.len() - j,
                {
                    out.push(rv[j]);
                    proof {
                        assert(out@ =~= out1 + rep@.take(j + 1));
                    }
                    j = j + 1;
                }
                proof {
                    assert(i + pv@.len() <= cs@.len());
                }
                pos = i + pv.len();
                proof {
                    assert(rep@.take(rep@.len() as int) =~= rep@);
                    let tail = spec_replace_from(s@, pos as int, pat@, rep@);
                    assert(spec_replace_from(s@, pos0, pat@, rep@) == s@.subrange(pos0, i as int)
                        + rep@ + tail);
                    assert(out0 + (s@.subrange(pos0, i as int) + rep@ + tail) =~= out@ + tail);
                }
            },
        }
    }
}

} // verus!
