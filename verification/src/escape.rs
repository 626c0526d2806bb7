//! XML escaping of user-supplied text, and its inverse.
//!
//! Every text and attribute field written into a feed document goes through
//! [`escape_text`]; the reader side undoes it with [`unescape_range`]. The
//! lemmas here state that escaped text contains no raw `<` or `"` (so a
//! scanner can find the delimiter that follows it) and that unescaping an
//! escaped string gives the original back.

use vstd::prelude::*;
use crate::text::{chars_of, push_char};
use vstd::string::StringExecFns;

verus! {

pub open spec fn amp_entity() -> Seq<char> {
    seq!['&', 'a', 'm', 'p', ';']
}

pub open spec fn lt_entity() -> Seq<char> {
    seq!['&', 'l', 't', ';']
}

pub open spec fn gt_entity() -> Seq<char> {
    seq!['&', 'g', 't', ';']
}

pub open spec fn quot_entity() -> Seq<char> {
    seq!['&', 'q', 'u', 'o', 't', ';']
}

pub open spec fn apos_entity() -> Seq<char> {
    seq!['&', 'a', 'p', 'o', 's', ';']
}

/// The escaped form of one character.
pub open spec fn escape_char(c: char) -> Seq<char> {
    if c == '&' {
        amp_entity()
    } else if c == '<' {
        lt_entity()
    } else if c == '>' {
        gt_entity()
    } else if c == '"' {
        quot_entity()
    } else if c == '\'' {
        apos_entity()
    } else {
        seq![c]
    }
}

/// The escaped form of a string of characters.
pub open spec fn escape_seq(s: Seq<char>) -> Seq<char>
    decreases s.len(),
{
    if s.len() == 0 {
        Seq::empty()
    } else {
        escape_char(s[0]) + escape_seq(s.drop_first())
    }
}

pub proof fn lemma_escape_push(s: Seq<char>, c: char)
    ensures
        escape_seq(s.push(c)) == escape_seq(s) + escape_char(c),
    decreases s.len(),
{
    if s.len() == 0 {
        assert(s.push(c)[0] == c);
        assert(s.push(c).drop_first() =~= s);
        assert(escape_seq(s.push(c)) =~= escape_seq(s) + escape_char(c));
    } else {
        assert(s.push(c)[0] == s[0]);
        assert(s.push(c).drop_first() =~= s.drop_first().push(c));
        lemma_escape_push(s.drop_first(), c);
        assert(escape_seq(s.push(c)) =~= escape_seq(s) + escape_char(c));
    }
}

/// Escaped text contains no raw `<` and no raw `"`.
pub proof fn lemma_escape_clean(s: Seq<char>)
    ensures
        forall|k: int|
            0 <= k < escape_seq(s).len() ==> escape_seq(s)[k] != '<' && escape_seq(s)[k] != '"',
    decreases s.len(),
{
    if s.len() == 0 {
    } else {
        lemma_escape_clean(s.drop_first());
        assert forall|k: int| 0 <= k < escape_char(s[0]).len() implies escape_char(s[0])[k] != '<'
            && escape_char(s[0])[k] != '"' by {
            if s[0] != '&' && s[0] != '<' && s[0] != '>' && s[0] != '"' && s[0] != '\'' {
                assert(escape_char(s[0]) == seq![s[0]]);
            }
        }
        assert forall|k: int| 0 <= k < escape_seq(s).len() implies escape_seq(s)[k] != '<'
            && escape_seq(s)[k] != '"' by {
            let head = escape_char(s[0]);
            if k < head.len() {
                assert(escape_seq(s)[k] == head[k]);
            } else {
                assert(escape_seq(s)[k] == escape_seq(s.drop_first())[k - head.len()]);
            }
        }
    }
}

/// Escapes the XML special characters of `s`.
pub fn escape_text(s: &str) -> (r: String)
    ensures
        r@ == escape_seq(s@),
{
    let cs = chars_of(s);
    let mut out = String::new();
    let mut i: usize = 0;
    while i < cs.len()
        invariant
            cs@ == s@,
            i <= cs.len(),
            out@ == escape_seq(s@.take(i as int)),
        decreases cs.len() - i,
    {
        let c = cs[i];
        if c == '&' {
            out.append("&amp;");
            proof {
                reveal_strlit("&amp;");
                assert("&amp;"@ =~= amp_entity());
            }
        } else if c == '<' {
            out.append("&lt;");
            proof {
                reveal_strlit("&lt;");
                assert("&lt;"@ =~= lt_entity());
            }
        } else if c == '>' {
            out.append("&gt;");
            proof {
                reveal_strlit("&gt;");
                assert("&gt;"@ =~= gt_entity());
            }
        } else if c == '"' {
            out.append("&quot;");
            proof {
                reveal_strlit("&quot;");
                assert("&quot;"@ =~= quot_entity());
            }
        } else if c == '\'' {
            out.append("&apos;");
            proof {
                reveal_strlit("&apos;");
                assert("&apos;"@ =~= apos_entity());
            }
        } else {
            push_char(&mut out, c);
            proof {
                assert(out@ =~= escape_seq(s@.take(i as int)) + escape_char(s@[i as int]));
            }
        }
        proof {
            lemma_escape_push(s@.take(i as int), s@[i as int]);
            assert(s@.take(i + 1) =~= s@.take(i as int).push(s@[i as int]));
        }
        i = i + 1;
    }
    proof {
        assert(s@.take(cs@.len() as int) =~= s@);
    }
    out
}

pub open spec fn has_prefix(s: Seq<char>, p: Seq<char>) -> bool {
    p.len() <= s.len() && s.subrange(0, p.len() as int) == p
}

pub open spec fn opt_cons(c: char, o: Option<Seq<char>>) -> Option<Seq<char>> {
    match o {
        Some(u) => Some(seq![c] + u),
        None => None,
    }
}

/// The inverse of [`escape_seq`], as far as one exists: entities become the
/// characters they stand for, ordinary characters stay, and a stray `&`
/// makes the whole text unreadable.
pub open spec fn unescape_seq(s: Seq<char>) -> Option<Seq<char>>
    decreases s.len(),
{
    if s.len() == 0 {
        Some(Seq::empty())
    } else if s[0] == '&' {
        if has_prefix(s, amp_entity()) {
            opt_cons('&', unescape_seq(s.skip(5)))
        } else if has_prefix(s, lt_entity()) {
            opt_cons('<', unescape_seq(s.skip(4)))
        } else if has_prefix(s, gt_entity()) {
            opt_cons('>', unescape_seq(s.skip(4)))
        } else if has_prefix(s, quot_entity()) {
            opt_cons('"', unescape_seq(s.skip(6)))
        } else if has_prefix(s, apos_entity()) {
            opt_cons('\'', unescape_seq(s.skip(6)))
        } else {
            None
        }
    } else {
        opt_cons(s[0], unescape_seq(s.drop_first()))
    }
}

/// Unescaping recovers exactly the text that was escaped.
pub proof fn lemma_unescape_escape(s: Seq<char>)
    ensures
        unescape_seq(escape_seq(s)) == Some(s),
    decreases s.len(),
{
    if s.len() == 0 {
    } else {
        let c = s[0];
        let rest = s.drop_first();
        lemma_unescape_escape(rest);
        let e = escape_seq(s);
        assert(e == escape_char(c) + escape_seq(rest));
        if c == '&' {
            assert(has_prefix(e, amp_entity())) by {
                assert(e.subrange(0, 5) =~= amp_entity());
            }
            assert(e.skip(5) =~= escape_seq(rest));
            assert(unescape_seq(e) == Some(seq!['&'] + rest));
            assert(seq!['&'] + rest =~= s);
        } else if c == '<' {
            assert(e[0] == '&');
            assert(!has_prefix(e, amp_entity())) by {
                if has_prefix(e, amp_entity()) {
                    assert(e.subrange(0, 5)[1] == 'a');
                    assert(e[1] == 'l');
                }
            }
            assert(has_prefix(e, lt_entity())) by {
                assert(e.subrange(0, 4) =~= lt_entity());
            }
            assert(e.skip(4) =~= escape_seq(rest));
            assert(unescape_seq(e) == Some(seq!['<'] + rest));
            assert(seq!['<'] + rest =~= s);
        } else if c == '>' {
            assert(e[0] == '&');
            assert(!has_prefix(e, amp_entity())) by {
                if has_prefix(e, amp_entity()) {
                    assert(e.subrange(0, 5)[1] == 'a');
                    assert(e[1] == 'g');
                }
            }
            assert(!has_prefix(e, lt_entity())) by {
                if has_prefix(e, lt_entity()) {
                    assert(e.subrange(0, 4)[1] == 'l');
                    assert(e[1] == 'g');
                }
            }
            assert(has_prefix(e, gt_entity())) by {
                assert(e.subrange(0, 4) =~= gt_entity());
            }
            assert(e.skip(4) =~= escape_seq(rest));
            assert(unescape_seq(e) == Some(seq!['>'] + rest));
            assert(seq!['>'] + rest =~= s);
        } else if c == '"' {
            assert(e[0] == '&');
            assert(!has_prefix(e, amp_entity())) by {
                if has_prefix(e, amp_entity()) {
                    assert(e.subrange(0, 5)[1] == 'a');
                    assert(e[1] == 'q');
                }
            }
            assert(!has_prefix(e, lt_entity())) by {
                if has_prefix(e, lt_entity()) {
                    assert(e.subrange(0, 4)[1] == 'l');
                    assert(e[1] == 'q');
                }
            }
            assert(!has_prefix(e, gt_entity())) by {
                if has_prefix(e, gt_entity()) {
                    assert(e.subrange(0, 4)[1] == 'g');
                    assert(e[1] == 'q');
                }
            }
            assert(has_prefix(e, quot_entity())) by {
                assert(e.subrange(0, 6) =~= quot_entity());
            }
            assert(e.skip(6) =~= escape_seq(rest));
            assert(unescape_seq(e) == Some(seq!['"'] + rest));
            assert(seq!['"'] + rest =~= s);
        } else if c == '\'' {
            assert(e[0] == '&');
            assert(!has_prefix(e, amp_entity())) by {
                if has_prefix(e, amp_entity()) {
                    assert(e.subrange(0, 5)[2] == 'm');
                    assert(e[2] == 'p');
                }
            }
            assert(!has_prefix(e, lt_entity())) by {
                if has_prefix(e, lt_entity()) {
                    assert(e.subrange(0, 4)[1] == 'l');
                    assert(e[1] == 'a');
                }
            }
            assert(!has_prefix(e, gt_entity())) by {
                if has_prefix(e, gt_entity()) {
                    assert(e.subrange(0, 4)[1] == 'g');
                    assert(e[1] == 'a');
                }
            }
            assert(!has_prefix(e, quot_entity())) by {
                if has_prefix(e, quot_entity()) {
                    assert(e.subrange(0, 6)[1] == 'q');
                    assert(e[1] == 'a');
                }
            }
            assert(has_prefix(e, apos_entity())) by {
                assert(e.subrange(0, 6) =~= apos_entity());
            }
            assert(e.skip(6) =~= escape_seq(rest));
            assert(unescape_seq(e) == Some(seq!['\''] + rest));
            assert(seq!['\''] + rest =~= s);
        } else {
            assert(e[0] == c);
            assert(e.drop_first() =~= escape_seq(rest));
            assert(unescape_seq(e) == Some(seq![c] + rest));
            assert(seq![c] + rest =~= s);
        }
    }
}

/// Unescapes the characters of `t` between `from` (inclusive) and `to`
/// (exclusive), or reports that they are not valid escaped text.
pub fn unescape_range(t: &Vec<char>, from: usize, to: usize) -> (r: Option<String>)
    requires
        from <= to <= t@.len(),
    ensures
        match r {
            Some(u) => unescape_seq(t@.subrange(from as int, to as int)) == Some(u@),
            None => unescape_seq(t@.subrange(from as int, to as int)) is None,
        },
{
    let ghost whole = t@.subrange(from as int, to as int);
    let mut out = String::new();
    let mut pos: usize = from;
    while pos < to
        invariant
            from <= pos <= to <= t@.len(),
            whole == t@.subrange(from as int, to as int),
            unescape_seq(whole) == (match unescape_seq(t@.subrange(pos as int, to as int)) {
                Some(u) => Some(out@ + u),
                None => None::<Seq<char>>,
            }),
        decreases to - pos,
    {
        let ghost rem = t@.subrange(pos as int, to as int);
        let ghost out0 = out@;
        let ghost mut pushed: char = ' ';
        let c = t[pos];
        assert(rem[0] == c);
        if c == '&' {
            if to - pos >= 5 && t[pos + 1] == 'a' && t[pos + 2] == 'm' && t[pos + 3] == 'p' && t[
                pos + 4] == ';' {
                proof {
                    assert(has_prefix(rem, amp_entity())) by {
                        assert(rem.subrange(0, 5) =~= amp_entity());
                    }
                    assert(rem.skip(5) =~= t@.subrange(pos + 5, to as int));
                    pushed = '&';
                }
                push_char(&mut out, '&');
                pos = pos + 5;
            } else if to - pos >= 4 && t[pos + 1] == 'l' && t[pos + 2] == 't' && t[pos + 3]
                == ';' {
                proof {
                    assert(!has_prefix(rem, amp_entity())) by {
                        if has_prefix(rem, amp_entity()) {
                            assert(rem.subrange(0, 5)[1] == 'a');
                        }
                    }
                    assert(has_prefix(rem, lt_entity())) by {
                        assert(rem.subrange(0, 4) =~= lt_entity());
                    }
                    assert(rem.skip(4) =~= t@.subrange(pos + 4, to as int));
                    pushed = '<';
                }
                push_char(&mut out, '<');
                pos = pos + 4;
            } else if to - pos >= 4 && t[pos + 1] == 'g' && t[pos + 2] == 't' && t[pos + 3]
                == ';' {
                proof {
                    assert(!has_prefix(rem, amp_entity())) by {
                        if has_prefix(rem, amp_entity()) {
                            assert(rem.subrange(0, 5)[1] == 'a');
                        }
                    }
                    assert(!has_prefix(rem, lt_entity())) by {
                        if has_prefix(rem, lt_entity()) {
                            assert(rem.subrange(0, 4)[1] == 'l');
                        }
                    }
                    assert(has_prefix(rem, gt_entity())) by {
                        assert(rem.subrange(0, 4) =~= gt_entity());
                    }
                    assert(rem.skip(4) =~= t@.subrange(pos + 4, to as int));
                    pushed = '>';
                }
                push_char(&mut out, '>');
                pos = pos + 4;
            } else if to - pos >= 6 && t[pos + 1] == 'q' && t[pos + 2] == 'u' && t[pos + 3] == 'o'
                && t[pos + 4] == 't' && t[pos + 5] == ';' {
                proof {
                    assert(!has_prefix(rem, amp_entity())) by {
                        if has_prefix(rem, amp_entity()) {
                            assert(rem.subrange(0, 5)[1] == 'a');
                        }
                    }
                    assert(!has_prefix(rem, lt_entity())) by {
                        if has_prefix(rem, lt_entity()) {
                            assert(rem.subrange(0, 4)[1] == 'l');
                        }
                    }
                    assert(!has_prefix(rem, gt_entity())) by {
                        if has_prefix(rem, gt_entity()) {
                            assert(rem.subrange(0, 4)[1] == 'g');
                        }
                    }
                    assert(has_prefix(rem, quot_entity())) by {
                        assert(rem.subrange(0, 6) =~= quot_entity());
                    }
                    assert(rem.skip(6) =~= t@.subrange(pos + 6, to as int));
                    pushed = '"';
                }
                push_char(&mut out, '"');
                pos = pos + 6;
            } else if to - pos >= 6 && t[pos + 1] == 'a' && t[pos + 2] == 'p' && t[pos + 3] == 'o'
                && t[pos + 4] == 's' && t[pos + 5] == ';' {
                proof {
                    assert(!has_prefix(rem, amp_entity())) by {
                        if has_prefix(rem, amp_entity()) {
                            assert(rem.subrange(0, 5)[2] == 'm');
                        }
                    }
                    assert(!has_prefix(rem, lt_entity())) by {
                        if has_prefix(rem, lt_entity()) {
                            assert(rem.subrange(0, 4)[1] == 'l');
                        }
                    }
                    assert(!has_prefix(rem, gt_entity())) by {
                        if has_prefix(rem, gt_entity()) {
                            assert(rem.subrange(0, 4)[1] == 'g');
                        }
                    }
                    assert(!has_prefix(rem, quot_entity())) by {
                        if has_prefix(rem, quot_entity()) {
                            assert(rem.subrange(0, 6)[1] == 'q');
                        }
                    }
                    assert(has_prefix(rem, apos_entity())) by {
                        assert(rem.subrange(0, 6) =~= apos_entity());
                    }
                    assert(rem.skip(6) =~= t@.subrange(pos + 6, to as int));
                    pushed = '\'';
                }
                push_char(&mut out, '\'');
                pos = pos + 6;
            } else {
                proof {
                    assert(!has_prefix(rem, amp_entity())) by {
                        if has_prefix(rem, amp_entity()) {
                            assert(rem.subrange(0, 5)[1] == rem[1]);
                            assert(rem.subrange(0, 5)[2] == rem[2]);
                            assert(rem.subrange(0, 5)[3] == rem[3]);
                            assert(rem.subrange(0, 5)[4] == rem[4]);
                        }
                    }
                    assert(!has_prefix(rem, lt_entity())) by {
                        if has_prefix(rem, lt_entity()) {
                            assert(rem.subrange(0, 4)[1] == rem[1]);
                            assert(rem.subrange(0, 4)[2] == rem[2]);
                            assert(rem.subrange(0, 4)[3] == rem[3]);
                        }
                    }
                    assert(!has_prefix(rem, gt_entity())) by {
                        if has_prefix(rem, gt_entity()) {
                            assert(rem.subrange(0, 4)[1] == rem[1]);
                            assert(rem.subrange(0, 4)[2] == rem[2]);
                            assert(rem.subrange(0, 4)[3] == rem[3]);
                        }
                    }
                    assert(!has_prefix(rem, quot_entity())) by {
                        if has_prefix(rem, quot_entity()) {
                            assert(rem.subrange(0, 6)[1] == rem[1]);
                            assert(rem.subrange(0, 6)[2] == rem[2]);
                            assert(rem.subrange(0, 6)[3] == rem[3]);
                            assert(rem.subrange(0, 6)[4] == rem[4]);
                            assert(rem.subrange(0, 6)[5] == rem[5]);
                        }
                    }
                    assert(!has_prefix(rem, apos_entity())) by {
                        if has_prefix(rem, apos_entity()) {
                            assert(rem.subrange(0, 6)[1] == rem[1]);
                            assert(rem.subrange(0, 6)[2] == rem[2]);
                            assert(rem.subrange(0, 6)[3] == rem[3]);
                            assert(rem.subrange(0, 6)[4] == rem[4]);
                            assert(rem.subrange(0, 6)[5] == rem[5]);
                        }
                    }
                    assert(unescape_seq(rem) is None);
                }
                return None;
            }
        } else {
            proof {
                assert(rem.drop_first() =~= t@.subrange(pos + 1, to as int));
                pushed = c;
            }
            push_char(&mut out, c);
            pos = pos + 1;
        }
        proof {
            let rem2 = t@.subrange(pos as int, to as int);
            assert(unescape_seq(rem) == opt_cons(pushed, unescape_seq(rem2)));
            assert(out@ == out0.push(pushed));
            match unescape_seq(rem2) {
                Some(u) => {
                    assert(out0 + (seq![pushed] + u) =~= out@ + u);
                },
                None => {},
            }
        }
    }
    proof {
        assert(t@.subrange(pos as int, to as int) =~= Seq::<char>::empty());
        assert(unescape_seq(whole) == Some(out@ + Seq::<char>::empty()));
        assert(out@ + Seq::<char>::empty() =~= out@);
    }
    Some(out)
}

} // verus!
