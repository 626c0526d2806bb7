//! Documents as segment lists.
//!
//! A document is rendered from a list of segments: fixed literals and
//! escaped user text. A reader walks the same list as a list of shapes:
//! literals are expected verbatim, text regions run to the first occurrence
//! of the delimiter literal that follows them, and chosen regions are kept.
//! The lemma [`lemma_parse_render`] states that reading rendered text with a
//! matching shape list succeeds and returns exactly the kept fields.

use vstd::prelude::*;
use crate::escape::{
    escape_seq, escape_text, unescape_seq, lemma_escape_clean, lemma_unescape_escape,
    unescape_range,
};
use crate::scan::{is_match, spec_find, find_from, starts_with_at, lemma_suffix_split,
    lemma_find_after_clean};
use crate::text::chars_of;
use vstd::std_specs::vec::spec_vec_len;
use vstd::string::StringExecFns;

verus! {

/// One piece of a rendered document: a fixed literal, or user text that is
/// escaped when rendered.
pub enum Seg {
    Lit(String),
    Text(String),
}

/// The mathematical form of a segment.
pub enum SegV {
    Lit(Seq<char>),
    Text(Seq<char>),
}

impl View for Seg {
    type V = SegV;

    open spec fn view(&self) -> SegV {
        match self {
            Seg::Lit(l) => SegV::Lit(l@),
            Seg::Text(t) => SegV::Text(t@),
        }
    }
}

/// What one segment contributes to the document.
pub open spec fn seg_chars(g: SegV) -> Seq<char> {
    match g {
        SegV::Lit(l) => l,
        SegV::Text(t) => escape_seq(t),
    }
}

/// The document text of a list of segments.
pub open spec fn spec_render(gs: Seq<SegV>) -> Seq<char>
    decreases gs.len(),
{
    if gs.len() == 0 {
        Seq::empty()
    } else {
        seg_chars(gs[0]) + spec_render(gs.drop_first())
    }
}

pub proof fn lemma_render_push(gs: Seq<SegV>, g: SegV)
    ensures
        spec_render(gs.push(g)) == spec_render(gs) + seg_chars(g),
    decreases gs.len(),
{
    if gs.len() == 0 {
        assert(gs.push(g)[0] == g);
        assert(gs.push(g).drop_first() =~= gs);
        assert(spec_render(gs.push(g)) =~= spec_render(gs) + seg_chars(g));
    } else {
        assert(gs.push(g)[0] == gs[0]);
        assert(gs.push(g).drop_first() =~= gs.drop_first().push(g));
        lemma_render_push(gs.drop_first(), g);
        assert(spec_render(gs.push(g)) =~= spec_render(gs) + seg_chars(g));
    }
}

/// The segment views of an executable segment list.
pub open spec fn seg_views(gs: Seq<Seg>) -> Seq<SegV> {
    gs.map_values(|g: Seg| g@)
}

/// Renders a segment list into document text.
pub fn render(segs: &Vec<Seg>) -> (r: String)
    ensures
        r@ == spec_render(seg_views(segs@)),
{
    let mut out = String::new();
    let mut i: usize = 0;
    while i < segs.len()
        invariant
            i <= segs@.len(),
            out@ == spec_render(seg_views(segs@).take(i as int)),
        decreases segs@.len() - i,
    {
        let sg = &segs[i];
        proof {
            assert(seg_views(segs@)[i as int] == segs@[i as int]@);
        }
        match sg {
            Seg::Lit(l) => {
                out.append(l.as_str());
            },
            Seg::Text(t) => {
                let e = escape_text(t.as_str());
                out.append(e.as_str());
            },
        }
        proof {
            lemma_render_push(seg_views(segs@).take(i as int), segs@[i as int]@);
            assert(seg_views(segs@).take(i + 1) =~= seg_views(segs@).take(i as int).push(
                segs@[i as int]@,
            ));
        }
        i = i + 1;
    }
    proof {
        assert(seg_views(segs@).take(segs@.len() as int) =~= seg_views(segs@));
    }
    out
}

/// How the reader treats one region of the document.
pub enum Shape {
    Lit(String),
    Skip,
    Grab,
}

/// The mathematical form of a shape.
pub enum ShapeV {
    Lit(Seq<char>),
    Skip,
    Grab,
}

impl View for Shape {
    type V = ShapeV;

    open spec fn view(&self) -> ShapeV {
        match self {
            Shape::Lit(l) => ShapeV::Lit(l@),
            Shape::Skip => ShapeV::Skip,
            Shape::Grab => ShapeV::Grab,
        }
    }
}

/// The shape views of an executable shape list.
pub open spec fn shape_views(ss: Seq<Shape>) -> Seq<ShapeV> {
    ss.map_values(|s: Shape| s@)
}

/// A delimiter literal a scanner can find right after escaped text: it
/// opens with a character that escaping never emits.
pub open spec fn delim_ok(d: Seq<char>) -> bool {
    d.len() > 0 && (d[0] == '<' || d[0] == '"')
}

/// Shape `j` agrees with segment `j`: literals carry the same text, and a
/// text region is followed by a scannable delimiter literal.
pub open spec fn seg_fits(shapes: Seq<ShapeV>, segs: Seq<SegV>, j: int) -> bool {
    match shapes[j] {
        ShapeV::Lit(l) => segs[j] == SegV::Lit(l),
        _ => {
            &&& segs[j] is Text
            &&& j + 1 < shapes.len()
            &&& match shapes[j + 1] {
                ShapeV::Lit(d) => segs[j + 1] == SegV::Lit(d) && delim_ok(d),
                _ => false,
            }
        },
    }
}

pub open spec fn shapes_match(shapes: Seq<ShapeV>, segs: Seq<SegV>) -> bool {
    &&& shapes.len() == segs.len()
    &&& forall|j: int| 0 <= j < shapes.len() ==> seg_fits(shapes, segs, j)
}

/// The text fields kept by the Grab shapes, in order.
pub open spec fn grabbed(shapes: Seq<ShapeV>, segs: Seq<SegV>) -> Seq<Seq<char>>
    decreases shapes.len(),
{
    if shapes.len() == 0 || segs.len() == 0 {
        Seq::empty()
    } else {
        let rest = grabbed(shapes.drop_first(), segs.drop_first());
        if shapes[0] is Grab {
            match segs[0] {
                SegV::Text(f) => seq![f] + rest,
                _ => rest,
            }
        } else {
            rest
        }
    }
}

/// Reads text at `pos` against a shape list, giving the kept fields
/// (unescaped) and the position after the last shape.
pub open spec fn spec_parse(t: Seq<char>, pos: int, shapes: Seq<ShapeV>) -> Option<
    (Seq<Seq<char>>, int),
>
    decreases shapes.len(),
{
    if shapes.len() == 0 {
        Some((Seq::empty(), pos))
    } else {
        match shapes[0] {
            ShapeV::Lit(l) => if is_match(t, pos, l) {
                spec_parse(t, pos + l.len(), shapes.drop_first())
            } else {
                None
            },
            ShapeV::Skip => if shapes.len() < 2 {
                None
            } else {
                match shapes[1] {
                    ShapeV::Lit(d) => if d.len() == 0 {
                        None
                    } else {
                        match spec_find(t, pos, d) {
                            None => None,
                            Some(i) => spec_parse(t, i, shapes.drop_first()),
                        }
                    },
                    _ => None,
                }
            },
            ShapeV::Grab => if shapes.len() < 2 {
                None
            } else {
                match shapes[1] {
                    ShapeV::Lit(d) => if d.len() == 0 {
                        None
                    } else {
                        match spec_find(t, pos, d) {
                            None => None,
                            Some(i) => match unescape_seq(t.subrange(pos, i)) {
                                None => None,
                                Some(f) => match spec_parse(t, i, shapes.drop_first()) {
                                    None => None,
                                    Some(p) => Some((seq![f] + p.0, p.1)),
                                },
                            },
                        }
                    },
                    _ => None,
                }
            },
        }
    }
}

/// Reading rendered text against a matching shape list succeeds, returns
/// exactly the kept fields, and stops right after the rendered part.
pub proof fn lemma_parse_render(
    t: Seq<char>,
    pos: int,
    shapes: Seq<ShapeV>,
    segs: Seq<SegV>,
    rest: Seq<char>,
)
    requires
        0 <= pos <= t.len(),
        t.subrange(pos, t.len() as int) == spec_render(segs) + rest,
        shapes_match(shapes, segs),
    ensures
        spec_parse(t, pos, shapes) == Some((grabbed(shapes, segs), pos + spec_render(segs).len())),
    decreases shapes.len(),
{
    if shapes.len() == 0 {
        assert(grabbed(shapes, segs) =~= Seq::<Seq<char>>::empty());
    } else {
        assert(seg_fits(shapes, segs, 0));
        let shapes2 = shapes.drop_first();
        let segs2 = segs.drop_first();
        assert(shapes_match(shapes2, segs2)) by {
            assert forall|j: int| 0 <= j < shapes2.len() implies seg_fits(shapes2, segs2, j) by {
                assert(seg_fits(shapes, segs, j + 1));
                assert(shapes2[j] == shapes[j + 1]);
                assert(segs2[j] == segs[j + 1]);
                if j + 2 < shapes.len() {
                    assert(shapes2[j + 1] == shapes[j + 2]);
                    assert(segs2[j + 1] == segs[j + 2]);
                }
            }
        }
        let r1 = spec_render(segs2);
        match shapes[0] {
            ShapeV::Lit(l) => {
                assert(segs[0] == SegV::Lit(l));
                assert(spec_render(segs) == l + r1);
                assert(t.subrange(pos, t.len() as int) =~= l + (r1 + rest));
                lemma_suffix_split(t, pos, l, r1 + rest);
                assert(is_match(t, pos, l));
                lemma_parse_render(t, pos + l.len(), shapes2, segs2, rest);
                assert(grabbed(shapes, segs) == grabbed(shapes2, segs2));
                assert(spec_render(segs).len() == l.len() + r1.len());
            },
            _ => {
                match segs[0] {
                    SegV::Text(f) => {
                        match shapes[1] {
                            ShapeV::Lit(d) => {
                                let ef = escape_seq(f);
                                assert(seg_chars(segs[0]) == ef);
                                assert(spec_render(segs) == ef + r1);
                                assert(segs2[0] == segs[1]);
                                assert(segs[1] == SegV::Lit(d));
                                let r2 = spec_render(segs2.drop_first());
                                assert(r1 == d + r2);
                                assert(t.subrange(pos, t.len() as int) =~= ef + (r1 + rest));
                                lemma_suffix_split(t, pos, ef, r1 + rest);
                                assert(t.subrange(pos + ef.len(), t.len() as int) =~= d + (r2
                                    + rest));
                                lemma_suffix_split(t, pos + ef.len(), d, r2 + rest);
                                lemma_escape_clean(f);
                                assert(delim_ok(d));
                                lemma_find_after_clean(t, pos, ef, d);
                                let i = pos + ef.len();
                                assert(spec_find(t, pos, d) == Some(i));
                                lemma_parse_render(t, i, shapes2, segs2, rest);
                                assert(spec_parse(t, i, shapes2) == Some(
                                    (grabbed(shapes2, segs2), i + r1.len()),
                                ));
                                assert(spec_render(segs).len() == ef.len() + r1.len());
                                if shapes[0] is Grab {
                                    lemma_unescape_escape(f);
                                    assert(t.subrange(pos, i) == ef);
                                    assert(unescape_seq(t.subrange(pos, i)) == Some(f));
                                    assert(grabbed(shapes, segs) == seq![f] + grabbed(
                                        shapes2,
                                        segs2,
                                    ));
                                } else {
                                    assert(grabbed(shapes, segs) == grabbed(shapes2, segs2));
                                }
                            },
                            _ => {
                                assert(false);
                            },
                        }
                    },
                    _ => {
                        assert(false);
                    },
                }
            },
        }
    }
}

/// The views of a list of captured strings.
pub open spec fn strs_view(g: Seq<String>) -> Seq<Seq<char>> {
    g.map_values(|x: String| x@)
}

/// Reads `t` from `start` against the shapes, returning the kept fields
/// and the position after the last shape.
pub fn parse_shapes(t: &Vec<char>, start: usize, shapes: &Vec<Shape>) -> (r: Option<
    (Vec<String>, usize),
>)
    requires
        start <= t@.len(),
    ensures
        match r {
            Some(p) => spec_parse(t@, start as int, shape_views(shapes@)) == Some(
                (strs_view(p.0@), p.1 as int),
            ) && p.1 <= t@.len(),
            None => spec_parse(t@, start as int, shape_views(shapes@)) is None,
        },
{
    let ghost all = shape_views(shapes@);
    let mut acc: Vec<String> = Vec::new();
    let mut pos: usize = start;
    let mut j: usize = 0;
    proof {
        assert(all.skip(0) =~= all);
        match spec_parse(t@, start as int, all) {
            Some(p) => {
                assert(strs_view(acc@) + p.0 =~= p.0);
            },
            None => {},
        }
    }
    while j < shapes.len()
        invariant
            start <= t@.len(),
            pos <= t@.len(),
            j <= shapes@.len(),
            all == shape_views(shapes@),
            spec_parse(t@, start as int, all) == (match spec_parse(
                t@,
                pos as int,
                all.skip(j as int),
            ) {
                Some(p) => Some((strs_view(acc@) + p.0, p.1)),
                None => None::<(Seq<Seq<char>>, int)>,
            }),
        decreases shapes@.len() - j,
    {
        let ghost pre = all.skip(j as int);
        let ghost acc0 = acc@;
        proof {
            assert(pre[0] == all[j as int]);
            assert(all[j as int] == shapes@[j as int]@);
            assert(pre.drop_first() =~= all.skip(j + 1));
        }
        let sh = &shapes[j];
        match sh {
            Shape::Lit(l) => {
                let lv = chars_of(l.as_str());
                if starts_with_at(t, pos, &lv) {
                    proof {
                        broadcast use vstd::std_specs::vec::axiom_spec_len;

                        assert(spec_vec_len(t) == t@.len());
                        assert(spec_parse(t@, pos as int, pre) == spec_parse(
                            t@,
                            pos + lv@.len(),
                            pre.drop_first(),
                        ));
                    }
                    pos = pos + lv.len();
                } else {
                    proof {
                        assert(spec_parse(t@, pos as int, pre) is None);
                    }
                    return None;
                }
            },
            Shape::Skip => {
                if j + 1 >= shapes.len() {
                    proof {
                        assert(pre.len() < 2);
                        assert(spec_parse(t@, pos as int, pre) is None);
                    }
                    return None;
                }
                proof {
                    assert(pre[1] == all[j + 1]);
                    assert(all[j + 1] == shapes@[j + 1]@);
                }
                let nx = &shapes[j + 1];
                match nx {
                    Shape::Lit(d) => {
                        let dv = chars_of(d.as_str());
                        if dv.len() == 0 {
                            proof {
                                assert(spec_parse(t@, pos as int, pre) is None);
                            }
                            return None;
                        }
                        match find_from(t, pos, &dv) {
                            None => {
                                proof {
                                    assert(spec_parse(t@, pos as int, pre) is None);
                                }
                                return None;
                            },
                            Some(i) => {
                                proof {
                                    assert(spec_parse(t@, pos as int, pre) == spec_parse(
                                        t@,
                                        i as int,
                                        pre.drop_first(),
                                    ));
                                }
                                pos = i;
                            },
                        }
                    },
                    _ => {
                        proof {
                            assert(spec_parse(t@, pos as int, pre) is None);
                        }
                        return None;
                    },
                }
            },
            Shape::Grab => {
                if j + 1 >= shapes.len() {
                    proof {
                        assert(pre.len() < 2);
                        assert(spec_parse(t@, pos as int, pre) is None);
                    }
                    return None;
                }
                proof {
                    assert(pre[1] == all[j + 1]);
                    assert(all[j + 1] == shapes@[j + 1]@);
                }
                let nx = &shapes[j + 1];
                match nx {
                    Shape::Lit(d) => {
                        let dv = chars_of(d.as_str());
                        if dv.len() == 0 {
                            proof {
                                assert(spec_parse(t@, pos as int, pre) is None);
                            }
                            return None;
                        }
                        match find_from(t, pos, &dv) {
                            None => {
                                proof {
                                    assert(spec_parse(t@, pos as int, pre) is None);
                                }
                                return None;
                            },
                            Some(i) => {
                                match unescape_range(t, pos, i) {
                                    None => {
                                        proof {
                                            assert(spec_parse(t@, pos as int, pre) is None);
                                        }
                                        return None;
                                    },
                                    Some(u) => {
                                        acc.push(u);
                                        proof {
                                            let f = unescape_seq(
                                                t@.subrange(pos as int, i as int),
                                            ).unwrap();
                                            assert(strs_view(acc@) =~= strs_view(acc0).push(u@));
                                            assert(u@ == f);
                                            match spec_parse(t@, i as int, pre.drop_first()) {
                                                Some(p) => {
                                                    assert(strs_view(acc0) + (seq![f] + p.0)
                                                        =~= strs_view(acc@) + p.0);
                                                },
                                                None => {},
                                            }
                                        }
                                        pos = i;
                                    },
                                }
                            },
                        }
                    },
                    _ => {
                        proof {
                            assert(spec_parse(t@, pos as int, pre) is None);
                        }
                        return None;
                    },
                }
            },
        }
        j = j + 1;
    }
    proof {
        assert(all.skip(shapes@.len() as int) =~= Seq::<ShapeV>::empty());
        assert(strs_view(acc@) + Seq::<Seq<char>>::empty() =~= strs_view(acc@));
    }
    Some((acc, pos))
}

/// A document as an alternating list: before each text value its leading
/// literal, and one closing literal after the last value.
pub open spec fn doc_segs(lits: Seq<Seq<char>>, vals: Seq<Seq<char>>, tail: Seq<char>) -> Seq<SegV>
    decreases lits.len(),
{
    if lits.len() == 0 || vals.len() == 0 {
        seq![SegV::Lit(tail)]
    } else {
        seq![SegV::Lit(lits[0]), SegV::Text(vals[0])] + doc_segs(
            lits.drop_first(),
            vals.drop_first(),
            tail,
        )
    }
}

/// The reader's shapes for such a document: every text value is kept.
pub open spec fn doc_shapes(lits: Seq<Seq<char>>, tail: Seq<char>) -> Seq<ShapeV>
    decreases lits.len(),
{
    if lits.len() == 0 {
        seq![ShapeV::Lit(tail)]
    } else {
        seq![ShapeV::Lit(lits[0]), ShapeV::Grab] + doc_shapes(lits.drop_first(), tail)
    }
}

/// Every literal that follows a text value can serve as its delimiter.
pub open spec fn delims_ok(lits: Seq<Seq<char>>, tail: Seq<char>) -> bool {
    &&& delim_ok(tail)
    &&& forall|k: int| 1 <= k < lits.len() ==> delim_ok(lits[k])
}

pub proof fn lemma_doc_match(lits: Seq<Seq<char>>, vals: Seq<Seq<char>>, tail: Seq<char>)
    requires
        lits.len() == vals.len(),
        delims_ok(lits, tail),
    ensures
        shapes_match(doc_shapes(lits, tail), doc_segs(lits, vals, tail)),
    decreases lits.len(),
{
    let shapes = doc_shapes(lits, tail);
    let segs = doc_segs(lits, vals, tail);
    if lits.len() == 0 {
        assert(seg_fits(shapes, segs, 0));
        assert forall|j: int| 0 <= j < shapes.len() implies seg_fits(shapes, segs, j) by {
            assert(j == 0);
        }
    } else {
        let lits2 = lits.drop_first();
        let vals2 = vals.drop_first();
        assert(delims_ok(lits2, tail)) by {
            assert forall|k: int| 1 <= k < lits2.len() implies delim_ok(lits2[k]) by {
                assert(lits2[k] == lits[k + 1]);
            }
        }
        lemma_doc_match(lits2, vals2, tail);
        let shapes2 = doc_shapes(lits2, tail);
        let segs2 = doc_segs(lits2, vals2, tail);
        assert(shapes == seq![ShapeV::Lit(lits[0]), ShapeV::Grab] + shapes2);
        assert(segs == seq![SegV::Lit(lits[0]), SegV::Text(vals[0])] + segs2);
        assert(shapes2.len() >= 1);
        assert forall|j: int| 0 <= j < shapes.len() implies seg_fits(shapes, segs, j) by {
            if j == 0 {
                assert(shapes[0] == ShapeV::Lit(lits[0]));
                assert(segs[0] == SegV::Lit(lits[0]));
            } else if j == 1 {
                assert(shapes[1] == ShapeV::Grab);
                assert(segs[1] == SegV::Text(vals[0]));
                assert(shapes[2] == shapes2[0]);
                assert(segs[2] == segs2[0]);
                if lits2.len() == 0 {
                    assert(shapes2[0] == ShapeV::Lit(tail));
                    assert(segs2[0] == SegV::Lit(tail));
                } else {
                    assert(shapes2[0] == ShapeV::Lit(lits2[0]));
                    assert(segs2[0] == SegV::Lit(lits2[0]));
                    assert(delim_ok(lits2[0])) by {
                        assert(lits2[0] == lits[1]);
                    }
                }
            } else {
                assert(seg_fits(shapes2, segs2, j - 2));
                assert(shapes[j] == shapes2[j - 2]);
                assert(segs[j] == segs2[j - 2]);
                if j + 1 < shapes.len() {
                    assert(shapes[j + 1] == shapes2[j - 1]);
                    assert(segs[j + 1] == segs2[j - 1]);
                }
            }
        }
    }
}

pub proof fn lemma_doc_grabbed(lits: Seq<Seq<char>>, vals: Seq<Seq<char>>, tail: Seq<char>)
    requires
        lits.len() == vals.len(),
    ensures
        grabbed(doc_shapes(lits, tail), doc_segs(lits, vals, tail)) == vals,
    decreases lits.len(),
{
    let shapes = doc_shapes(lits, tail);
    let segs = doc_segs(lits, vals, tail);
    if lits.len() == 0 {
        assert(shapes[0] == ShapeV::Lit(tail));
        assert(grabbed(shapes, segs) == grabbed(shapes.drop_first(), segs.drop_first()));
        assert(shapes.drop_first().len() == 0);
        assert(grabbed(shapes.drop_first(), segs.drop_first()) == Seq::<Seq<char>>::empty());
        assert(grabbed(shapes, segs) =~= vals);
    } else {
        let lits2 = lits.drop_first();
        let vals2 = vals.drop_first();
        lemma_doc_grabbed(lits2, vals2, tail);
        let shapes2 = doc_shapes(lits2, tail);
        let segs2 = doc_segs(lits2, vals2, tail);
        assert(shapes == seq![ShapeV::Lit(lits[0]), ShapeV::Grab] + shapes2);
        assert(segs == seq![SegV::Lit(lits[0]), SegV::Text(vals[0])] + segs2);
        assert(shapes[0] == ShapeV::Lit(lits[0]));
        assert(grabbed(shapes, segs) == grabbed(shapes.drop_first(), segs.drop_first()));
        assert(shapes.drop_first() =~= seq![ShapeV::Grab] + shapes2);
        assert(segs.drop_first() =~= seq![SegV::Text(vals[0])] + segs2);
        assert((seq![ShapeV::Grab] + shapes2)[0] == ShapeV::Grab);
        assert((seq![SegV::Text(vals[0])] + segs2)[0] == SegV::Text(vals[0]));
        assert((seq![ShapeV::Grab] + shapes2).drop_first() =~= shapes2);
        assert((seq![SegV::Text(vals[0])] + segs2).drop_first() =~= segs2);
        assert(grabbed(seq![ShapeV::Grab] + shapes2, seq![SegV::Text(vals[0])] + segs2) == seq![
            vals[0],
        ] + grabbed(shapes2, segs2));
        assert(seq![vals[0]] + vals2 =~= vals);
    }
}

/// Reading a rendered alternating document returns exactly its text values.
pub proof fn lemma_parse_doc(
    t: Seq<char>,
    pos: int,
    lits: Seq<Seq<char>>,
    vals: Seq<Seq<char>>,
    tail: Seq<char>,
    rest: Seq<char>,
)
    requires
        0 <= pos <= t.len(),
        lits.len() == vals.len(),
        delims_ok(lits, tail),
        t.subrange(pos, t.len() as int) == spec_render(doc_segs(lits, vals, tail)) + rest,
    ensures
        spec_parse(t, pos, doc_shapes(lits, tail)) == Some(
            (vals, pos + spec_render(doc_segs(lits, vals, tail)).len()),
        ),
{
    lemma_doc_match(lits, vals, tail);
    lemma_parse_render(t, pos, doc_shapes(lits, tail), doc_segs(lits, vals, tail), rest);
    lemma_doc_grabbed(lits, vals, tail);
}

/// Builds the shape list of an alternating document.
pub fn doc_shapes_vec(lits: &Vec<String>, idx: usize, tail: &str) -> (r: Vec<Shape>)
    requires
        idx <= lits@.len(),
    ensures
        shape_views(r@) == doc_shapes(strs_view(lits@).skip(idx as int), tail@),
    decreases lits@.len() - idx,
{
    if idx == lits.len() {
        let mut v: Vec<Shape> = Vec::new();
        v.push(Shape::Lit(String::from_str(tail)));
        proof {
            assert(strs_view(lits@).skip(idx as int) =~= Seq::<Seq<char>>::empty());
            assert(shape_views(v@) =~= seq![ShapeV::Lit(tail@)]);
        }
        v
    } else {
        let mut rest = doc_shapes_vec(lits, idx + 1, tail);
        let mut v: Vec<Shape> = Vec::new();
        v.push(Shape::Lit(lits[idx].clone()));
        v.push(Shape::Grab);
        v.append(&mut rest);
        proof {
            let ls = strs_view(lits@).skip(idx as int);
            assert(ls[0] == lits@[idx as int]@);
            assert(ls.drop_first() =~= strs_view(lits@).skip(idx + 1));
            assert(shape_views(v@) =~= seq![ShapeV::Lit(lits@[idx as int]@), ShapeV::Grab]
                + doc_shapes(strs_view(lits@).skip(idx + 1), tail@));
        }
        v
    }
}

/// Builds the segment list of an alternating document.
pub fn doc_segs_vec(lits: &Vec<String>, vals: &Vec<String>, idx: usize, tail: &str) -> (r: Vec<
    Seg,
>)
    requires
        idx <= lits@.len(),
        lits@.len() == vals@.len(),
    ensures
        seg_views(r@) == doc_segs(
            strs_view(lits@).skip(idx as int),
            strs_view(vals@).skip(idx as int),
            tail@,
        ),
    decreases lits@.len() - idx,
{
    if idx == lits.len() {
        let mut v: Vec<Seg> = Vec::new();
        v.push(Seg::Lit(String::from_str(tail)));
        proof {
            assert(strs_view(lits@).skip(idx as int) =~= Seq::<Seq<char>>::empty());
            assert(seg_views(v@) =~= seq![SegV::Lit(tail@)]);
        }
        v
    } else {
        let mut rest = doc_segs_vec(lits, vals, idx + 1, tail);
        let mut v: Vec<Seg> = Vec::new();
        v.push(Seg::Lit(lits[idx].clone()));
        v.push(Seg::Text(vals[idx].clone()));
        v.append(&mut rest);
        proof {
            let ls = strs_view(lits@).skip(idx as int);
            let vs = strs_view(vals@).skip(idx as int);
            assert(ls[0] == lits@[idx as int]@);
            assert(vs[0] == vals@[idx as int]@);
            assert(ls.drop_first() =~= strs_view(lits@).skip(idx + 1));
            assert(vs.drop_first() =~= strs_view(vals@).skip(idx + 1));
            assert(seg_views(v@) =~= seq![
                SegV::Lit(lits@[idx as int]@),
                SegV::Text(vals@[idx as int]@),
            ] + doc_segs(strs_view(lits@).skip(idx + 1), strs_view(vals@).skip(idx + 1), tail@));
        }
        v
    }
}

} // verus!
