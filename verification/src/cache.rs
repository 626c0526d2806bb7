//! The Feed Cache: one rendered document per channel, looked up by
//! external id or, case-insensitively, by title. Replacement is a single
//! swap of one slot; a reader never sees a half-written document.

use vstd::prelude::*;
use crate::text::{str_eq, lowercase, lower_of, normalize_title, spec_normalize_title};

verus! {

/// One rendered feed document: the channel it belongs to, the title it is
/// looked up by, and the full document text.
#[derive(Debug)]
pub struct FeedDocument {
    pub external_id: String,
    pub title: String,
    pub body: String,
}

/// Why a cache write was refused.
#[derive(PartialEq, Eq, Structural, Clone, Copy, Debug)]
pub enum CacheError {
    NotFound,
    AlreadyExists,
}

/// The first position at or after `from` whose id reads `id`.
pub open spec fn first_id_pos(ids: Seq<String>, id: Seq<char>, from: int) -> Option<int>
    decreases ids.len() - from,
    when 0 <= from
{
    if from >= ids.len() {
        None
    } else if ids[from]@ == id {
        Some(from)
    } else {
        first_id_pos(ids, id, from + 1)
    }
}

/// The first position at or after `from` whose folded title reads `folded`.
pub open spec fn first_title_pos(titles: Seq<String>, folded: Seq<char>, from: int) -> Option<int>
    decreases titles.len() - from,
    when 0 <= from
{
    if from >= titles.len() {
        None
    } else if lower_of(titles[from]@) == folded {
        Some(from)
    } else {
        first_title_pos(titles, folded, from + 1)
    }
}

pub proof fn lemma_first_id_pos_props(ids: Seq<String>, id: Seq<char>, from: int)
    requires
        0 <= from,
    ensures
        match first_id_pos(ids, id, from) {
            Some(i) => from <= i < ids.len() && ids[i]@ == id && forall|k: int|
                from <= k < i ==> ids[k]@ != id,
            None => forall|k: int| from <= k < ids.len() ==> ids[k]@ != id,
        },
    decreases ids.len() - from,
{
    if from >= ids.len() {
    } else if ids[from]@ == id {
    } else {
        lemma_first_id_pos_props(ids, id, from + 1);
    }
}

/// The feed cache. The three vectors run in step: position `i` holds the
/// external id, the title and the rendered document of one channel.
pub struct Xml {
    pub external_ids: Vec<String>,
    pub titles: Vec<String>,
    pub buffers: Vec<String>,
}

impl Xml {
    /// The three columns have the same length and no external id repeats.
    pub open spec fn wf(self) -> bool {
        &&& self.titles@.len() == self.external_ids@.len()
        &&& self.buffers@.len() == self.external_ids@.len()
        &&& forall|i: int, j: int|
            0 <= i < j < self.external_ids@.len() ==> self.external_ids@[i]@
                != self.external_ids@[j]@
    }

    /// The slot of the channel with this external id, if any.
    pub open spec fn spec_pos_of_id(self, id: Seq<char>) -> Option<int> {
        first_id_pos(self.external_ids@, id, 0)
    }

    /// The slot of the channel with this folded title, if any.
    pub open spec fn spec_pos_of_title(self, folded: Seq<char>) -> Option<int> {
        first_title_pos(self.titles@, folded, 0)
    }

    /// A slot for this external id exists.
    pub open spec fn has_id(self, id: Seq<char>) -> bool {
        exists|i: int| 0 <= i < self.external_ids@.len() && self.external_ids@[i]@ == id
    }

    /// An empty cache.
    pub fn new() -> (r: Xml)
        ensures
            r.wf(),
            r.external_ids@.len() == 0,
    {
        Xml { external_ids: Vec::new(), titles: Vec::new(), buffers: Vec::new() }
    }

    /// The slot of the channel with the requested external id.
    pub fn get_vec_pos(&self, requested_id: &str) -> (r: Option<usize>)
        ensures
            match r {
                Some(i) => self.spec_pos_of_id(requested_id@) == Some(i as int) && i
                    < self.external_ids@.len(),
                None => self.spec_pos_of_id(requested_id@) is None,
            },
    {
        let mut i: usize = 0;
        while i < self.external_ids.len()
            invariant
                i <= self.external_ids@.len(),
                first_id_pos(self.external_ids@, requested_id@, 0) == first_id_pos(
                    self.external_ids@,
                    requested_id@,
                    i as int,
                ),
            decreases self.external_ids@.len() - i,
        {
            if str_eq(self.external_ids[i].as_str(), requested_id) {
                return Some(i);
            }
            i = i + 1;
        }
        None
    }

    /// The slot of the channel whose title matches case-insensitively.
    pub fn get_vec_pos_by_title(&self, requested_title: &str) -> (r: Option<usize>)
        ensures
            match r {
                Some(i) => self.spec_pos_of_title(lower_of(requested_title@)) == Some(i as int)
                    && i < self.titles@.len(),
                None => self.spec_pos_of_title(lower_of(requested_title@)) is None,
            },
    {
        let folded = lowercase(requested_title);
        let mut i: usize = 0;
        while i < self.titles.len()
            invariant
                folded@ == lower_of(requested_title@),
                i <= self.titles@.len(),
                first_title_pos(self.titles@, folded@, 0) == first_title_pos(
                    self.titles@,
                    folded@,
                    i as int,
                ),
            decreases self.titles@.len() - i,
        {
            let t = lowercase(self.titles[i].as_str());
            if str_eq(t.as_str(), folded.as_str()) {
                return Some(i);
            }
            i = i + 1;
        }
        None
    }

    /// The document of the channel with this external id.
    pub fn get_by_id(&self, external_id: &str) -> (r: Option<FeedDocument>)
        requires
            self.wf(),
        ensures
            match r {
                Some(d) => self.spec_pos_of_id(external_id@) matches Some(i) && d.external_id@
                    == self.external_ids@[i]@ && d.title@ == self.titles@[i]@ && d.body@
                    == self.buffers@[i]@,
                None => self.spec_pos_of_id(external_id@) is None,
            },
    {
        match self.get_vec_pos(external_id) {
            Some(i) => Some(
                FeedDocument {
                    external_id: self.external_ids[i].clone(),
                    title: self.titles[i].clone(),
                    body: self.buffers[i].clone(),
                },
            ),
            None => None,
        }
    }

    /// The document of the channel with this title, case-insensitively.
    pub fn get_by_title(&self, title: &str) -> (r: Option<FeedDocument>)
        requires
            self.wf(),
        ensures
            match r {
                Some(d) => self.spec_pos_of_title(lower_of(title@)) matches Some(i)
                    && d.external_id@ == self.external_ids@[i]@ && d.title@ == self.titles@[i]@
                    && d.body@ == self.buffers@[i]@,
                None => self.spec_pos_of_title(lower_of(title@)) is None,
            },
    {
        match self.get_vec_pos_by_title(title) {
            Some(i) => Some(
                FeedDocument {
                    external_id: self.external_ids[i].clone(),
                    title: self.titles[i].clone(),
                    body: self.buffers[i].clone(),
                },
            ),
            None => None,
        }
    }

    /// The served document for a request-path title: hyphens become
    /// spaces, then the title is matched case-insensitively.
    pub open spec fn spec_get_feed(self, raw_title: Seq<char>) -> Option<Seq<char>> {
        match self.spec_pos_of_title(lower_of(spec_normalize_title(raw_title))) {
            Some(i) => Some(self.buffers@[i]@),
            None => None,
        }
    }

    /// Serves the feed for a request-path title.
    pub fn get_feed(&self, raw_title: &str) -> (r: Option<String>)
        requires
            self.wf(),
        ensures
            match r {
                Some(b) => self.spec_get_feed(raw_title@) == Some(b@),
                None => self.spec_get_feed(raw_title@) is None,
            },
    {
        let norm = normalize_title(raw_title);
        match self.get_vec_pos_by_title(norm.as_str()) {
            Some(i) => Some(self.buffers[i].clone()),
            None => None,
        }
    }

    /// Atomically swaps the document of an existing channel; refuses the
    /// write when no slot for the id exists.
    pub fn replace(&mut self, external_id: &str, document: String) -> (r: Result<(), CacheError>)
        requires
            old(self).wf(),
        ensures
            final(self).external_ids == old(self).external_ids,
            final(self).titles == old(self).titles,
            match r {
                Ok(()) => old(self).spec_pos_of_id(external_id@) matches Some(i) && final(self).buffers@ == old(self).buffers@.update(i, document),
                Err(e) => e == CacheError::NotFound && old(self).spec_pos_of_id(external_id@)
                    is None && final(self).buffers == old(self).buffers,
            },
            final(self).wf(),
    {
        match self.get_vec_pos(external_id) {
            Some(i) => {
                self.buffers.set(i, document);
                Ok(())
            },
            None => Err(CacheError::NotFound),
        }
    }

    /// Adds a slot for a new channel; refuses the write when a slot for
    /// the id already exists.
    pub fn insert(&mut self, external_id: String, title: String, document: String) -> (r: Result<
        (),
        CacheError,
    >)
        ensures
            match r {
                Ok(()) => old(self).spec_pos_of_id(external_id@) is None && final(self).external_ids@ == old(self).external_ids@.push(external_id) && final(self).titles@
                    == old(self).titles@.push(title) && final(self).buffers@ == old(self).buffers@.push(document),
                Err(e) => e == CacheError::AlreadyExists && old(self).spec_pos_of_id(external_id@)
                    is Some && *final(self) == *old(self),
            },
            old(self).wf() ==> final(self).wf(),
    {
        match self.get_vec_pos(external_id.as_str()) {
            Some(_) => Err(CacheError::AlreadyExists),
            None => {
                proof {
                    lemma_first_id_pos_props(self.external_ids@, external_id@, 0);
                }
                let ghost olds = *self;
                self.external_ids.push(external_id);
                self.titles.push(title);
                self.buffers.push(document);
                proof {
                    if olds.wf() {
                        assert forall|i: int, j: int|
                            0 <= i < j < self.external_ids@.len() implies self.external_ids@[i]@
                            != self.external_ids@[j]@ by {
                            if j < olds.external_ids@.len() {
                                assert(self.external_ids@[i] == olds.external_ids@[i]);
                                assert(self.external_ids@[j] == olds.external_ids@[j]);
                            } else {
                                assert(self.external_ids@[i] == olds.external_ids@[i]);
                            }
                        }
                    }
                }
                Ok(())
            },
        }
    }

    /// Replaces the document of the channel, or creates its slot when the
    /// channel is new.
    pub fn upsert(&mut self, external_id: String, title: String, document: String)
        requires
            old(self).wf(),
        ensures
            match old(self).spec_pos_of_id(external_id@) {
                Some(i) => final(self).external_ids == old(self).external_ids && final(self).titles
                    == old(self).titles && final(self).buffers@ == old(self).buffers@.update(
                    i,
                    document,
                ),
                None => final(self).external_ids@ == old(self).external_ids@.push(external_id)
                    && final(self).titles@ == old(self).titles@.push(title) && final(self).buffers@
                    == old(self).buffers@.push(document),
            },
            final(self).wf(),
    {
        match self.get_vec_pos(external_id.as_str()) {
            Some(i) => {
                self.buffers.set(i, document);
            },
            None => {
                let r = self.insert(external_id, title, document);
                proof {
                    assert(r is Ok);
                }
            },
        }
    }
}

/// Two reads of the same title with no intervening write return
/// byte-identical documents.
pub proof fn lemma_get_feed_idempotent(
    c: Xml,
    raw_title: Seq<char>,
    r1: Option<Seq<char>>,
    r2: Option<Seq<char>>,
)
    requires
        r1 == c.spec_get_feed(raw_title),
        r2 == c.spec_get_feed(raw_title),
    ensures
        r1 == r2,
{
}

/// In a well-formed cache a channel has exactly one slot: the one its
/// lookup returns.
pub proof fn lemma_unique_entry(c: Xml, id: Seq<char>)
    requires
        c.wf(),
        c.has_id(id),
    ensures
        c.spec_pos_of_id(id) matches Some(i) ==> c.external_ids@[i]@ == id && forall|j: int|
            0 <= j < c.external_ids@.len() && c.external_ids@[j]@ == id ==> j == i,
        c.spec_pos_of_id(id) is Some,
{
    lemma_first_id_pos_props(c.external_ids@, id, 0);
    let w = choose|w: int| 0 <= w < c.external_ids@.len() && c.external_ids@[w]@ == id;
    match c.spec_pos_of_id(id) {
        Some(i) => {
            assert forall|j: int|
                0 <= j < c.external_ids@.len() && c.external_ids@[j]@ == id implies j == i by {
                if j < i {
                    assert(c.external_ids@[j]@ != id);
                } else if i < j {
                    assert(c.external_ids@[i]@ != c.external_ids@[j]@);
                }
            }
        },
        None => {
            assert(c.external_ids@[w]@ != id);
        },
    }
}

/// Replacements for two distinct channels land in distinct slots, so the
/// completion order does not matter: either order leaves the same cache.
pub proof fn lemma_replace_distinct_commute(
    c: Xml,
    id1: Seq<char>,
    d1: String,
    id2: Seq<char>,
    d2: String,
)
    requires
        c.wf(),
        id1 != id2,
        c.spec_pos_of_id(id1) is Some,
        c.spec_pos_of_id(id2) is Some,
    ensures
        c.spec_pos_of_id(id1) matches Some(i1) ==> (c.spec_pos_of_id(id2) matches Some(i2) ==> i1
            != i2 && c.buffers@.update(i1, d1).update(i2, d2) == c.buffers@.update(i2, d2).update(
            i1,
            d1,
        )),
{
    lemma_first_id_pos_props(c.external_ids@, id1, 0);
    lemma_first_id_pos_props(c.external_ids@, id2, 0);
    match (c.spec_pos_of_id(id1), c.spec_pos_of_id(id2)) {
        (Some(i1), Some(i2)) => {
            assert(c.external_ids@[i1]@ == id1);
            assert(c.external_ids@[i2]@ == id2);
            assert(i1 != i2);
            assert(c.buffers@.update(i1, d1).update(i2, d2) =~= c.buffers@.update(i2, d2).update(
                i1,
                d1,
            ));
        },
        _ => {},
    }
}

/// Serialized replacements for one channel converge to the last write.
pub proof fn lemma_replace_last_write_wins(c: Xml, id: Seq<char>, d1: String, d2: String)
    requires
        c.wf(),
        c.spec_pos_of_id(id) is Some,
    ensures
        c.spec_pos_of_id(id) matches Some(i) ==> c.buffers@.update(i, d1).update(i, d2)
            == c.buffers@.update(i, d2),
{
    match c.spec_pos_of_id(id) {
        Some(i) => {
            lemma_first_id_pos_props(c.external_ids@, id, 0);
            assert(c.buffers@.update(i, d1).update(i, d2) =~= c.buffers@.update(i, d2));
        },
        None => {},
    }
}

/// A replacement in one channel's slot leaves every other channel's
/// document untouched.
pub proof fn lemma_replace_frame(c: Xml, id: Seq<char>, d: String, other: Seq<char>)
    requires
        c.wf(),
        id != other,
        c.spec_pos_of_id(id) is Some,
        c.spec_pos_of_id(other) is Some,
    ensures
        c.spec_pos_of_id(id) matches Some(i) ==> (c.spec_pos_of_id(other) matches Some(j)
            ==> c.buffers@.update(i, d)[j] == c.buffers@[j]),
{
    lemma_first_id_pos_props(c.external_ids@, id, 0);
    lemma_first_id_pos_props(c.external_ids@, other, 0);
}

/// Appending a slot moves no existing slot: a present id keeps its
/// position, and an absent id appears only if the new slot carries it.
pub proof fn lemma_first_id_pos_push_from(ids: Seq<String>, x: String, id: Seq<char>, from: int)
    requires
        0 <= from <= ids.len(),
    ensures
        first_id_pos(ids.push(x), id, from) == (match first_id_pos(ids, id, from) {
            Some(i) => Some(i),
            None => if x@ == id {
                Some(ids.len() as int)
            } else {
                None::<int>
            },
        }),
    decreases ids.len() - from,
{
    assert(ids.push(x).len() == ids.len() + 1);
    if from == ids.len() {
        assert(ids.push(x)[from] == x);
        assert(first_id_pos(ids, id, from) is None);
        if x@ == id {
        } else {
            assert(first_id_pos(ids.push(x), id, from + 1) is None);
        }
    } else {
        assert(ids.push(x)[from] == ids[from]);
        if ids[from]@ == id {
        } else {
            lemma_first_id_pos_push_from(ids, x, id, from + 1);
        }
    }
}

} // verus!
