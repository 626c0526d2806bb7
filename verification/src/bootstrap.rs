//! Bootstrap: populating the Feed Cache before the service serves
//! traffic.
//!
//! Startup walks `Uninitialized`, `Populating` with one outstanding
//! render task per existing channel, and `Ready`. A failed render is
//! isolated: the channel is recorded as failed and left out of the cache,
//! and the other channels are unaffected.

use vstd::prelude::*;
use crate::cache::{
    Xml, first_id_pos, lemma_first_id_pos_props, lemma_first_id_pos_push_from, lemma_unique_entry,
};
use crate::records::{Channel, Item};
use crate::feed::{built_from, spec_parse_feed, lemma_round_trip, guids_of};

verus! {

/// Where startup stands.
pub enum BootstrapState {
    Uninitialized,
    Populating { outstanding: usize, cache: Xml, failed: Vec<String> },
    Ready { cache: Xml, failed: Vec<String> },
}

/// Enters population: one render task per existing channel is now
/// outstanding, and the cache starts empty.
pub fn bootstrap_begin(channel_count: usize) -> (r: BootstrapState)
    ensures
        r matches BootstrapState::Populating { outstanding, cache, failed } && outstanding
            == channel_count && cache.wf() && cache.external_ids@.len() == 0 && failed@.len() == 0,
{
    BootstrapState::Populating {
        outstanding: channel_count,
        cache: Xml::new(),
        failed: Vec::new(),
    }
}

/// Records one finished render task. A successful render fills the
/// channel's slot; a failure is recorded and isolated.
pub fn bootstrap_task_done(
    st: BootstrapState,
    external_id: String,
    title: String,
    outcome: Option<String>,
) -> (r: BootstrapState)
    requires
        st matches BootstrapState::Populating { outstanding, cache, .. } && outstanding > 0
            && cache.wf(),
    ensures
        st matches BootstrapState::Populating { outstanding, cache, failed } ==> (r
            matches BootstrapState::Populating { outstanding: o2, cache: c2, failed: f2 } && o2
            == outstanding - 1 && (match outcome {
            Some(doc) => f2@ == failed@ && c2.wf() && (match cache.spec_pos_of_id(external_id@) {
                Some(i) => c2.external_ids == cache.external_ids && c2.titles == cache.titles
                    && c2.buffers@ == cache.buffers@.update(i, doc),
                None => c2.external_ids@ == cache.external_ids@.push(external_id) && c2.titles@
                    == cache.titles@.push(title) && c2.buffers@ == cache.buffers@.push(doc),
            }),
            None => c2 == cache && f2@ == failed@.push(external_id),
        })),
{
    match st {
        BootstrapState::Populating { outstanding, cache, failed } => {
            let mut cache = cache;
            let mut failed = failed;
            match outcome {
                Some(doc) => {
                    cache.upsert(external_id, title, doc);
                },
                None => {
                    failed.push(external_id);
                },
            }
            BootstrapState::Populating { outstanding: outstanding - 1, cache, failed }
        },
        _ => {
            proof {
                assert(false);
            }
            st
        },
    }
}

/// Completes bootstrap once every task has reported: the service may now
/// serve traffic with the surviving channels cached.
pub fn bootstrap_finish(st: BootstrapState) -> (r: BootstrapState)
    requires
        st matches BootstrapState::Populating { outstanding, .. } && outstanding == 0,
    ensures
        st matches BootstrapState::Populating { cache, failed, .. } ==> r == (BootstrapState::Ready {
            cache,
            failed,
        }),
{
    match st {
        BootstrapState::Populating { outstanding: _, cache, failed } => BootstrapState::Ready {
            cache,
            failed,
        },
        _ => {
            proof {
                assert(false);
            }
            st
        },
    }
}

/// Each channel's outcome is reflected in the cache and failure list.
pub open spec fn collected_ok(
    channels: Seq<Channel>,
    rendered: Seq<Option<String>>,
    c: Xml,
    failed: Seq<String>,
) -> bool {
    forall|i: int|
        0 <= i < channels.len() ==> match #[trigger] rendered[i] {
            Some(doc) => c.spec_pos_of_id(channels[i].external_id@) matches Some(p)
                && c.buffers@[p]@ == doc@ && c.titles@[p]@ == channels[i].title@,
            None => c.spec_pos_of_id(channels[i].external_id@) is None && exists|q: int|
                0 <= q < failed.len() && failed[q]@ == channels[i].external_id@,
        }
}

/// Builds the cache from each channel's render outcome: a channel whose
/// render succeeded holds exactly its rendered document in its one slot;
/// a channel whose render failed has no slot and stands in the failure
/// list.
pub fn bootstrap_collect(channels: &Vec<Channel>, rendered: &Vec<Option<String>>) -> (r: (
    Xml,
    Vec<String>,
))
    requires
        channels@.len() == rendered@.len(),
        forall|i: int, j: int|
            0 <= i < j < channels@.len() ==> channels@[i].external_id@
                != channels@[j].external_id@,
    ensures
        r.0.wf(),
        collected_ok(channels@, rendered@, r.0, r.1@),
{
    let mut cache = Xml::new();
    let mut failed: Vec<String> = Vec::new();
    let mut i: usize = 0;
    proof {
        assert forall|k: int| 0 <= k < channels@.len() implies cache.spec_pos_of_id(
            channels@[k].external_id@,
        ) is None by {
            lemma_first_id_pos_props(cache.external_ids@, channels@[k].external_id@, 0);
        }
    }
    while i < channels.len()
        invariant
            channels@.len() == rendered@.len(),
            forall|a: int, b: int|
                0 <= a < b < channels@.len() ==> channels@[a].external_id@
                    != channels@[b].external_id@,
            i <= channels@.len(),
            cache.wf(),
            forall|k: int|
                0 <= k < i ==> match #[trigger] rendered@[k] {
                    Some(doc) => cache.spec_pos_of_id(channels@[k].external_id@) matches Some(p)
                        && cache.buffers@[p]@ == doc@ && cache.titles@[p]@ == channels@[k].title@,
                    None => cache.spec_pos_of_id(channels@[k].external_id@) is None && exists|
                        q: int,
                    | 0 <= q < failed@.len() && failed@[q]@ == channels@[k].external_id@,
                },
            forall|k: int|
                i <= k < channels@.len() ==> cache.spec_pos_of_id(channels@[k].external_id@)
                    is None,
        decreases channels@.len() - i,
    {
        let ghost cache0 = cache;
        let ghost failed0 = failed@;
        let ch = &channels[i];
        match &rendered[i] {
            Some(doc) => {
                let res = cache.insert(ch.external_id.clone(), ch.title.clone(), doc.clone());
                proof {
                    assert(res is Ok);
                    let x = channels@[i as int].external_id@;
                    let n = cache0.external_ids@.len() as int;
                    assert forall|k: int| 0 <= k < channels@.len() implies (first_id_pos(
                        cache.external_ids@,
                        channels@[k].external_id@,
                        0,
                    ) == (match first_id_pos(
                        cache0.external_ids@,
                        channels@[k].external_id@,
                        0,
                    ) {
                        Some(p) => Some(p),
                        None => if x == channels@[k].external_id@ {
                            Some(n)
                        } else {
                            None::<int>
                        },
                    })) by {
                        lemma_first_id_pos_push_from(
                            cache0.external_ids@,
                            cache.external_ids@.last(),
                            channels@[k].external_id@,
                            0,
                        );
                        assert(cache0.external_ids@.push(cache.external_ids@.last())
                            =~= cache.external_ids@);
                        assert(cache.external_ids@.last()@ == x);
                    }
                    assert forall|k: int| 0 <= k < i + 1 implies (match #[trigger] rendered@[k] {
                        Some(doc2) => cache.spec_pos_of_id(channels@[k].external_id@)
                            matches Some(p) && cache.buffers@[p]@ == doc2@ && cache.titles@[p]@
                            == channels@[k].title@,
                        None => cache.spec_pos_of_id(channels@[k].external_id@) is None && exists|
                            q: int,
                        | 0 <= q < failed@.len() && failed@[q]@ == channels@[k].external_id@,
                    }) by {
                        lemma_first_id_pos_props(
                            cache0.external_ids@,
                            channels@[k].external_id@,
                            0,
                        );
                        if k < i {
                            match rendered@[k] {
                                Some(doc2) => {
                                    match first_id_pos(
                                        cache0.external_ids@,
                                        channels@[k].external_id@,
                                        0,
                                    ) {
                                        Some(p) => {
                                            assert(p < n);
                                            assert(cache.buffers@[p] == cache0.buffers@[p]);
                                            assert(cache.titles@[p] == cache0.titles@[p]);
                                        },
                                        None => {},
                                    }
                                },
                                None => {
                                    assert(x != channels@[k].external_id@);
                                },
                            }
                        } else {
                            assert(first_id_pos(
                                cache0.external_ids@,
                                channels@[k].external_id@,
                                0,
                            ) is None);
                            assert(cache.spec_pos_of_id(x) == Some(n));
                            assert(cache.buffers@[n]@ == rendered@[i as int].unwrap()@);
                            assert(cache.titles@[n]@ == channels@[i as int].title@);
                        }
                    }
                    assert forall|k: int| i + 1 <= k < channels@.len() implies cache.spec_pos_of_id(
                        channels@[k].external_id@,
                    ) is None by {
                        assert(x != channels@[k].external_id@);
                        assert(first_id_pos(
                            cache0.external_ids@,
                            channels@[k].external_id@,
                            0,
                        ) is None);
                    }
                }
            },
            None => {
                failed.push(ch.external_id.clone());
                proof {
                    assert forall|k: int|
                        0 <= k < i + 1 && rendered@[k] is None implies exists|q: int|
                        0 <= q < failed@.len() && failed@[q]@ == channels@[k].external_id@ by {
                        if k < i {
                            let q = choose|q: int|
                                0 <= q < failed0.len() && failed0[q]@
                                    == channels@[k].external_id@;
                            assert(failed@[q]@ == channels@[k].external_id@);
                        } else {
                            assert(failed@[failed0.len() as int]@ == channels@[k].external_id@);
                        }
                    }
                }
            },
        }
        i = i + 1;
    }
    proof {
        assert(collected_ok(channels@, rendered@, cache, failed@)) by {
            assert forall|w: int| 0 <= w < channels@.len() implies (match #[trigger] rendered@[w] {
                Some(doc) => cache.spec_pos_of_id(channels@[w].external_id@) matches Some(p)
                    && cache.buffers@[p]@ == doc@ && cache.titles@[p]@ == channels@[w].title@,
                None => cache.spec_pos_of_id(channels@[w].external_id@) is None && exists|q: int|
                    0 <= q < failed@.len() && failed@[q]@ == channels@[w].external_id@,
            }) by {
                assert(0 <= w < i);
            }
        }
    }
    (cache, failed)
}

/// For every channel cached at `Ready`: the cache holds exactly one
/// document for it, and that document reads back as a feed document.
pub proof fn lemma_ready_document(c: Xml, ch: Channel, eps: Seq<Item>, doc: Seq<char>)
    requires
        c.wf(),
        c.has_id(ch.external_id@),
        c.spec_pos_of_id(ch.external_id@) matches Some(i) ==> c.buffers@[i]@ == doc,
        built_from(doc, ch, eps),
    ensures
        c.spec_pos_of_id(ch.external_id@) matches Some(i) ==> c.external_ids@[i]@
            == ch.external_id@ && forall|j: int|
            0 <= j < c.external_ids@.len() && c.external_ids@[j]@ == ch.external_id@ ==> j == i,
        spec_parse_feed(doc) is Some,
        spec_parse_feed(doc) matches Some(p) ==> p.0 == ch.title@ && p.2.to_set() == guids_of(
            eps,
        ).to_set(),
{
    lemma_unique_entry(c, ch.external_id@);
    lemma_round_trip(doc, ch, eps);
}

} // verus!
