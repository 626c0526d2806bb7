//! Channel and episode metadata records, the upload request that carries
//! them, and the small rules the feed builder applies to episodes: which
//! duration fields count as missing, and the explicit rendering order.

use vstd::prelude::*;
use vstd::multiset::Multiset;
use crate::text::str_eq;
use vstd::string::StrSliceExecFns;

verus! {

/// A channel record, unique per `external_id`; `title` serves
/// case-insensitive human-facing lookup.
#[derive(Debug)]
pub struct Channel {
    pub id: i32,
    pub external_id: String,
    pub title: String,
    pub category: String,
    pub description: String,
    pub managing_editor: String,
    pub generator: String,
    pub image_url: String,
    pub image_title: String,
    pub image_link: String,
    pub image_width: i32,
    pub image_height: i32,
    pub language: String,
    pub last_build_date: String,
    pub pub_date: String,
    pub c_link: String,
    pub itunes_new_feed_url: String,
    pub itunes_explicit: bool,
    pub itunes_owner_name: String,
    pub itunes_owner_email: String,
    pub sy_update_period: String,
    pub sy_update_frequency: String,
}

impl Clone for Channel {
    fn clone(&self) -> (r: Self)
        ensures
            r == *self,
    {
        Channel {
            id: self.id,
            external_id: self.external_id.clone(),
            title: self.title.clone(),
            category: self.category.clone(),
            description: self.description.clone(),
            managing_editor: self.managing_editor.clone(),
            generator: self.generator.clone(),
            image_url: self.image_url.clone(),
            image_title: self.image_title.clone(),
            image_link: self.image_link.clone(),
            image_width: self.image_width,
            image_height: self.image_height,
            language: self.language.clone(),
            last_build_date: self.last_build_date.clone(),
            pub_date: self.pub_date.clone(),
            c_link: self.c_link.clone(),
            itunes_new_feed_url: self.itunes_new_feed_url.clone(),
            itunes_explicit: self.itunes_explicit,
            itunes_owner_name: self.itunes_owner_name.clone(),
            itunes_owner_email: self.itunes_owner_email.clone(),
            sy_update_period: self.sy_update_period.clone(),
            sy_update_frequency: self.sy_update_frequency.clone(),
        }
    }
}

/// An episode record; `channel_id` names the owning channel's external id,
/// and `id` doubles as the document guid and the object-store key stem.
#[derive(Debug)]
pub struct Item {
    pub id: String,
    pub channel_id: String,
    pub ep_number: i32,
    pub title: String,
    pub author: String,
    pub category: String,
    pub description: String,
    pub content_encoded: String,
    pub enclosure_url: String,
    pub enclosure_type: String,
    pub enclosure_length: String,
    pub i_link: String,
    pub pub_date: String,
    pub itunes_subtitle: String,
    pub itunes_image: String,
    pub itunes_duration: String,
}

impl Clone for Item {
    fn clone(&self) -> (r: Self)
        ensures
            r == *self,
    {
        Item {
            id: self.id.clone(),
            channel_id: self.channel_id.clone(),
            ep_number: self.ep_number,
            title: self.title.clone(),
            author: self.author.clone(),
            category: self.category.clone(),
            description: self.description.clone(),
            content_encoded: self.content_encoded.clone(),
            enclosure_url: self.enclosure_url.clone(),
            enclosure_type: self.enclosure_type.clone(),
            enclosure_length: self.enclosure_length.clone(),
            i_link: self.i_link.clone(),
            pub_date: self.pub_date.clone(),
            itunes_subtitle: self.itunes_subtitle.clone(),
            itunes_image: self.itunes_image.clone(),
            itunes_duration: self.itunes_duration.clone(),
        }
    }
}

/// An episode reference by id, as request handlers receive it.
#[derive(Debug)]
pub struct ItemAbbreviated {
    pub id: String,
    pub channel_id: u8,
}

/// One upload request: the target channel, the episode, and the caller's
/// session token.
#[derive(Debug)]
pub struct PodcastData {
    pub channel: Channel,
    pub item: Item,
    pub session_token: String,
}

impl Clone for PodcastData {
    fn clone(&self) -> (r: Self)
        ensures
            r == *self,
    {
        PodcastData {
            channel: self.channel.clone(),
            item: self.item.clone(),
            session_token: self.session_token.clone(),
        }
    }
}

/// A feed request addressed by channel external id.
#[derive(Debug)]
pub struct XmlRequestForm {
    pub external_id: String,
}

/// The declared channel of the episode matches the target channel.
pub open spec fn spec_ownership_ok(d: PodcastData) -> bool {
    d.channel.external_id@ == d.item.channel_id@
}

/// Checks that the episode belongs to the channel it is uploaded to.
pub fn ownership_ok(d: &PodcastData) -> (b: bool)
    ensures
        b == spec_ownership_ok(*d),
{
    str_eq(d.channel.external_id.as_str(), d.item.channel_id.as_str())
}

/// An episode's duration field counts as missing when it is the sentinel
/// `NONE` or shorter than two characters.
pub open spec fn spec_duration_missing(it: Item) -> bool {
    it.itunes_duration@ == "NONE"@ || it.itunes_duration@.len() < 2
}

/// The duration the feed shows for an episode: blank when missing.
pub open spec fn spec_norm_duration(it: Item) -> Seq<char> {
    if spec_duration_missing(it) {
        Seq::empty()
    } else {
        it.itunes_duration@
    }
}

/// The rendered duration of an episode.
pub fn norm_duration(it: &Item) -> (r: String)
    ensures
        r@ == spec_norm_duration(*it),
{
    if str_eq(it.itunes_duration.as_str(), "NONE") || it.itunes_duration.as_str().unicode_len()
        < 2 {
        String::new()
    } else {
        it.itunes_duration.clone()
    }
}

/// Episodes render newest sequence number first.
pub open spec fn sorted_desc(s: Seq<Item>) -> bool {
    forall|i: int, j: int| 0 <= i < j < s.len() ==> s[i].ep_number >= s[j].ep_number
}

/// Sorts episodes by descending sequence number; the rendering order of
/// the feed is explicit, not the retrieval order.
pub fn sort_episodes_desc(eps: Vec<Item>) -> (r: Vec<Item>)
    ensures
        sorted_desc(r@),
        r@.to_multiset() == eps@.to_multiset(),
{
    broadcast use vstd::seq_lib::group_to_multiset_ensures;

    let mut rest = eps;
    let ghost orig = rest@;
    let mut out: Vec<Item> = Vec::new();
    loop
        invariant
            orig == eps@,
            sorted_desc(out@),
            out@.to_multiset().add(rest@.to_multiset()) == orig.to_multiset(),
        decreases rest@.len(),
    {
        let ghost rest0 = rest@;
        match rest.pop() {
            None => {
                proof {
                    broadcast use vstd::multiset::group_multiset_axioms;

                    vstd::seq_lib::to_multiset_len::<Item>(rest0);
                    vstd::multiset::lemma_multiset_empty_len::<Item>(rest0.to_multiset());
                    assert(rest0.to_multiset().len() == 0);
                    assert(rest0.to_multiset() =~= Multiset::<Item>::empty());
                    assert(out@.to_multiset().add(rest0.to_multiset()) =~= out@.to_multiset());
                }
                return out;
            },
            Some(e) => {
                proof {
                    assert(rest@.push(e) =~= rest0);
                    vstd::seq_lib::to_multiset_build::<Item>(rest@, e);
                    assert(rest@.push(e).to_multiset() =~= rest@.to_multiset().insert(e));
                    assert(rest0.to_multiset() == rest@.to_multiset().insert(e));
                }
                let mut pos: usize = 0;
                while pos < out.len() && out[pos].ep_number >= e.ep_number
                    invariant
                        pos <= out@.len(),
                        forall|k: int| 0 <= k < pos ==> out@[k].ep_number >= e.ep_number,
                    decreases out@.len() - pos,
                {
                    pos = pos + 1;
                }
                let ghost out0 = out@;
                proof {
                    vstd::seq_lib::to_multiset_insert(out0, pos as int, e);
                }
                out.insert(pos, e);
                proof {
                    assert(sorted_desc(out@)) by {
                        out0.insert_ensures(pos as int, e);
                        assert forall|i: int, j: int| 0 <= i < j < out@.len() implies out@[i].ep_number
                            >= out@[j].ep_number by {
                            if j < pos {
                            } else if i < pos && j == pos {
                            } else if i < pos && j > pos {
                                assert(out@[j] == out0[j - 1]);
                            } else if i == pos {
                                assert(out@[j] == out0[j - 1]);
                                assert((pos as int) <= j - 1 < out0.len());
                                if (pos as int) < out0.len() {
                                    assert(out0[pos as int].ep_number < e.ep_number);
                                    assert(out0[pos as int].ep_number >= out0[j - 1].ep_number);
                                }
                            } else {
                                assert(out@[i] == out0[i - 1]);
                                assert(out@[j] == out0[j - 1]);
                            }
                        }
                    }
                    assert(out@.to_multiset().add(rest@.to_multiset()) =~= orig.to_multiset());
                }
            },
        }
    }
}

} // verus!
