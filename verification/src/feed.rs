//! The Feed Builder and its reader.
//!
//! [`build_feed`] renders a channel and its episodes into one RSS document,
//! escaping every user-supplied field; [`parse_feed`] reads such a document
//! back, recovering the channel title, the channel link and the episode
//! guids. [`lemma_round_trip`] states that reading what was built recovers
//! those fields exactly.

use vstd::prelude::*;
use crate::records::{Channel, Item, spec_norm_duration, norm_duration, sorted_desc, sort_episodes_desc};
use crate::segments::{
    doc_segs, doc_shapes, doc_segs_vec, doc_shapes_vec, delims_ok, spec_render, spec_parse,
    parse_shapes, render, strs_view, lemma_parse_doc, delim_ok, SegV, shape_views, seg_chars,
};
use crate::text::{chars_of, int_seq, i32_to_string, spec_bool_str, bool_to_string};
use crate::scan::{is_match, starts_with_at, lemma_suffix_split};
use vstd::string::StringExecFns;
use vstd::std_specs::vec::spec_vec_len;

verus! {

/// The fixed text that precedes each channel field.
pub open spec fn spec_channel_lits() -> Seq<Seq<char>> {
    seq![
        "<?xml version=\"1.0\" encoding=\"UTF-8\"?>\n<rss version=\"2.0\"\n    xmlns:content=\"http://purl.org/rss/1.0/modules/content/\"\n    xmlns:wfw=\"http://wellformedweb.org/CommentAPI/\"\n    xmlns:dc=\"http://purl.org/dc/elements/1.1/\"\n    xmlns:atom=\"http://www.w3.org/2005/Atom\"\n    xmlns:sy=\"http://purl.org/rss/1.0/modules/syndication/\"\n    xmlns:slash=\"http://purl.org/rss/1.0/modules/slash/\"\n    xmlns:itunes=\"http://www.itunes.com/dtds/podcast-1.0.dtd\"\n    xmlns:podcast=\"https://github.com/Podcastindex-org/podcast-namespace/blob/main/docs/1.0.md\"\n    xmlns:rawvoice=\"http://www.rawvoice.com/rawvoiceRssModule/\"\n    xmlns:googleplay=\"http://www.google.com/schemas/play-podcasts/1.0\"\n>\n<channel>\n<title>"@,
        "</title>\n<managingEditor>"@,
        "</managingEditor>\n<atom:link href=\""@,
        "\" rel=\"self\" type=\"application/rss+xml\" />\n<link>"@,
        "</link>\n<description>"@,
        "</description>\n<lastBuildDate>"@,
        "</lastBuildDate>\n<language>"@,
        "</language>\n<generator>"@,
        "</generator>\n<image>\n<url>"@,
        "</url>\n<title>"@,
        "</title>\n<link>"@,
        "</link>\n<width>"@,
        "</width>\n<height>"@,
        "</height>\n</image>\n<atom:link rel=\"hub\" href=\"https://pubsubhubbub.appspot.com/\" />\n<itunes:new-feed-url>"@,
        "</itunes:new-feed-url>\n<itunes:summary>"@,
        "</itunes:summary>\n<itunes:author>"@,
        "</itunes:author>\n<itunes:explicit>"@,
        "</itunes:explicit>\n<itunes:image>"@,
        "</itunes:image>\n<itunes:owner>\n<itunes:name>"@,
        "</itunes:name>\n<itunes:email>"@,
        "</itunes:email>\n</itunes:owner>\n<itunes:subtitle>"@,
        "</itunes:subtitle>\n<itunes:category text=\""@,
        "\"/>\n<googleplay:category text=\""@,
    ]
}

/// The fixed text that closes the channel head.
pub open spec fn spec_channel_tail() -> Seq<char> {
    "\"/>\n"@
}

/// The channel fields, in rendering order.
pub open spec fn spec_channel_vals(ch: Channel) -> Seq<Seq<char>> {
    seq![
        ch.title@,
        ch.managing_editor@,
        ch.c_link@,
        ch.c_link@,
        ch.description@,
        ch.last_build_date@,
        ch.language@,
        ch.generator@,
        ch.image_url@,
        ch.image_title@,
        ch.image_link@,
        int_seq(ch.image_width as int),
        int_seq(ch.image_height as int),
        ch.itunes_new_feed_url@,
        ch.description@,
        ch.itunes_owner_name@,
        spec_bool_str(ch.itunes_explicit),
        ch.image_link@,
        ch.itunes_owner_name@,
        ch.itunes_owner_email@,
        ch.description@,
        ch.category@,
        ch.category@,
    ]
}

/// The fixed text that precedes each episode field.
pub open spec fn spec_item_lits() -> Seq<Seq<char>> {
    seq![
        "<item>\n<title>"@,
        "</title>\n<author>"@,
        "</author>\n<link>"@,
        "</link>\n<pubDate>"@,
        "</pubDate>\n<guid>"@,
        "</guid>\n<category>"@,
        "</category>\n<description>"@,
        "</description>\n<content:encoded>"@,
        "</content:encoded>\n<enclosure url=\""@,
        "\" type=\""@,
        "\" length=\""@,
        "\"/>\n<itunes:summary>"@,
        "</itunes:summary>\n<itunes:duration>"@,
    ]
}

/// The fixed text that closes one episode.
pub open spec fn spec_item_tail() -> Seq<char> {
    "</itunes:duration>\n</item>\n"@
}

/// The episode fields, in rendering order.
pub open spec fn spec_item_vals(it: Item) -> Seq<Seq<char>> {
    seq![
        it.title@,
        it.author@,
        it.i_link@,
        it.pub_date@,
        it.id@,
        it.category@,
        it.description@,
        it.content_encoded@,
        it.enclosure_url@,
        it.enclosure_type@,
        it.enclosure_length@,
        it.description@,
        spec_norm_duration(it),
    ]
}

/// The closing text of the whole document.
pub open spec fn spec_footer() -> Seq<char> {
    "</channel>\n</rss>"@
}

/// The opening text that announces one more episode.
pub open spec fn spec_item_open() -> Seq<char> {
    "<item>"@
}

/// The rendered channel head.
pub open spec fn spec_channel_text(ch: Channel) -> Seq<char> {
    spec_render(doc_segs(spec_channel_lits(), spec_channel_vals(ch), spec_channel_tail()))
}

/// One rendered episode.
pub open spec fn spec_item_text(it: Item) -> Seq<char> {
    spec_render(doc_segs(spec_item_lits(), spec_item_vals(it), spec_item_tail()))
}

/// All rendered episodes, in the given order.
pub open spec fn spec_items_text(eps: Seq<Item>) -> Seq<char>
    decreases eps.len(),
{
    if eps.len() == 0 {
        Seq::empty()
    } else {
        spec_item_text(eps[0]) + spec_items_text(eps.drop_first())
    }
}

/// The whole document for a channel and its episodes, in the given order.
pub open spec fn spec_build_feed(ch: Channel, eps: Seq<Item>) -> Seq<char> {
    spec_channel_text(ch) + spec_items_text(eps) + spec_footer()
}

/// `doc` is the feed document of `ch` and the episodes `eps`, rendered in
/// descending sequence-number order.
pub open spec fn built_from(doc: Seq<char>, ch: Channel, eps: Seq<Item>) -> bool {
    exists|sorted: Seq<Item>|
        sorted_desc(sorted) && sorted.to_multiset() == eps.to_multiset() && doc == spec_build_feed(
            ch,
            sorted,
        )
}

fn channel_lits() -> (r: Vec<String>)
    ensures
        strs_view(r@) == spec_channel_lits(),
{
    let mut v: Vec<String> = Vec::new();
    v.push(String::from_str("<?xml version=\"1.0\" encoding=\"UTF-8\"?>\n<rss version=\"2.0\"\n    xmlns:content=\"http://purl.org/rss/1.0/modules/content/\"\n    xmlns:wfw=\"http://wellformedweb.org/CommentAPI/\"\n    xmlns:dc=\"http://purl.org/dc/elements/1.1/\"\n    xmlns:atom=\"http://www.w3.org/2005/Atom\"\n    xmlns:sy=\"http://purl.org/rss/1.0/modules/syndication/\"\n    xmlns:slash=\"http://purl.org/rss/1.0/modules/slash/\"\n    xmlns:itunes=\"http://www.itunes.com/dtds/podcast-1.0.dtd\"\n    xmlns:podcast=\"https://github.com/Podcastindex-org/podcast-namespace/blob/main/docs/1.0.md\"\n    xmlns:rawvoice=\"http://www.rawvoice.com/rawvoiceRssModule/\"\n    xmlns:googleplay=\"http://www.google.com/schemas/play-podcasts/1.0\"\n>\n<channel>\n<title>"));
    v.push(String::from_str("</title>\n<managingEditor>"));
    v.push(String::from_str("</managingEditor>\n<atom:link href=\""));
    v.push(String::from_str("\" rel=\"self\" type=\"application/rss+xml\" />\n<link>"));
    v.push(String::from_str("</link>\n<description>"));
    v.push(String::from_str("</description>\n<lastBuildDate>"));
    v.push(String::from_str("</lastBuildDate>\n<language>"));
    v.push(String::from_str("</language>\n<generator>"));
    v.push(String::from_str("</generator>\n<image>\n<url>"));
    v.push(String::from_str("</url>\n<title>"));
    v.push(String::from_str("</title>\n<link>"));
    v.push(String::from_str("</link>\n<width>"));
    v.push(String::from_str("</width>\n<height>"));
    v.push(String::from_str("</height>\n</image>\n<atom:link rel=\"hub\" href=\"https://pubsubhubbub.appspot.com/\" />\n<itunes:new-feed-url>"));
    v.push(String::from_str("</itunes:new-feed-url>\n<itunes:summary>"));
    v.push(String::from_str("</itunes:summary>\n<itunes:author>"));
    v.push(String::from_str("</itunes:author>\n<itunes:explicit>"));
    v.push(String::from_str("</itunes:explicit>\n<itunes:image>"));
    v.push(String::from_str("</itunes:image>\n<itunes:owner>\n<itunes:name>"));
    v.push(String::from_str("</itunes:name>\n<itunes:email>"));
    v.push(String::from_str("</itunes:email>\n</itunes:owner>\n<itunes:subtitle>"));
    v.push(String::from_str("</itunes:subtitle>\n<itunes:category text=\""));
    v.push(String::from_str("\"/>\n<googleplay:category text=\""));
    proof {
        assert(strs_view(v@) =~= spec_channel_lits());
    }
    v
}

fn channel_vals(ch: &Channel) -> (r: Vec<String>)
    ensures
        strs_view(r@) == spec_channel_vals(*ch),
{
    let mut v: Vec<String> = Vec::new();
    v.push(ch.title.clone());
    v.push(ch.managing_editor.clone());
    v.push(ch.c_link.clone());
    v.push(ch.c_link.clone());
    v.push(ch.description.clone());
    v.push(ch.last_build_date.clone());
    v.push(ch.language.clone());
    v.push(ch.generator.clone());
    v.push(ch.image_url.clone());
    v.push(ch.image_title.clone());
    v.push(ch.image_link.clone());
    v.push(i32_to_string(ch.image_width));
    v.push(i32_to_string(ch.image_height));
    v.push(ch.itunes_new_feed_url.clone());
    v.push(ch.description.clone());
    v.push(ch.itunes_owner_name.clone());
    v.push(bool_to_string(ch.itunes_explicit));
    v.push(ch.image_link.clone());
    v.push(ch.itunes_owner_name.clone());
    v.push(ch.itunes_owner_email.clone());
    v.push(ch.description.clone());
    v.push(ch.category.clone());
    v.push(ch.category.clone());
    proof {
        assert(strs_view(v@) =~= spec_channel_vals(*ch));
    }
    v
}

fn item_lits() -> (r: Vec<String>)
    ensures
        strs_view(r@) == spec_item_lits(),
{
    let mut v: Vec<String> = Vec::new();
    v.push(String::from_str("<item>\n<title>"));
    v.push(String::from_str("</title>\n<author>"));
    v.push(String::from_str("</author>\n<link>"));
    v.push(String::from_str("</link>\n<pubDate>"));
    v.push(String::from_str("</pubDate>\n<guid>"));
    v.push(String::from_str("</guid>\n<category>"));
    v.push(String::from_str("</category>\n<description>"));
    v.push(String::from_str("</description>\n<content:encoded>"));
    v.push(String::from_str("</content:encoded>\n<enclosure url=\""));
    v.push(String::from_str("\" type=\""));
    v.push(String::from_str("\" length=\""));
    v.push(String::from_str("\"/>\n<itunes:summary>"));
    v.push(String::from_str("</itunes:summary>\n<itunes:duration>"));
    proof {
        assert(strs_view(v@) =~= spec_item_lits());
    }
    v
}

fn item_vals(it: &Item) -> (r: Vec<String>)
    ensures
        strs_view(r@) == spec_item_vals(*it),
{
    let mut v: Vec<String> = Vec::new();
    v.push(it.title.clone());
    v.push(it.author.clone());
    v.push(it.i_link.clone());
    v.push(it.pub_date.clone());
    v.push(it.id.clone());
    v.push(it.category.clone());
    v.push(it.description.clone());
    v.push(it.content_encoded.clone());
    v.push(it.enclosure_url.clone());
    v.push(it.enclosure_type.clone());
    v.push(it.enclosure_length.clone());
    v.push(it.description.clone());
    v.push(norm_duration(it));
    proof {
        assert(strs_view(v@) =~= spec_item_vals(*it));
    }
    v
}

pub proof fn lemma_channel_delims()
    ensures
        delims_ok(spec_channel_lits(), spec_channel_tail()),
{
    reveal_strlit("</title>\n<managingEditor>");
    reveal_strlit("</managingEditor>\n<atom:link href=\"");
    reveal_strlit("\" rel=\"self\" type=\"application/rss+xml\" />\n<link>");
    reveal_strlit("</link>\n<description>");
    reveal_strlit("</description>\n<lastBuildDate>");
    reveal_strlit("</lastBuildDate>\n<language>");
    reveal_strlit("</language>\n<generator>");
    reveal_strlit("</generator>\n<image>\n<url>");
    reveal_strlit("</url>\n<title>");
    reveal_strlit("</title>\n<link>");
    reveal_strlit("</link>\n<width>");
    reveal_strlit("</width>\n<height>");
    reveal_strlit("</height>\n</image>\n<atom:link rel=\"hub\" href=\"https://pubsubhubbub.appspot.com/\" />\n<itunes:new-feed-url>");
    reveal_strlit("</itunes:new-feed-url>\n<itunes:summary>");
    reveal_strlit("</itunes:summary>\n<itunes:author>");
    reveal_strlit("</itunes:author>\n<itunes:explicit>");
    reveal_strlit("</itunes:explicit>\n<itunes:image>");
    reveal_strlit("</itunes:image>\n<itunes:owner>\n<itunes:name>");
    reveal_strlit("</itunes:name>\n<itunes:email>");
    reveal_strlit("</itunes:email>\n</itunes:owner>\n<itunes:subtitle>");
    reveal_strlit("</itunes:subtitle>\n<itunes:category text=\"");
    reveal_strlit("\"/>\n<googleplay:category text=\"");
    reveal_strlit("\"/>\n");
    let ls = spec_channel_lits();
    assert(delim_ok(spec_channel_tail()));
    assert(delim_ok(ls[1]));
    assert(delim_ok(ls[2]));
    assert(delim_ok(ls[3]));
    assert(delim_ok(ls[4]));
    assert(delim_ok(ls[5]));
    assert(delim_ok(ls[6]));
    assert(delim_ok(ls[7]));
    assert(delim_ok(ls[8]));
    assert(delim_ok(ls[9]));
    assert(delim_ok(ls[10]));
    assert(delim_ok(ls[11]));
    assert(delim_ok(ls[12]));
    assert(delim_ok(ls[13]));
    assert(delim_ok(ls[14]));
    assert(delim_ok(ls[15]));
    assert(delim_ok(ls[16]));
    assert(delim_ok(ls[17]));
    assert(delim_ok(ls[18]));
    assert(delim_ok(ls[19]));
    assert(delim_ok(ls[20]));
    assert(delim_ok(ls[21]));
    assert(delim_ok(ls[22]));
    assert forall|k: int| 1 <= k < ls.len() implies delim_ok(ls[k]) by {}
}

pub proof fn lemma_item_delims()
    ensures
        delims_ok(spec_item_lits(), spec_item_tail()),
{
    reveal_strlit("</title>\n<author>");
    reveal_strlit("</author>\n<link>");
    reveal_strlit("</link>\n<pubDate>");
    reveal_strlit("</pubDate>\n<guid>");
    reveal_strlit("</guid>\n<category>");
    reveal_strlit("</category>\n<description>");
    reveal_strlit("</description>\n<content:encoded>");
    reveal_strlit("</content:encoded>\n<enclosure url=\"");
    reveal_strlit("\" type=\"");
    reveal_strlit("\" length=\"");
    reveal_strlit("\"/>\n<itunes:summary>");
    reveal_strlit("</itunes:summary>\n<itunes:duration>");
    reveal_strlit("</itunes:duration>\n</item>\n");
    let ls = spec_item_lits();
    assert(delim_ok(spec_item_tail()));
    assert(delim_ok(ls[1]));
    assert(delim_ok(ls[2]));
    assert(delim_ok(ls[3]));
    assert(delim_ok(ls[4]));
    assert(delim_ok(ls[5]));
    assert(delim_ok(ls[6]));
    assert(delim_ok(ls[7]));
    assert(delim_ok(ls[8]));
    assert(delim_ok(ls[9]));
    assert(delim_ok(ls[10]));
    assert(delim_ok(ls[11]));
    assert(delim_ok(ls[12]));
    assert forall|k: int| 1 <= k < ls.len() implies delim_ok(ls[k]) by {}
}

/// The guid list of an episode sequence: each episode's id, in order.
pub open spec fn guids_of(eps: Seq<Item>) -> Seq<Seq<char>> {
    eps.map_values(|it: Item| it.id@)
}

pub proof fn lemma_items_text_push(eps: Seq<Item>, it: Item)
    ensures
        spec_items_text(eps.push(it)) == spec_items_text(eps) + spec_item_text(it),
    decreases eps.len(),
{
    if eps.len() == 0 {
        assert(eps.push(it)[0] == it);
        assert(eps.push(it).drop_first() =~= eps);
        assert(spec_items_text(eps.push(it)) =~= spec_items_text(eps) + spec_item_text(it));
    } else {
        assert(eps.push(it)[0] == eps[0]);
        assert(eps.push(it).drop_first() =~= eps.drop_first().push(it));
        lemma_items_text_push(eps.drop_first(), it);
        assert(spec_items_text(eps.push(it)) =~= spec_items_text(eps) + spec_item_text(it));
    }
}

/// Renders the feed document for `ch` with the episodes in the given
/// order; callers sort first, so the order is explicit.
pub fn build_feed(ch: &Channel, eps: &Vec<Item>) -> (r: String)
    ensures
        r@ == spec_build_feed(*ch, eps@),
{
    let lits = channel_lits();
    let vals = channel_vals(ch);
    proof {
        assert(strs_view(lits@).skip(0) =~= strs_view(lits@));
        assert(strs_view(vals@).skip(0) =~= strs_view(vals@));
    }
    let segs = doc_segs_vec(&lits, &vals, 0, "\"/>\n");
    let mut out = render(&segs);
    proof {
        assert(out@ == spec_channel_text(*ch));
    }
    let il = item_lits();
    let mut i: usize = 0;
    while i < eps.len()
        invariant
            strs_view(il@) == spec_item_lits(),
            i <= eps@.len(),
            out@ == spec_channel_text(*ch) + spec_items_text(eps@.take(i as int)),
        decreases eps@.len() - i,
    {
        let ivals = item_vals(&eps[i]);
        proof {
            assert(strs_view(il@).skip(0) =~= strs_view(il@));
            assert(strs_view(ivals@).skip(0) =~= strs_view(ivals@));
        }
        let isegs = doc_segs_vec(&il, &ivals, 0, "</itunes:duration>\n</item>\n");
        let itxt = render(&isegs);
        out.append(itxt.as_str());
        proof {
            assert(itxt@ == spec_item_text(eps@[i as int]));
            lemma_items_text_push(eps@.take(i as int), eps@[i as int]);
            assert(eps@.take(i + 1) =~= eps@.take(i as int).push(eps@[i as int]));
            assert(out@ =~= spec_channel_text(*ch) + spec_items_text(eps@.take(i + 1)));
        }
        i = i + 1;
    }
    out.append("</channel>\n</rss>");
    proof {
        assert(eps@.take(eps@.len() as int) =~= eps@);
        assert(out@ =~= spec_build_feed(*ch, eps@));
    }
    out
}

/// What a feed document yields when read back: the channel title, the
/// channel link, and one guid per episode.
pub struct ParsedFeed {
    pub title: String,
    pub link: String,
    pub guids: Vec<String>,
}

/// Reads episodes from `pos` on, up to the text that is not an episode.
pub open spec fn spec_parse_items(t: Seq<char>, pos: int) -> Option<(Seq<Seq<char>>, int)>
    decreases t.len() - pos,
{
    if !is_match(t, pos, spec_item_open()) {
        Some((Seq::empty(), pos))
    } else {
        match spec_parse(t, pos, doc_shapes(spec_item_lits(), spec_item_tail())) {
            None => None,
            Some(p) => if p.0.len() == 13 && pos < p.1 <= t.len() {
                match spec_parse_items(t, p.1) {
                    None => None,
                    Some(q) => Some((seq![p.0[4]] + q.0, q.1)),
                }
            } else {
                None
            },
        }
    }
}

/// Reads a whole feed document: the channel head, every episode, and the
/// closing text, which must end the document.
pub open spec fn spec_parse_feed(t: Seq<char>) -> Option<(Seq<char>, Seq<char>, Seq<Seq<char>>)> {
    match spec_parse(t, 0, doc_shapes(spec_channel_lits(), spec_channel_tail())) {
        None => None,
        Some(p) => if p.0.len() == 23 && 0 <= p.1 <= t.len() {
            match spec_parse_items(t, p.1) {
                None => None,
                Some(q) => if is_match(t, q.1, spec_footer()) && q.1 + spec_footer().len()
                    == t.len() {
                    Some((p.0[0], p.0[3], q.0))
                } else {
                    None
                },
            }
        } else {
            None
        },
    }
}

/// Reads a feed document back into its channel title, channel link and
/// episode guids.
pub fn parse_feed(xml: &str) -> (r: Option<ParsedFeed>)
    ensures
        match r {
            Some(pf) => spec_parse_feed(xml@) == Some((pf.title@, pf.link@, strs_view(pf.guids@))),
            None => spec_parse_feed(xml@) is None,
        },
{
    let t = chars_of(xml);
    let ch_lits = channel_lits();
    proof {
        assert(strs_view(ch_lits@).skip(0) =~= strs_view(ch_lits@));
    }
    let ch_shapes = doc_shapes_vec(&ch_lits, 0, "\"/>\n");
    let (g, mid) = match parse_shapes(&t, 0, &ch_shapes) {
        None => {
            return None;
        },
        Some(p) => p,
    };
    if g.len() != 23 {
        return None;
    }
    let title = g[0].clone();
    let link = g[3].clone();
    let it_lits = item_lits();
    proof {
        assert(strs_view(it_lits@).skip(0) =~= strs_view(it_lits@));
    }
    let it_shapes = doc_shapes_vec(&it_lits, 0, "</itunes:duration>\n</item>\n");
    let iopen = chars_of("<item>");
    proof {
        assert(iopen@ == spec_item_open());
    }
    let mut guids: Vec<String> = Vec::new();
    let mut pos: usize = mid;
    let ghost midg = mid as int;
    let ghost chg = strs_view(g@);
    proof {
        match spec_parse_items(t@, midg) {
            Some(q) => {
                assert(strs_view(guids@) + q.0 =~= q.0);
            },
            None => {},
        }
    }
    while starts_with_at(&t, pos, &iopen)
        invariant
            t@ == xml@,
            pos <= t@.len(),
            iopen@ == spec_item_open(),
            shape_views(it_shapes@) == doc_shapes(spec_item_lits(), spec_item_tail()),
            spec_parse(t@, 0, doc_shapes(spec_channel_lits(), spec_channel_tail())) == Some(
                (chg, midg),
            ),
            chg.len() == 23,
            0 <= midg <= t@.len(),
            spec_parse_items(t@, midg) == (match spec_parse_items(t@, pos as int) {
                Some(q) => Some((strs_view(guids@) + q.0, q.1)),
                None => None::<(Seq<Seq<char>>, int)>,
            }),
        decreases t@.len() - pos,
    {
        let ghost guids0 = guids@;
        let ghost pos0 = pos as int;
        match parse_shapes(&t, pos, &it_shapes) {
            None => {
                return None;
            },
            Some(pr) => {
                let (gi, p2) = pr;
                if gi.len() != 13 {
                    return None;
                }
                if p2 <= pos {
                    return None;
                }
                guids.push(gi[4].clone());
                proof {
                    assert(strs_view(guids@) =~= strs_view(guids0).push(gi@[4]@));
                    match spec_parse_items(t@, p2 as int) {
                        Some(q) => {
                            assert(strs_view(guids0) + (seq![strs_view(gi@)[4]] + q.0)
                                =~= strs_view(guids@) + q.0);
                        },
                        None => {},
                    }
                }
                pos = p2;
            },
        }
    }
    proof {
        assert(spec_parse_items(t@, pos as int) == Some(
            (Seq::<Seq<char>>::empty(), pos as int),
        ));
        assert(strs_view(guids@) + Seq::<Seq<char>>::empty() =~= strs_view(guids@));
        assert(spec_parse_items(t@, midg) == Some((strs_view(guids@), pos as int)));
    }
    let fv = chars_of("</channel>\n</rss>");
    proof {
        assert(fv@ == spec_footer());
        broadcast use vstd::std_specs::vec::axiom_spec_len;

        assert(spec_vec_len(&t) == t@.len());
    }
    if starts_with_at(&t, pos, &fv) {
        if pos + fv.len() == t.len() {
            return Some(ParsedFeed { title, link, guids });
        }
    }
    None
}

pub proof fn lemma_items_parse(t: Seq<char>, pos: int, eps: Seq<Item>, rest: Seq<char>)
    requires
        0 <= pos <= t.len(),
        t.subrange(pos, t.len() as int) == spec_items_text(eps) + (spec_footer() + rest),
    ensures
        spec_parse_items(t, pos) == Some((guids_of(eps), pos + spec_items_text(eps).len())),
    decreases eps.len(),
{
    reveal_strlit("<item>");
    reveal_strlit("</channel>\n</rss>");
    reveal_strlit("<item>\n<title>");
    if eps.len() == 0 {
        assert(spec_items_text(eps) =~= Seq::<char>::empty());
        assert(t.subrange(pos, t.len() as int) =~= spec_footer() + rest);
        lemma_suffix_split(t, pos, spec_footer(), rest);
        assert(!is_match(t, pos, spec_item_open())) by {
            if is_match(t, pos, spec_item_open()) {
                assert(t.subrange(pos, pos + spec_item_open().len())[1] == 'i');
                assert(t.subrange(pos, pos + spec_item_open().len())[1] == t[pos + 1]);
                assert(t.subrange(pos, pos + spec_footer().len())[1] == '/');
                assert(t.subrange(pos, pos + spec_footer().len())[1] == t[pos + 1]);
            }
        }
        assert(guids_of(eps) =~= Seq::<Seq<char>>::empty());
    } else {
        let e0 = eps[0];
        let eps2 = eps.drop_first();
        let itext = spec_item_text(e0);
        assert(spec_items_text(eps) == itext + spec_items_text(eps2));
        let rest2 = spec_items_text(eps2) + (spec_footer() + rest);
        assert(t.subrange(pos, t.len() as int) =~= itext + rest2);
        let il = spec_item_lits();
        let segs = doc_segs(il, spec_item_vals(e0), spec_item_tail());
        assert(segs[0] == SegV::Lit(il[0]));
        assert(spec_render(segs) == seg_chars(segs[0]) + spec_render(segs.drop_first()));
        assert(seg_chars(segs[0]) == il[0]);
        assert(t.subrange(pos, t.len() as int) =~= il[0] + (spec_render(segs.drop_first())
            + rest2));
        lemma_suffix_split(t, pos, il[0], spec_render(segs.drop_first()) + rest2);
        assert(is_match(t, pos, spec_item_open())) by {
            assert(t.subrange(pos, pos + spec_item_open().len()) =~= spec_item_open()) by {
                assert forall|k: int| 0 <= k < 6 implies t.subrange(pos, pos + 6)[k]
                    == spec_item_open()[k] by {
                    assert(t.subrange(pos, pos + il[0].len())[k] == il[0][k]);
                    assert(t.subrange(pos, pos + il[0].len())[k] == t[pos + k]);
                    assert(t.subrange(pos, pos + 6)[k] == t[pos + k]);
                }
            }
        }
        lemma_item_delims();
        lemma_parse_doc(t, pos, il, spec_item_vals(e0), spec_item_tail(), rest2);
        let p1 = pos + itext.len();
        assert(spec_item_vals(e0).len() == 13);
        assert(itext.len() > 0);
        assert(p1 <= t.len()) by {
            assert(t.subrange(pos, t.len() as int).len() == itext.len() + rest2.len());
        }
        lemma_suffix_split(t, pos, itext, rest2);
        lemma_items_parse(t, p1, eps2, rest);
        assert(spec_item_vals(e0)[4] == e0.id@);
        assert(seq![e0.id@] + guids_of(eps2) =~= guids_of(eps));
        assert(spec_items_text(eps).len() == itext.len() + spec_items_text(eps2).len());
    }
}

/// Reading a built document recovers the channel title, the channel link
/// and the episode guids, in rendering order.
pub proof fn lemma_parse_build(ch: Channel, eps: Seq<Item>)
    ensures
        spec_parse_feed(spec_build_feed(ch, eps)) == Some((ch.title@, ch.c_link@, guids_of(eps))),
{
    let t = spec_build_feed(ch, eps);
    let ctext = spec_channel_text(ch);
    let itext = spec_items_text(eps);
    assert(t.subrange(0, t.len() as int) =~= ctext + (itext + spec_footer()));
    lemma_channel_delims();
    lemma_parse_doc(
        t,
        0,
        spec_channel_lits(),
        spec_channel_vals(ch),
        spec_channel_tail(),
        itext + spec_footer(),
    );
    let mid = ctext.len() as int;
    assert(spec_channel_vals(ch).len() == 23);
    assert(spec_channel_vals(ch)[0] == ch.title@);
    assert(spec_channel_vals(ch)[3] == ch.c_link@);
    lemma_suffix_split(t, 0, ctext, itext + spec_footer());
    assert(t.subrange(mid, t.len() as int) =~= itext + (spec_footer() + Seq::<char>::empty()));
    lemma_items_parse(t, mid, eps, Seq::empty());
    let end = mid + itext.len();
    lemma_suffix_split(t, mid, itext, spec_footer() + Seq::<char>::empty());
    assert(t.subrange(end, t.len() as int) =~= spec_footer() + Seq::<char>::empty());
    assert(is_match(t, end, spec_footer())) by {
        assert(end + spec_footer().len() == t.len());
        assert(t.subrange(end, end + spec_footer().len()) =~= t.subrange(end, t.len() as int));
        assert(t.subrange(end, t.len() as int) =~= spec_footer());
    }
    assert(end + spec_footer().len() == t.len());
}

proof fn lemma_guid_set(a: Seq<Item>, b: Seq<Item>)
    requires
        a.to_multiset() == b.to_multiset(),
    ensures
        guids_of(a).to_set() == guids_of(b).to_set(),
{
    assert forall|x: Seq<char>| guids_of(a).to_set().contains(x) implies guids_of(
        b,
    ).to_set().contains(x) by {
        lemma_guid_set_one(a, b, x);
    }
    assert forall|x: Seq<char>| guids_of(b).to_set().contains(x) implies guids_of(
        a,
    ).to_set().contains(x) by {
        lemma_guid_set_one(b, a, x);
    }
    assert(guids_of(a).to_set() =~= guids_of(b).to_set());
}

proof fn lemma_guid_set_one(a: Seq<Item>, b: Seq<Item>, x: Seq<char>)
    requires
        a.to_multiset() == b.to_multiset(),
        guids_of(a).to_set().contains(x),
    ensures
        guids_of(b).to_set().contains(x),
{
    assert(guids_of(a).contains(x));
    let i = choose|i: int| 0 <= i < guids_of(a).len() && guids_of(a)[i] == x;
    let it = a[i];
    assert(it.id@ == x);
    assert(a.contains(it));
    vstd::seq_lib::to_multiset_contains(a, it);
    vstd::seq_lib::to_multiset_contains(b, it);
    assert(b.contains(it));
    let j = choose|j: int| 0 <= j < b.len() && b[j] == it;
    assert(guids_of(b)[j] == x);
    assert(guids_of(b).contains(x));
}

/// Round trip: reading the document built for a channel and its episodes
/// recovers the channel title, the channel link, and the exact set of
/// episode guids.
pub proof fn lemma_round_trip(doc: Seq<char>, ch: Channel, eps: Seq<Item>)
    requires
        built_from(doc, ch, eps),
    ensures
        spec_parse_feed(doc) is Some,
        spec_parse_feed(doc) matches Some(p) ==> p.0 == ch.title@ && p.1 == ch.c_link@
            && p.2.to_set() == guids_of(eps).to_set(),
{
    let sorted = choose|sorted: Seq<Item>|
        sorted_desc(sorted) && sorted.to_multiset() == eps.to_multiset() && doc == spec_build_feed(
            ch,
            sorted,
        );
    lemma_parse_build(ch, sorted);
    lemma_guid_set(sorted, eps);
}

/// Renders the feed for a channel from its episodes as fetched: they are
/// put in descending sequence-number order first, so the document never
/// depends on retrieval order.
pub fn render_channel(ch: &Channel, eps: Vec<Item>) -> (r: String)
    ensures
        built_from(r@, *ch, eps@),
{
    let ghost orig = eps@;
    let sorted = sort_episodes_desc(eps);
    let doc = build_feed(ch, &sorted);
    proof {
        assert(sorted_desc(sorted@) && sorted@.to_multiset() == orig.to_multiset() && doc@
            == spec_build_feed(*ch, sorted@));
    }
    doc
}

} // verus!
