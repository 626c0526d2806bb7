//! Pulse checks: a small demonstration feed rendered from plain values,
//! used by the health endpoints to show conversion end to end.

use vstd::prelude::*;
use crate::segments::{doc_segs, doc_segs_vec, spec_render, render, strs_view};
use vstd::string::StringExecFns;

verus! {

/// A demonstration channel.
#[derive(Debug)]
pub struct Channel {
    pub title: String,
    pub link: String,
    pub description: String,
}

/// A demonstration item.
#[derive(Debug)]
pub struct Item {
    pub title: String,
    pub link: String,
    pub description: String,
}

/// The demonstration payload: one channel and its items.
#[derive(Debug)]
pub struct ExampleJson {
    pub channel: Channel,
    pub item: Vec<Item>,
}

pub open spec fn spec_example_channel_lits() -> Seq<Seq<char>> {
    seq![
        "<?xml version=\"1.0\" encoding=\"UTF-8\" ?>\n<rss version=\"2.0\">\n<channel>\n<title>"@,
        "</title>\n<link>"@,
        "</link>\n<description>"@,
    ]
}

pub open spec fn spec_example_item_lits() -> Seq<Seq<char>> {
    seq!["<item>\n<title>"@, "</title>\n<link>"@, "</link>\n<description>"@]
}

pub open spec fn spec_example_channel_text(ch: Channel) -> Seq<char> {
    spec_render(
        doc_segs(
            spec_example_channel_lits(),
            seq![ch.title@, ch.link@, ch.description@],
            "</description>\n"@,
        ),
    )
}

pub open spec fn spec_example_item_text(it: Item) -> Seq<char> {
    spec_render(
        doc_segs(
            spec_example_item_lits(),
            seq![it.title@, it.link@, it.description@],
            "</description>\n</item>\n"@,
        ),
    )
}

pub open spec fn spec_example_items_text(items: Seq<Item>) -> Seq<char>
    decreases items.len(),
{
    if items.len() == 0 {
        Seq::empty()
    } else {
        spec_example_item_text(items[0]) + spec_example_items_text(items.drop_first())
    }
}

/// The whole demonstration document.
pub open spec fn spec_example_xml(e: ExampleJson) -> Seq<char> {
    spec_example_channel_text(e.channel) + spec_example_items_text(e.item@) + "</channel>\n</rss>"@
}

proof fn lemma_example_items_push(items: Seq<Item>, it: Item)
    ensures
        spec_example_items_text(items.push(it)) == spec_example_items_text(items)
            + spec_example_item_text(it),
    decreases items.len(),
{
    if items.len() == 0 {
        assert(items.push(it)[0] == it);
        assert(items.push(it).drop_first() =~= items);
        assert(spec_example_items_text(items.push(it)) =~= spec_example_items_text(items)
            + spec_example_item_text(it));
    } else {
        assert(items.push(it)[0] == items[0]);
        assert(items.push(it).drop_first() =~= items.drop_first().push(it));
        lemma_example_items_push(items.drop_first(), it);
        assert(spec_example_items_text(items.push(it)) =~= spec_example_items_text(items)
            + spec_example_item_text(it));
    }
}

/// Renders the demonstration payload as an RSS document, escaping every
/// field.
pub fn example_to_xml(e: &ExampleJson) -> (r: String)
    ensures
        r@ == spec_example_xml(*e),
{
    let mut ch_lits: Vec<String> = Vec::new();
    ch_lits.push(
        String::from_str(
            "<?xml version=\"1.0\" encoding=\"UTF-8\" ?>\n<rss version=\"2.0\">\n<channel>\n<title>",
        ),
    );
    ch_lits.push(String::from_str("</title>\n<link>"));
    ch_lits.push(String::from_str("</link>\n<description>"));
    let mut ch_vals: Vec<String> = Vec::new();
    ch_vals.push(e.channel.title.clone());
    ch_vals.push(e.channel.link.clone());
    ch_vals.push(e.channel.description.clone());
    proof {
        assert(strs_view(ch_lits@).skip(0) =~= spec_example_channel_lits());
        assert(strs_view(ch_vals@).skip(0) =~= seq![
            e.channel.title@,
            e.channel.link@,
            e.channel.description@,
        ]);
    }
    let segs = doc_segs_vec(&ch_lits, &ch_vals, 0, "</description>\n");
    let mut out = render(&segs);
    proof {
        assert(out@ == spec_example_channel_text(e.channel));
    }
    let mut it_lits: Vec<String> = Vec::new();
    it_lits.push(String::from_str("<item>\n<title>"));
    it_lits.push(String::from_str("</title>\n<link>"));
    it_lits.push(String::from_str("</link>\n<description>"));
    let mut i: usize = 0;
    while i < e.item.len()
        invariant
            strs_view(it_lits@) == spec_example_item_lits(),
            i <= e.item@.len(),
            out@ == spec_example_channel_text(e.channel) + spec_example_items_text(
                e.item@.take(i as int),
            ),
        decreases e.item@.len() - i,
    {
        let it = &e.item[i];
        let mut it_vals: Vec<String> = Vec::new();
        it_vals.push(it.title.clone());
        it_vals.push(it.link.clone());
        it_vals.push(it.description.clone());
        proof {
            assert(strs_view(it_lits@).skip(0) =~= spec_example_item_lits());
            assert(strs_view(it_vals@).skip(0) =~= seq![it.title@, it.link@, it.description@]);
        }
        let isegs = doc_segs_vec(&it_lits, &it_vals, 0, "</description>\n</item>\n");
        let itxt = render(&isegs);
        out.append(itxt.as_str());
        proof {
            assert(itxt@ == spec_example_item_text(e.item@[i as int]));
            lemma_example_items_push(e.item@.take(i as int), e.item@[i as int]);
            assert(e.item@.take(i + 1) =~= e.item@.take(i as int).push(e.item@[i as int]));
            assert(out@ =~= spec_example_channel_text(e.channel) + spec_example_items_text(
                e.item@.take(i + 1),
            ));
        }
        i = i + 1;
    }
    out.append("</channel>\n</rss>");
    proof {
        assert(e.item@.take(e.item@.len() as int) =~= e.item@);
        assert(out@ =~= spec_example_xml(*e));
    }
    out
}

} // verus!
