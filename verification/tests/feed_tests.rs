use podcast_feed::escape::{escape_text, unescape_range};
use podcast_feed::feed::{build_feed, parse_feed, render_channel};
use podcast_feed::records::{Channel, Item, sort_episodes_desc};
use podcast_feed::text::{chars_of, i32_to_string, u64_to_string, normalize_title};
use podcast_feed::scan::replace_all;

fn channel(external_id: &str, title: &str) -> Channel {
    Channel {
        id: 1,
        external_id: external_id.to_string(),
        title: title.to_string(),
        category: "Technology".to_string(),
        description: "A show about things & stuff".to_string(),
        managing_editor: "editor@example.com".to_string(),
        generator: "podcast_feed".to_string(),
        image_url: "https://example.com/cover.png".to_string(),
        image_title: "Cover".to_string(),
        image_link: "https://example.com".to_string(),
        image_width: 144,
        image_height: 144,
        language: "en-us".to_string(),
        last_build_date: "Mon, 01 Jan 2024 00:00:00 +0000".to_string(),
        pub_date: "Mon, 01 Jan 2024 00:00:00 +0000".to_string(),
        c_link: "https://example.com/feed".to_string(),
        itunes_new_feed_url: "https://example.com/feed.xml".to_string(),
        itunes_explicit: false,
        itunes_owner_name: "Owner".to_string(),
        itunes_owner_email: "owner@example.com".to_string(),
        sy_update_period: "hourly".to_string(),
        sy_update_frequency: "1".to_string(),
    }
}

fn episode(id: &str, channel_id: &str, n: i32) -> Item {
    Item {
        id: id.to_string(),
        channel_id: channel_id.to_string(),
        ep_number: n,
        title: format!("Episode {}", n),
        author: "Author".to_string(),
        category: "Technology".to_string(),
        description: "An episode".to_string(),
        content_encoded: "<p>hello</p>".to_string(),
        enclosure_url: format!("https://example.com/{}.mp3", id),
        enclosure_type: "audio/mpeg".to_string(),
        enclosure_length: "12345".to_string(),
        i_link: "https://example.com/ep".to_string(),
        pub_date: "Tue, 02 Jan 2024 00:00:00 +0000".to_string(),
        itunes_subtitle: "sub".to_string(),
        itunes_image: "https://example.com/ep.png".to_string(),
        itunes_duration: "01:02:03".to_string(),
    }
}

#[test]
fn round_trip_recovers_title_link_and_guids() {
    let ch = channel("chan-1", "My Show & Friends <live>");
    let eps = vec![
        episode("guid-a", "chan-1", 1),
        episode("guid-b", "chan-1", 2),
    ];
    let doc = render_channel(&ch, eps);
    let parsed = parse_feed(doc.as_str()).expect("built document must parse");
    assert_eq!(parsed.title, "My Show & Friends <live>");
    assert_eq!(parsed.link, "https://example.com/feed");
    let mut guids = parsed.guids.clone();
    guids.sort();
    assert_eq!(guids, vec!["guid-a".to_string(), "guid-b".to_string()]);
}

#[test]
fn episodes_render_newest_sequence_number_first() {
    let ch = channel("chan-1", "Ordered Show");
    let eps = vec![
        episode("g-one", "chan-1", 1),
        episode("g-three", "chan-1", 3),
        episode("g-two", "chan-1", 2),
    ];
    let doc = render_channel(&ch, eps);
    let parsed = parse_feed(doc.as_str()).expect("built document must parse");
    assert_eq!(
        parsed.guids,
        vec!["g-three".to_string(), "g-two".to_string(), "g-one".to_string()]
    );
}

#[test]
fn round_trip_with_empty_episode_list() {
    let ch = channel("chan-2", "Empty Show");
    let doc = render_channel(&ch, Vec::new());
    let parsed = parse_feed(doc.as_str()).expect("built document must parse");
    assert_eq!(parsed.title, "Empty Show");
    assert!(parsed.guids.is_empty());
}

#[test]
fn fields_are_escaped_in_the_document() {
    let ch = channel("chan-3", "a<b&c\"d'e>f");
    let doc = render_channel(&ch, Vec::new());
    assert!(doc.contains("a&lt;b&amp;c&quot;d&apos;e&gt;f"));
    assert!(!doc.contains("a<b&c"));
}

#[test]
fn missing_duration_renders_blank() {
    let ch = channel("chan-4", "Durations");
    let mut with_none = episode("g-n", "chan-4", 1);
    with_none.itunes_duration = "NONE".to_string();
    let doc = render_channel(&ch, vec![with_none]);
    assert!(doc.contains("<itunes:duration></itunes:duration>"));
}

#[test]
fn parse_rejects_arbitrary_text() {
    assert!(parse_feed("this is not a feed").is_none());
    assert!(parse_feed("").is_none());
}

#[test]
fn escape_exact_values() {
    assert_eq!(escape_text("a<b&c"), "a&lt;b&amp;c");
    assert_eq!(escape_text("\"quoted\" & 'single'"), "&quot;quoted&quot; &amp; &apos;single&apos;");
    assert_eq!(escape_text("plain"), "plain");
}

#[test]
fn unescape_inverts_escape() {
    let original = "x<y>&\"z'";
    let escaped = escape_text(original);
    let cs = chars_of(escaped.as_str());
    let back = unescape_range(&cs, 0, cs.len()).expect("escaped text must unescape");
    assert_eq!(back, original);
}

#[test]
fn unescape_rejects_stray_ampersand() {
    let cs = chars_of("a&b");
    assert!(unescape_range(&cs, 0, cs.len()).is_none());
}

#[test]
fn sort_is_descending_by_ep_number() {
    let eps = vec![
        episode("a", "c", 5),
        episode("b", "c", 9),
        episode("d", "c", 1),
    ];
    let sorted = sort_episodes_desc(eps);
    let nums: Vec<i32> = sorted.iter().map(|e| e.ep_number).collect();
    assert_eq!(nums, vec![9, 5, 1]);
}

#[test]
fn build_feed_uses_given_order() {
    let ch = channel("chan-5", "Manual Order");
    let eps = vec![episode("first", "chan-5", 1), episode("second", "chan-5", 2)];
    let doc = build_feed(&ch, &eps);
    let parsed = parse_feed(doc.as_str()).expect("built document must parse");
    assert_eq!(parsed.guids, vec!["first".to_string(), "second".to_string()]);
}

#[test]
fn number_rendering_exact_values() {
    assert_eq!(u64_to_string(0), "0");
    assert_eq!(u64_to_string(7), "7");
    assert_eq!(u64_to_string(1234567890), "1234567890");
    assert_eq!(i32_to_string(-144), "-144");
    assert_eq!(i32_to_string(i32::MIN), "-2147483648");
    assert_eq!(i32_to_string(144), "144");
}

#[test]
fn replace_all_exact_values() {
    assert_eq!(replace_all("https://x.y", "https://", "https://b."), "https://b.x.y");
    assert_eq!(replace_all("abcabc", "b", "BB"), "aBBcaBBc");
    assert_eq!(replace_all("none here", "zz", "q"), "none here");
}

#[test]
fn normalize_title_maps_hyphens() {
    assert_eq!(normalize_title("my-show"), "my show");
    assert_eq!(normalize_title("nothing"), "nothing");
}

#[test]
fn round_trip_preserves_text_outside_ascii() {
    let mut ch = channel("chan-6", "Ü <Späße> & Töne");
    ch.c_link = "https://example.com/f\u{00e9}ed".to_string();
    let eps = vec![episode("gü-1", "chan-6", 1)];
    let doc = render_channel(&ch, eps);
    let parsed = parse_feed(doc.as_str()).expect("built document must parse");
    assert_eq!(parsed.title, "Ü <Späße> & Töne");
    assert_eq!(parsed.link, "https://example.com/f\u{00e9}ed");
    assert_eq!(parsed.guids, vec!["gü-1".to_string()]);
}
