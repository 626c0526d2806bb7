use podcast_feed::cache::Xml;
use podcast_feed::feed::parse_feed;
use podcast_feed::records::{Channel, Item, PodcastData};
use podcast_feed::upload::{
    begin_upload, step, UploadAction, UploadError, UploadEvent, UploadState,
};

fn channel(external_id: &str, title: &str) -> Channel {
    Channel {
        id: 1,
        external_id: external_id.to_string(),
        title: title.to_string(),
        category: "Technology".to_string(),
        description: "desc".to_string(),
        managing_editor: "editor@example.com".to_string(),
        generator: "podcast_feed".to_string(),
        image_url: "https://example.com/cover.png".to_string(),
        image_title: "Cover".to_string(),
        image_link: "https://example.com".to_string(),
        image_width: 144,
        image_height: 144,
        language: "en-us".to_string(),
        last_build_date: "Mon, 01 Jan 2024 00:00:00 +0000".to_string(),
        pub_date: "Mon, 01 Jan 2024 00:00:00 +0000".to_string(),
        c_link: "https://example.com/feed".to_string(),
        itunes_new_feed_url: "https://example.com/feed.xml".to_string(),
        itunes_explicit: false,
        itunes_owner_name: "Owner".to_string(),
        itunes_owner_email: "owner@example.com".to_string(),
        sy_update_period: "hourly".to_string(),
        sy_update_frequency: "1".to_string(),
    }
}

fn episode(id: &str, channel_id: &str, n: i32) -> Item {
    Item {
        id: id.to_string(),
        channel_id: channel_id.to_string(),
        ep_number: n,
        title: format!("Episode {}", n),
        author: "Author".to_string(),
        category: "Technology".to_string(),
        description: "An episode".to_string(),
        content_encoded: "text".to_string(),
        enclosure_url: String::new(),
        enclosure_type: String::new(),
        enclosure_length: String::new(),
        i_link: "https://example.com/ep".to_string(),
        pub_date: "Tue, 02 Jan 2024 00:00:00 +0000".to_string(),
        itunes_subtitle: "sub".to_string(),
        itunes_image: "https://example.com/ep.png".to_string(),
        itunes_duration: "00:30:00".to_string(),
    }
}

fn request(channel_id_of_item: &str) -> PodcastData {
    PodcastData {
        channel: channel("chan-1", "My Show"),
        item: episode("", channel_id_of_item, 3),
        session_token: "token-123".to_string(),
    }
}

const LINK: &str = "https://bucket.example.com";

#[test]
fn invalid_token_is_unauthorized() {
    let (st, act) = begin_upload(request("chan-1"));
    match act {
        UploadAction::CheckToken { token } => assert_eq!(token, "token-123"),
        _ => panic!("expected a token check"),
    }
    let (st2, act2) = step(st, UploadEvent::TokenChecked { valid: false }, LINK, 10);
    assert!(matches!(st2, UploadState::Rejected { error: UploadError::Unauthorized }));
    assert!(matches!(
        act2,
        UploadAction::Respond { result: Err(UploadError::Unauthorized) }
    ));
}

#[test]
fn mismatched_channel_is_rejected_with_validation_error() {
    // the episode claims a different channel than the upload targets
    for _ in 0..100 {
        let (st, _) = begin_upload(request("other-channel"));
        let (st2, act2) = step(st, UploadEvent::TokenChecked { valid: true }, LINK, 10);
        assert!(matches!(st2, UploadState::Rejected { error: UploadError::ValidationError }));
        assert!(matches!(
            act2,
            UploadAction::Respond { result: Err(UploadError::ValidationError) }
        ));
    }
}

#[test]
fn valid_upload_derives_key_url_and_length() {
    let (st, _) = begin_upload(request("chan-1"));
    let (st2, act2) = step(st, UploadEvent::TokenChecked { valid: true }, LINK, 4321);
    let key = match &act2 {
        UploadAction::PutBlob { key, content_type, public_read } => {
            assert_eq!(content_type, "audio/mpeg");
            assert!(*public_read);
            assert!(key.ends_with(".mp3"));
            key.clone()
        },
        _ => panic!("expected a blob write"),
    };
    match &st2 {
        UploadState::WritingBlob { data, key: k } => {
            assert_eq!(*k, key);
            assert_eq!(data.item.enclosure_type, "audio/mpeg");
            assert_eq!(data.item.enclosure_length, "4321");
            assert_eq!(
                data.item.enclosure_url,
                format!("{}/{}", LINK, key)
            );
        },
        _ => panic!("expected to be writing the blob"),
    }
}

#[test]
fn blob_failure_aborts_without_compensation() {
    let (st, _) = begin_upload(request("chan-1"));
    let (st2, _) = step(st, UploadEvent::TokenChecked { valid: true }, LINK, 10);
    let (st3, act3) = step(st2, UploadEvent::BlobPut { ok: false }, LINK, 10);
    assert!(matches!(
        st3,
        UploadState::Failed { error: UploadError::UpstreamError, compensation_failed: false }
    ));
    assert!(matches!(act3, UploadAction::Respond { result: Err(UploadError::UpstreamError) }));
}

#[test]
fn metadata_failure_deletes_the_written_blob() {
    let (st, _) = begin_upload(request("chan-1"));
    let (st2, act2) = step(st, UploadEvent::TokenChecked { valid: true }, LINK, 10);
    let written_key = match act2 {
        UploadAction::PutBlob { key, .. } => key,
        _ => panic!("expected a blob write"),
    };
    let (st3, _) = step(st2, UploadEvent::BlobPut { ok: true }, LINK, 10);
    let (st4, act4) = step(st3, UploadEvent::MetadataStored { ok: false }, LINK, 10);
    match act4 {
        UploadAction::DeleteBlob { key } => assert_eq!(key, written_key),
        _ => panic!("the compensation must delete the blob"),
    }
    assert!(matches!(st4, UploadState::CompensatingDelete { .. }));
    // a failed compensation is reported, never dropped
    let (st5, act5) = step(st4, UploadEvent::BlobDeleted { ok: false }, LINK, 10);
    assert!(matches!(
        st5,
        UploadState::Failed { error: UploadError::UpstreamError, compensation_failed: true }
    ));
    assert!(matches!(act5, UploadAction::Respond { result: Err(UploadError::UpstreamError) }));
}

#[test]
fn successful_upload_rebuilds_the_feed_and_echoes_the_token() {
    let (st, _) = begin_upload(request("chan-1"));
    let (st2, _) = step(st, UploadEvent::TokenChecked { valid: true }, LINK, 10);
    let (st3, act3) = step(st2, UploadEvent::BlobPut { ok: true }, LINK, 10);
    match act3 {
        UploadAction::StoreMetadata { data } => assert_eq!(data.channel.external_id, "chan-1"),
        _ => panic!("expected the metadata write"),
    }
    let (st4, act4) = step(st3, UploadEvent::MetadataStored { ok: true }, LINK, 10);
    match act4 {
        UploadAction::FetchFeedRows { channel_external_id } => {
            assert_eq!(channel_external_id, "chan-1")
        },
        _ => panic!("expected the requery"),
    }
    let rows = vec![episode("guid-1", "chan-1", 1), episode("guid-2", "chan-1", 2)];
    let (st5, act5) = step(
        st4,
        UploadEvent::FeedRows { channel: Some(channel("chan-1", "My Show")), items: rows },
        LINK,
        10,
    );
    match st5 {
        UploadState::Done { receipt } => assert_eq!(receipt, "token-123"),
        _ => panic!("expected the upload to finish"),
    }
    match act5 {
        UploadAction::ApplyCache { external_id, title, document } => {
            assert_eq!(external_id, "chan-1");
            assert_eq!(title, "My Show");
            let parsed = parse_feed(document.as_str()).expect("rebuilt feed must parse");
            assert_eq!(parsed.title, "My Show");
            let mut guids = parsed.guids.clone();
            guids.sort();
            assert_eq!(guids, vec!["guid-1".to_string(), "guid-2".to_string()]);
            // the driver applies the swap: afterwards the feed is served
            let mut cache = Xml::new();
            cache.upsert(external_id, title, document);
            assert!(cache.get_feed("my-show").is_some());
        },
        _ => panic!("expected the cache swap"),
    }
}

#[test]
fn missing_channel_on_requery_is_a_consistency_error() {
    let (st, _) = begin_upload(request("chan-1"));
    let (st2, _) = step(st, UploadEvent::TokenChecked { valid: true }, LINK, 10);
    let (st3, _) = step(st2, UploadEvent::BlobPut { ok: true }, LINK, 10);
    let (st4, _) = step(st3, UploadEvent::MetadataStored { ok: true }, LINK, 10);
    let (st5, act5) = step(
        st4,
        UploadEvent::FeedRows { channel: None, items: Vec::new() },
        LINK,
        10,
    );
    assert!(matches!(
        st5,
        UploadState::Failed { error: UploadError::ConsistencyError, .. }
    ));
    assert!(matches!(
        act5,
        UploadAction::Respond { result: Err(UploadError::ConsistencyError) }
    ));
}

#[test]
fn repeated_uploads_to_one_channel_leave_the_last_feed() {
    let mut cache = Xml::new();
    for round in 1..=2 {
        let (st, _) = begin_upload(request("chan-1"));
        let (st, _) = step(st, UploadEvent::TokenChecked { valid: true }, LINK, 10);
        let (st, _) = step(st, UploadEvent::BlobPut { ok: true }, LINK, 10);
        let (st, _) = step(st, UploadEvent::MetadataStored { ok: true }, LINK, 10);
        let rows: Vec<Item> = (1..=round).map(|n| episode(&format!("g-{}", n), "chan-1", n)).collect();
        let (_, act) = step(
            st,
            UploadEvent::FeedRows { channel: Some(channel("chan-1", "My Show")), items: rows },
            LINK,
            10,
        );
        match act {
            UploadAction::ApplyCache { external_id, title, document } => {
                cache.upsert(external_id, title, document);
            },
            _ => panic!("expected the cache swap"),
        }
    }
    // the served feed reflects the last committed write: both episodes
    let body = cache.get_feed("My Show").expect("cached");
    let parsed = parse_feed(body.as_str()).expect("parses");
    assert_eq!(parsed.guids.len(), 2);
}
