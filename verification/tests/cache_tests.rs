use podcast_feed::cache::{Xml, CacheError};

fn cache_with(entries: &[(&str, &str, &str)]) -> Xml {
    let mut c = Xml::new();
    for (id, title, body) in entries {
        c.insert(id.to_string(), title.to_string(), body.to_string())
            .expect("fresh ids insert");
    }
    c
}

#[test]
fn lookup_normalizes_hyphens_and_case() {
    let c = cache_with(&[("id-1", "My Show", "<doc one>")]);
    let served = c.get_feed("my-show").expect("the title must resolve");
    assert_eq!(served, "<doc one>");
}

#[test]
fn two_reads_without_writes_are_byte_identical() {
    let c = cache_with(&[("id-1", "My Show", "<doc one>")]);
    let a = c.get_feed("My Show").expect("present");
    let b = c.get_feed("My Show").expect("present");
    assert_eq!(a, b);
}

#[test]
fn get_by_id_returns_the_whole_document_record() {
    let c = cache_with(&[("id-1", "Alpha", "<a>"), ("id-2", "Beta", "<b>")]);
    let d = c.get_by_id("id-2").expect("present");
    assert_eq!(d.external_id, "id-2");
    assert_eq!(d.title, "Beta");
    assert_eq!(d.body, "<b>");
    assert!(c.get_by_id("id-3").is_none());
}

#[test]
fn get_by_title_is_case_insensitive() {
    let c = cache_with(&[("id-1", "Alpha Show", "<a>")]);
    let d = c.get_by_title("ALPHA show").expect("present");
    assert_eq!(d.external_id, "id-1");
    assert!(c.get_by_title("beta").is_none());
}

#[test]
fn replace_swaps_only_the_target_slot() {
    let mut c = cache_with(&[("id-1", "Alpha", "<a>"), ("id-2", "Beta", "<b>")]);
    c.replace("id-1", "<a2>".to_string()).expect("slot exists");
    assert_eq!(c.get_by_id("id-1").unwrap().body, "<a2>");
    assert_eq!(c.get_by_id("id-2").unwrap().body, "<b>");
}

#[test]
fn replace_without_slot_is_refused_and_changes_nothing() {
    let mut c = cache_with(&[("id-1", "Alpha", "<a>")]);
    let r = c.replace("id-9", "<x>".to_string());
    assert_eq!(r, Err(CacheError::NotFound));
    assert_eq!(c.get_by_id("id-1").unwrap().body, "<a>");
    assert!(c.get_by_id("id-9").is_none());
}

#[test]
fn insert_duplicate_id_is_refused() {
    let mut c = cache_with(&[("id-1", "Alpha", "<a>")]);
    let r = c.insert("id-1".to_string(), "Other".to_string(), "<x>".to_string());
    assert_eq!(r, Err(CacheError::AlreadyExists));
    assert_eq!(c.get_by_id("id-1").unwrap().body, "<a>");
}

#[test]
fn upsert_replaces_or_creates() {
    let mut c = cache_with(&[("id-1", "Alpha", "<a>")]);
    c.upsert("id-1".to_string(), "Alpha".to_string(), "<a2>".to_string());
    assert_eq!(c.get_by_id("id-1").unwrap().body, "<a2>");
    c.upsert("id-2".to_string(), "Beta".to_string(), "<b>".to_string());
    assert_eq!(c.get_by_id("id-2").unwrap().body, "<b>");
}

#[test]
fn distinct_channel_replacements_commute() {
    let mut first = cache_with(&[("id-1", "Alpha", "<a>"), ("id-2", "Beta", "<b>")]);
    let mut second = cache_with(&[("id-1", "Alpha", "<a>"), ("id-2", "Beta", "<b>")]);
    first.replace("id-1", "<a2>".to_string()).unwrap();
    first.replace("id-2", "<b2>".to_string()).unwrap();
    second.replace("id-2", "<b2>".to_string()).unwrap();
    second.replace("id-1", "<a2>".to_string()).unwrap();
    assert_eq!(first.get_by_id("id-1").unwrap().body, second.get_by_id("id-1").unwrap().body);
    assert_eq!(first.get_by_id("id-2").unwrap().body, second.get_by_id("id-2").unwrap().body);
}

#[test]
fn same_channel_last_write_wins() {
    let mut c = cache_with(&[("id-1", "Alpha", "<a>")]);
    c.replace("id-1", "<v1>".to_string()).unwrap();
    c.replace("id-1", "<v2>".to_string()).unwrap();
    assert_eq!(c.get_by_id("id-1").unwrap().body, "<v2>");
}

#[test]
fn get_vec_pos_finds_first_match() {
    let c = cache_with(&[("id-1", "Alpha", "<a>"), ("id-2", "Beta", "<b>")]);
    assert_eq!(c.get_vec_pos("id-1"), Some(0));
    assert_eq!(c.get_vec_pos("id-2"), Some(1));
    assert_eq!(c.get_vec_pos("id-3"), None);
    assert_eq!(c.get_vec_pos_by_title("beta"), Some(1));
    assert_eq!(c.get_vec_pos_by_title("gamma"), None);
}
