use coral::evidence_manage::{
    archived_header, close_opener, evidence_footer, evidence_header, manager_ids, media_url, other_files,
    remove_file, remove_media_heading, remove_target, select_opener, evidence_forum, evidence_thread_title,
    fetched_evidence, review_evidence_names,
};
use coral::evidence_state::{ingest_text, EvidenceItem, EvidenceState};

fn item(f: &str) -> EvidenceItem {
    EvidenceItem { filename: f.to_string() }
}

#[test]
fn managers_belong_to_their_opener() {
    assert_eq!(select_opener("evidence_msel:abcd:42"), 42);
    assert_eq!(select_opener("evidence_msel:abcd:x"), 0);
    assert_eq!(select_opener("other:42"), 0);
    assert_eq!(close_opener("evidence_mclose:abcd:77"), 77);
    assert_eq!(close_opener("77"), 77);
}

#[test]
fn remove_buttons_name_uuid_opener_and_file() {
    assert_eq!(remove_target("evidence_mrem:abcd:42:clip:1.mp4"), ("abcd".to_string(), 42, "clip:1.mp4".to_string()));
    assert_eq!(remove_target("evidence_mrem:abcd:42"), ("abcd".to_string(), 42, "".to_string()));
    assert_eq!(remove_target("evidence_mrem:abcd"), ("abcd".to_string(), 0, "".to_string()));
    assert_eq!(remove_target("nope"), ("".to_string(), 0, "".to_string()));
}

#[test]
fn removing_a_file_keeps_the_others_in_order() {
    let items = vec![item("a.png"), item("b.png"), item("a.png"), item("c.mp4")];
    let left: Vec<String> = remove_file(items, "a.png").into_iter().map(|i| i.filename).collect();
    assert_eq!(left, vec!["b.png".to_string(), "c.mp4".to_string()]);
}

#[test]
fn post_headers_and_footer() {
    assert_eq!(evidence_header("Foo", true), "## <:evidencefound:1482666860225888346> Evidence \u{2014} `Foo`");
    assert_eq!(evidence_header("Foo", false), "## <:noevidence:1482666258938990696> Evidence \u{2014} `Foo`");
    assert_eq!(
        evidence_footer("0123456789abcdef0123456789abcdef", Some("https://x/y")),
        "-# UUID: 01234567-89ab-cdef-0123-456789abcdef \u{b7} [Review](https://x/y)"
    );
    assert_eq!(evidence_footer("short", None), "-# UUID: short");
    assert_eq!(
        archived_header("Foo", false, "-# UUID: x"),
        "## <:noevidence:1482666258938990696> Evidence \u{2014} `Foo` (Archived)\n-# UUID: x"
    );
}

#[test]
fn gallery_urls_fall_back_to_attachments() {
    assert_eq!(media_url("a.png", Some("https://cdn/a.png")), "https://cdn/a.png");
    assert_eq!(media_url("a.png", None), "attachment://a.png");
}

#[test]
fn manager_controls_read_back() {
    let (sel, rem, close) = manager_ids("abcd", 42, "clip_2.mp4");
    assert_eq!(sel, "evidence_msel:abcd:42");
    assert_eq!(rem, "evidence_mrem:abcd:42:clip_2.mp4");
    assert_eq!(close, "evidence_mclose:abcd:42");
    assert_eq!(select_opener(&sel), 42);
    assert_eq!(close_opener(&close), 42);
    assert_eq!(remove_target(&rem), ("abcd".to_string(), 42, "clip_2.mp4".to_string()));
    assert_eq!(remove_media_heading("clip_2.mp4"), "## Remove Media\n`clip` (2)");
}

#[test]
fn manager_offers_the_other_files() {
    assert!(other_files(&vec![item("a.png")], "a.png").is_none());
    let offered = other_files(&vec![item("a.png"), item("clip_2.mp4"), item("b.png")], "a.png").unwrap();
    assert_eq!(offered, vec![
        ("clip (2)".to_string(), "clip_2.mp4".to_string()),
        ("b".to_string(), "b.png".to_string()),
    ]);
}

#[test]
fn headers_read_back_as_their_name() {
    let mut st = EvidenceState::empty();
    ingest_text(&mut st, &evidence_header("Some_Name", true));
    assert_eq!(st.username, "Some_Name");
    let mut st2 = EvidenceState::empty();
    ingest_text(&mut st2, &archived_header("Other", false, "-# UUID: x"));
    assert_eq!(st2.username, "Other");
}

#[test]
fn evidence_from_a_review() {
    assert_eq!(evidence_forum(Some(5)), Ok(5));
    assert_eq!(evidence_forum(None), Err("Evidence forum channel not configured"));
    let t = evidence_thread_title("Steve", "0123456789abcdef0123456789abcdef");
    assert_eq!(t, "Steve | 01234567-89ab-cdef-0123-456789abcdef");
    assert_eq!(
        coral::evidence_text::extract_uuid_from_title(&t).as_deref(),
        Some("0123456789abcdef0123456789abcdef")
    );
    let urls = vec!["https://cdn/a/x.PNG?ex=1".to_string(), "https://cdn/b/y.mp4".to_string()];
    let names = review_evidence_names("Steve", &urls);
    assert_eq!(names, vec!["Steve_1.PNG".to_string(), "Steve_2.mp4".to_string()]);
    let items = fetched_evidence(&names, &vec![false, true]);
    assert_eq!(items.len(), 1);
    assert_eq!(items[0].filename, "Steve_2.mp4");
}
