use coral::evidence_text::{
    evidence_label, evidence_label_code, evidence_name_index, extract_evidence_name,
    extract_uuid_from_title, is_media, looks_like_uuid, sanitize_label, url_extension,
};

#[test]
fn uuids() {
    assert!(looks_like_uuid("069a79f4-44e9-4726-a5be-fca90e38aaf5"));
    assert!(looks_like_uuid("069A79F444E94726A5BEFCA90E38AAF5"));
    assert!(!looks_like_uuid("069a79f444e94726a5befca90e38aaf"));
    assert!(!looks_like_uuid("zz9a79f444e94726a5befca90e38aaf5"));
    assert_eq!(
        extract_uuid_from_title("Steve | 069a79f4-44e9-4726-a5be-fca90e38aaf5 "),
        Some("069a79f444e94726a5befca90e38aaf5".to_string())
    );
    assert_eq!(extract_uuid_from_title("Steve | nope"), None);
}

#[test]
fn media_names_and_labels() {
    assert_eq!(evidence_name_index("clip_2.mp4"), ("clip".to_string(), Some("2".to_string())));
    assert_eq!(evidence_name_index("my_clip_10.png"), ("my_clip".to_string(), Some("10".to_string())));
    assert_eq!(evidence_name_index("plain.png"), ("plain".to_string(), None));
    assert_eq!(evidence_label("Steve_3.png"), "Steve (3)");
    assert_eq!(evidence_label("plain"), "plain");
    assert_eq!(evidence_label_code("Steve_3.png"), "`Steve` (3)");
    assert_eq!(evidence_label_code("plain.gif"), "`plain`");
}

#[test]
fn extensions() {
    assert_eq!(url_extension("https://cdn.x/a/b/file.PNG?x=1.2"), "PNG");
    assert_eq!(url_extension("noext"), "noext");
    assert!(is_media("a.PNG"));
    assert!(is_media("b.mov"));
    assert!(!is_media("c.exe"));
}

#[test]
fn headers_and_labels() {
    assert_eq!(extract_evidence_name("<:e:1> Evidence \u{2014} `Steve` (Archived)"), Some("Steve".to_string()));
    assert_eq!(extract_evidence_name("Evidence"), None);
    assert_eq!(sanitize_label("a`b\nc"), "abc");
    assert_eq!(sanitize_label(&"x".repeat(40)), "x".repeat(32));
}
