use coral::minecraft::sanitize_reason;
use coral::evidence_state::{
    evidence_filename, gallery_item_filename, ingest_text, upload_failure_message, upload_refusal,
    EvidenceItem, EvidenceState,
};

#[test]
fn evidence_post_reads_back() {
    let mut st = EvidenceState::empty();
    let content = "## <:e:1> Evidence \u{2014} `Steve`\n\
**<:t:2> Confirmed Cheater**\n\
> uses killaura\n\
> -# **\\- Added by `@mod` <t:1:R>**\n\
> -# **\\- Reviewed by `@a`, `@b`**\n\
-# UUID: 069a79f4-44e9-4726-a5be-fca90e38aaf5 \u{b7} [Review](https://discord.com/channels/1/2)";
    ingest_text(&mut st, content);
    assert_eq!(st.username, "Steve");
    assert_eq!(st.uuid, "069a79f444e94726a5befca90e38aaf5");
    assert_eq!(st.reason, "uses killaura");
    assert_eq!(st.added_line.as_deref(), Some("> -# **\\- Added by `@mod` <t:1:R>**"));
    assert_eq!(st.reviewed_line.as_deref(), Some("> -# **\\- Reviewed by `@a`, `@b`**"));
    assert_eq!(st.review_url.as_deref(), Some("https://discord.com/channels/1/2"));
}

#[test]
fn archived_header_and_plain_uuid_line() {
    let mut st = EvidenceState::empty();
    st.evidence.push(EvidenceItem { filename: "a.png".to_string() });
    ingest_text(&mut st, "## x Evidence \u{2014} `Alex` (Archived)\r\nUUID: `1234-5678`");
    assert_eq!(st.username, "Alex");
    assert_eq!(st.uuid, "12345678");
    assert_eq!(st.evidence.len(), 1);
    assert_eq!(st.review_url, None);
}

#[test]
fn first_reason_and_first_added_line_win() {
    let mut st = EvidenceState::empty();
    ingest_text(&mut st, "> first\n> second\n> -# **\\- one\n> -# **\\- two\n> -# note");
    assert_eq!(st.reason, "first");
    assert_eq!(st.added_line.as_deref(), Some("> -# **\\- one"));
    assert_eq!(st.reviewed_line, None);
}

#[test]
fn gallery_names_and_upload_names() {
    assert_eq!(gallery_item_filename("https://cdn.x/attachments/1/2/Steve_1.png?ex=abc"), "Steve_1.png");
    assert_eq!(gallery_item_filename("plain"), "plain");
    assert_eq!(evidence_filename("Steve", 3, "mp4"), "Steve_3.mp4");
}

#[test]
fn upload_replies() {
    assert_eq!(
        upload_refusal(0, 2),
        Some("Only images and videos are accepted (png, jpg, gif, webp, mp4, webm, mov)")
    );
    assert_eq!(upload_refusal(1, 2), None);
    assert_eq!(upload_refusal(0, 0), None);
    assert_eq!(
        upload_failure_message("HTTP 413 Payload Too Large"),
        "File too large. Try compressing or using a smaller file."
    );
    assert_eq!(
        upload_failure_message("the file is too large"),
        "File too large. Try compressing or using a smaller file."
    );
    assert_eq!(upload_failure_message("timeout"), "Failed to upload evidence. Please try again.");
}

#[test]
fn post_reasons_lose_their_escapes() {
    let reason = "uses [reach] & _velocity_ #1";
    let line = format!("> {}", sanitize_reason(reason));
    let mut st = EvidenceState::empty();
    ingest_text(&mut st, &line);
    assert_eq!(st.reason, reason);
    assert_eq!(format!("> {}", sanitize_reason(&st.reason)), line);
}
