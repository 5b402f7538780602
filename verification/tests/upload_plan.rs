use coral::upload_plan::{
    converts_to_confirmed, evidence_after_uploads, post_update, post_upload_plan, review_upload_plan, upload_counts,
    PostUpdate, UploadStep,
};
use coral::evidence_state::EvidenceItem;

fn describe(steps: &[UploadStep]) -> Vec<String> {
    steps
        .iter()
        .map(|s| match s {
            UploadStep::Skipped => "skip".to_string(),
            UploadStep::Refused => "refuse".to_string(),
            UploadStep::Kept(n) => n.clone(),
        })
        .collect()
}

fn files(v: &[Option<&str>]) -> Vec<Option<String>> {
    v.iter().map(|f| f.map(|s| s.to_string())).collect()
}

#[test]
fn evidence_uploads_are_numbered_after_the_existing_files() {
    let plan = post_upload_plan(&files(&[Some("Clip.MP4"), Some("notes.txt"), None, Some("shot.png?x=1")]), 2, "Foo");
    assert_eq!(describe(&plan), vec!["Foo_3.mp4", "refuse", "skip", "Foo_6.png"]);
}

#[test]
fn review_uploads_stop_at_the_player_limit() {
    let plan = review_upload_plan(&files(&[Some("a.PNG"), Some("b.gif"), Some("c.png")]), 2, "Bar");
    assert_eq!(describe(&plan), vec!["Bar_3.png", "Bar_4.gif"]);
    assert!(review_upload_plan(&files(&[Some("a.png")]), 4, "Bar").is_empty());
    assert!(review_upload_plan(&files(&[Some("a.png")]), 9, "Bar").is_empty());
}

#[test]
fn review_extensions_come_from_the_last_dot() {
    let plan = review_upload_plan(&files(&[Some("clip.final.WEBM"), Some("noext")]), 0, "Baz");
    assert_eq!(describe(&plan), vec!["Baz_1.webm", "refuse"]);
}

#[test]
fn evidence_after_an_upload() {
    let files = vec![Some("a.PNG".to_string()), Some("b.txt".to_string()), Some("c.mp4".to_string())];
    let plan = post_upload_plan(&files, 2, "Steve");
    let existing = vec![EvidenceItem { filename: "Steve_1.png".to_string() }, EvidenceItem { filename: "Steve_2.png".to_string() }];
    let after = evidence_after_uploads(&existing, &plan, &vec![true, false, false]);
    let names: Vec<&str> = after.iter().map(|e| e.filename.as_str()).collect();
    assert_eq!(names, vec!["Steve_1.png", "Steve_2.png", "Steve_3.png"]);
    assert_eq!(upload_counts(&plan, &vec![true, false, false]), (1, 2));
    assert_eq!(upload_counts(&plan, &vec![false, false, false]), (0, 3));
    assert_eq!(post_update(0, 0, 0), PostUpdate::Untouched);
    assert_eq!(post_update(3, 0, 3), PostUpdate::Refused);
    assert_eq!(post_update(3, 1, 2), PostUpdate::Edit);
    assert!(converts_to_confirmed(0, true));
    assert!(!converts_to_confirmed(0, false));
    assert!(!converts_to_confirmed(2, true));
}
