use coral::session_menu::{session_options, MarkerEntry, PeriodEntry, PresetEntry};

fn periods() -> Vec<PeriodEntry> {
    vec![
        PeriodEntry {
            key: "daily".to_string(),
            label: "Daily".to_string(),
            elapsed_secs: 3 * 3600 + 5 * 60,
            fixed: Some(("past_24h".to_string(), "Past 24 Hours".to_string())),
        },
        PeriodEntry { key: "weekly".to_string(), label: "Weekly".to_string(), elapsed_secs: 2 * 86400, fixed: None },
    ]
}

#[test]
fn menu_lists_periods_presets_bookmarks_and_create() {
    let descs = vec![
        ("daily".to_string(), "+3 wins".to_string()),
        ("marker:run*1".to_string(), "+1 win".to_string()),
    ];
    let presets = vec![PresetEntry { key: "last_game".to_string(), label: "Last Game".to_string(), age_secs: 30 }];
    let markers = vec![MarkerEntry { name: "run*1".to_string(), age_secs: 7200 }];
    let opts = session_options("42", "marker:run*1", &descs, &periods(), &presets, &markers, true);
    let labels: Vec<&str> = opts.iter().map(|o| o.label.as_str()).collect();
    assert_eq!(
        labels,
        vec![
            "Daily (3h 5m)",
            "Past 24 Hours",
            "Weekly (2d)",
            "Last Game (1m)",
            "\"run\\*1\" (2h)",
            "Create New Bookmark"
        ]
    );
    assert_eq!(opts[0].value, "daily:42");
    assert_eq!(opts[0].description.as_deref(), Some("+3 wins"));
    assert_eq!(opts[1].value, "past_24h:42");
    assert_eq!(opts[1].description.as_deref(), Some("No Data"));
    assert_eq!(opts[3].value, "preset:42:last_game");
    assert_eq!(opts[3].description, None);
    assert_eq!(opts[4].value, "marker:42:run*1");
    assert!(opts[4].default);
    assert!(!opts[0].default);
    assert_eq!(opts[4].description.as_deref(), Some("+1 win"));
    assert_eq!(opts[5].value, "create:42");
    assert_eq!(opts[5].description.as_deref(), Some("Bookmark your current stats"));
}

#[test]
fn bookmarks_stop_at_twenty_five_options() {
    let markers: Vec<MarkerEntry> =
        (0..40).map(|i| MarkerEntry { name: format!("m{i}"), age_secs: 60 }).collect();
    let opts = session_options("k", "daily", &vec![], &periods(), &vec![], &markers, true);
    assert_eq!(opts.len(), 25);
    assert_eq!(opts[24].label, "Create New Bookmark");
    assert_eq!(opts[23].value, "marker:k:m20");
    let opts = session_options("k", "daily", &vec![], &periods(), &vec![], &markers, false);
    assert_eq!(opts.len(), 25);
    assert!(opts[0].default);
}
