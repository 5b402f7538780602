use coral::tag_posts::{
    access_change_texts, change_texts, key_change_texts, lock_lines, post_heading, removal_footers,
    tagging_toggle_texts, watcher_pings,
};

#[test]
fn headings_and_footers() {
    assert_eq!(post_heading("<:a:1>", "New Tag", "Foo"), "## <:a:1> New Tag\nIGN - `Foo`\n");
    assert_eq!(
        removal_footers("mod", "0-1"),
        ("-# Removed by `@mod`\n-# UUID: 0-1".to_string(), "-# UUID: 0-1".to_string())
    );
    assert_eq!(
        change_texts("old", "new", "Tag Edited", "mod", "0-1"),
        ("Previous:\nold".to_string(), "New:\nnew".to_string(), "-# Tag Edited by `@mod`\n-# UUID: 0-1".to_string())
    );
}

#[test]
fn lock_posts() {
    assert_eq!(
        lock_lines(true, "<:t:1>", "Foo", Some("a*b"), "mod", "0-1"),
        vec![
            "## <:t:1> Player Locked \u{1F512}\nIGN - `Foo`".to_string(),
            "> a\\*b".to_string(),
            "-# Locked by `@mod`\n-# UUID: 0-1".to_string(),
        ]
    );
    assert_eq!(
        lock_lines(false, "<:t:1>", "Foo", None, "mod", "0-1"),
        vec![
            "## <:t:1> Player Unlocked \u{1F513}\nIGN - `Foo`".to_string(),
            "-# Unlocked by `@mod`\n-# UUID: 0-1".to_string(),
        ]
    );
}

#[test]
fn member_posts() {
    assert_eq!(
        access_change_texts(5, "Member", "Helper", "boss"),
        ("## Access Level Changed\n<@5>".to_string(), "Member \u{2192} Helper".to_string(), "-# Changed by `@boss`".to_string())
    );
    assert_eq!(
        tagging_toggle_texts(5, true, "boss"),
        ("## Tagging Disabled\n<@5>".to_string(), "-# Changed by `@boss`".to_string())
    );
    assert_eq!(
        key_change_texts(5, false, "boss"),
        ("## API Key Unlocked \u{1F513}\n<@5>".to_string(), "-# Unlocked by `@boss`".to_string())
    );
}

#[test]
fn watcher_mentions() {
    assert_eq!(watcher_pings(&vec![]), None);
    assert_eq!(watcher_pings(&vec![1, 22]), Some("<@1> <@22>".to_string()));
}
