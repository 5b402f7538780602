use coral::minecraft::{format_number, format_uuid_dashed, generate_api_key, sanitize_reason, unsanitize_reason};

#[test]
fn sanitize_round_trips() {
    for reason in [
        "autoclutch (temp tag, i will change later)",
        "uses \\ backslash * and _underscores_",
        "plain reason",
    ] {
        assert_eq!(unsanitize_reason(&sanitize_reason(reason)), reason);
    }
}

#[test]
fn re_rendering_does_not_stack_escapes() {
    let raw = "autoclutch (temp tag)";
    let once = sanitize_reason(raw);
    let twice = sanitize_reason(&unsanitize_reason(&once));
    assert_eq!(once, twice);
}

#[test]
fn format_number_groups_thousands() {
    assert_eq!(format_number(0), "0");
    assert_eq!(format_number(999), "999");
    assert_eq!(format_number(1000), "1,000");
    assert_eq!(format_number(1234567), "1,234,567");
    assert_eq!(format_number(u64::MAX), "18,446,744,073,709,551,615");
}

#[test]
fn sanitize_escapes_markdown_and_flattens_lines() {
    assert_eq!(sanitize_reason("a*b\nc"), "a\\*b c");
    assert_eq!(sanitize_reason("<@1>"), "\\<\\@1\\>");
}

#[test]
fn unsanitize_keeps_lone_backslashes() {
    assert_eq!(unsanitize_reason("a\\b"), "a\\b");
    assert_eq!(unsanitize_reason("a\\*b"), "a*b");
    assert_eq!(unsanitize_reason("\\"), "\\");
}

#[test]
fn uuids_get_dashes() {
    assert_eq!(
        format_uuid_dashed("069a79f444e94726a5befca90e38aaf5"),
        "069a79f4-44e9-4726-a5be-fca90e38aaf5"
    );
    assert_eq!(format_uuid_dashed("short"), "short");
    assert_eq!(
        format_uuid_dashed("069a79f4-44e9-4726-a5be-fca90e38aaf5"),
        "069a79f4-44e9-4726-a5be-fca90e38aaf5"
    );
}

#[test]
fn api_keys_are_v4_uuids() {
    let a = generate_api_key();
    let b = generate_api_key();
    assert_eq!(a.len(), 36);
    assert_ne!(a, b);
    let chars: Vec<char> = a.chars().collect();
    for (i, c) in chars.iter().enumerate() {
        if i == 8 || i == 13 || i == 18 || i == 23 {
            assert_eq!(*c, '-');
        } else {
            assert!(c.is_ascii_hexdigit() && !c.is_ascii_uppercase());
        }
    }
    assert_eq!(chars[14], '4');
    assert!("89ab".contains(chars[19]));
}

#[test]
fn escapes_read_back_exactly() {
    for reason in ["\\*", "a\\\\b", "\\", "x\\_y*", "ends with \\"] {
        assert_eq!(unsanitize_reason(&sanitize_reason(reason)), reason);
    }
    assert_eq!(unsanitize_reason("\\\\\\*"), "\\*");
}
