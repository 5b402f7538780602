use coral::notices::{appeal_body, notice_warranted, reason_text, NoticeDelivery};

#[test]
fn delivery_log_lines() {
    assert_eq!(NoticeDelivery::not_notifiable().log_line(), "-# Player notice: not sent for this tag type");
    let d = NoticeDelivery::new();
    assert!(d.no_owner());
    assert_eq!(d.log_line(), "-# Player notice: not registered with Urchin, nothing sent");
    let mut d = NoticeDelivery::new();
    d.record(1, true, false);
    d.record(2, false, true);
    d.record(3, false, false);
    d.record(4, true, true);
    assert_eq!(d.pings(), &vec![2]);
    assert!(!d.no_owner());
    assert_eq!(
        d.log_line(),
        "-# Player notice: DM delivered to <@1>, <@4>\n\
-# Player notice: DMs closed for <@2>, pinged in server and queued for next command\n\
-# Player notice: DMs closed for <@3>, queued for next command"
    );
}

#[test]
fn notices_and_reasons() {
    assert!(notice_warranted(Some("sniper")));
    assert!(!notice_warranted(Some("replays_needed")));
    assert!(!notice_warranted(None));
    assert_eq!(reason_text(Some("  uses `x`  ")), "uses 'x'");
    assert_eq!(reason_text(Some("   ")), "No reason provided");
    assert_eq!(reason_text(None), "No reason provided");
}

#[test]
fn appeal_message() {
    let body = appeal_body(5, "Steve", "abc", "Sniper: camping");
    assert!(body.starts_with(
        "Dear <@5>,\nThis message is to inform you that your account `Steve` (`abc`) has been placed on the Urchin Blacklist Network for `Sniper: camping`.\n\nIf you believe this tag is false"
    ));
    assert!(body.ends_with("we appreciate your cooperation throughout this process."));
}
