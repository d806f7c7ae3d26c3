use applejuicecli::rpc::{
    classify_log_line, default_presence, BloxstrapNotice, convert_into_assetdelivery_url, default_presence_state, presence_update, LogLine,
    PresenceOutcome, RichPresence, RichPresenceData, RichPresenceImage,
};

#[test]
fn log_lines_are_classified() {
    match classify_log_line("2024 [FLog::Output] [BloxstrapRPC] {\"command\":\"x\"}") {
        LogLine::Rpc(p) => assert_eq!(p, "{\"command\":\"x\"}"),
        _ => panic!("expected rpc"),
    }
    match classify_log_line("a [BloxstrapRPC] b [BloxstrapRPC] c") {
        LogLine::Rpc(p) => assert_eq!(p, "b "),
        _ => panic!("expected rpc"),
    }
    assert!(matches!(classify_log_line("x leaveUGCGameInternal y"), LogLine::GameLeave));
    assert!(matches!(classify_log_line("nothing"), LogLine::Other));
}

fn data(time_start: Option<i64>, time_end: Option<i64>) -> RichPresenceData {
    RichPresenceData {
        state: Some("In a game".to_string()),
        details: Some(String::new()),
        time_start,
        time_end,
        small_image: None,
        large_image: Some(RichPresenceImage { asset_id: Some(42), hover_text: Some("hi".to_string()), clear: false, reset: false }),
    }
}

#[test]
fn presence_from_message() {
    let msg = RichPresence { command: Some("SetRichPresence".to_string()), data: Some(data(None, None)) };
    match presence_update(msg, 1000) {
        PresenceOutcome::Update(u) => {
            assert_eq!(u.state, Some("In a game".to_string()));
            assert_eq!(u.details, None);
            assert_eq!(u.start, Some(1000));
            assert_eq!(u.end, None);
            assert_eq!(u.large_image.url, Some("https://assetdelivery.roblox.com/v1/asset/?id=42".to_string()));
            assert_eq!(u.large_image.text, Some("hi".to_string()));
            assert_eq!(u.small_image.url, None);
        }
        _ => panic!("expected update"),
    }
    let msg = RichPresence { command: Some("SetRichPresence".to_string()), data: Some(data(Some(5), Some(9))) };
    match presence_update(msg, 1000) {
        PresenceOutcome::Update(u) => {
            assert_eq!(u.start, None);
            assert_eq!(u.end, Some(9));
        }
        _ => panic!("expected update"),
    }
    let msg = RichPresence { command: Some("SetRichPresence".to_string()), data: Some(data(Some(5), Some(0))) };
    match presence_update(msg, 1000) {
        PresenceOutcome::Update(u) => assert_eq!(u.start, Some(5)),
        _ => panic!("expected update"),
    }
}

#[test]
fn other_messages_are_ignored() {
    let msg = RichPresence { command: None, data: Some(data(None, None)) };
    assert!(matches!(presence_update(msg, 0), PresenceOutcome::MissingCommand));
    let msg = RichPresence { command: Some("SetLaunchData".to_string()), data: Some(data(None, None)) };
    assert!(matches!(presence_update(msg, 0), PresenceOutcome::OtherCommand));
}

#[test]
fn assetdelivery_addresses() {
    assert_eq!(convert_into_assetdelivery_url(123), "https://assetdelivery.roblox.com/v1/asset/?id=123");
    assert_eq!(convert_into_assetdelivery_url(-7), "https://assetdelivery.roblox.com/v1/asset/?id=-7");
    assert_eq!(default_presence_state("Player"), "Using Roblox Player on Linux!");
}

#[test]
fn default_presence_payload() {
    let p = default_presence("Studio", "Meower Approved", 77);
    assert_eq!(p.state, Some("Using Roblox Studio on Linux!".to_string()));
    assert_eq!(p.details, Some("With Applejuice".to_string()));
    assert_eq!(p.start, Some(77));
    assert_eq!(p.end, None);
    assert_eq!(p.large_image.url, Some("crudejuice".to_string()));
    assert_eq!(p.large_image.text, Some("Meower Approved".to_string()));
    assert_eq!(p.small_image.url, None);
}

#[test]
fn bloxstrap_notice_only_once() {
    let mut notice = BloxstrapNotice::new();
    assert!(notice.message_seen());
    assert!(!notice.message_seen());
    assert!(notice.detected);
}

#[test]
fn only_the_first_bloxstrap_message_notifies() {
    let mut notice = BloxstrapNotice::new();
    let seen: Vec<bool> = (0..5).map(|_| notice.message_seen()).collect();
    assert_eq!(seen, vec![true, false, false, false, false]);
}

#[test]
fn asset_ids_are_written_in_decimal() {
    assert_eq!(convert_into_assetdelivery_url(0), "https://assetdelivery.roblox.com/v1/asset/?id=0");
    assert_eq!(convert_into_assetdelivery_url(10), "https://assetdelivery.roblox.com/v1/asset/?id=10");
    assert_eq!(
        convert_into_assetdelivery_url(i64::MIN),
        "https://assetdelivery.roblox.com/v1/asset/?id=-9223372036854775808"
    );
    assert_eq!(
        convert_into_assetdelivery_url(i64::MAX),
        "https://assetdelivery.roblox.com/v1/asset/?id=9223372036854775807"
    );
}
