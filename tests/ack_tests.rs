use ferris_bot::ack::{
    acknowledge_fail, on_error, AckAction, AckStage, Acknowledgment, Failure, FailurePlan, Mode,
    MISSING_CODE_BLOCK,
};
use ferris_bot::emoji::{acknowledge_success, custom_emoji_code, eq_ignore_ascii_case, find_custom_emoji, CustomEmoji};

fn emojis() -> Vec<CustomEmoji> {
    vec![
        CustomEmoji { name: "ferris".to_string(), code: "<:ferris:1>".to_string() },
        CustomEmoji { name: "Rustacean".to_string(), code: "<:Rustacean:2>".to_string() },
        CustomEmoji { name: "rustacean".to_string(), code: "<:rustacean:3>".to_string() },
    ]
}

fn is_finish(a: &AckAction) -> bool {
    matches!(a, AckAction::Finish)
}

#[test]
fn native_success_replies_waits_deletes_and_swallows_delete_error() {
    let mut ack = acknowledge_success(Mode::Native, &emojis(), "FERRIS", '✅');
    match ack.step(true) {
        AckAction::Reply(t) => assert_eq!(t, "<:ferris:1>"),
        other => panic!("unexpected {:?}", other),
    }
    assert!(matches!(ack.step(true), AckAction::Sleep(3)));
    assert!(matches!(ack.step(true), AckAction::DeleteReply));
    // the reply was already gone: deletion failed
    assert!(is_finish(&ack.step(false)));
    assert_eq!(ack.stage, AckStage::Finished);
    assert!(is_finish(&ack.step(false)));
}

#[test]
fn native_success_reply_failure_skips_cleanup() {
    let mut ack = acknowledge_success(Mode::Native, &emojis(), "none", '✅');
    match ack.step(true) {
        AckAction::Reply(t) => assert_eq!(t, "✅"),
        other => panic!("unexpected {:?}", other),
    }
    assert!(is_finish(&ack.step(false)));
}

#[test]
fn legacy_success_reacts_once() {
    let mut ack = acknowledge_success(Mode::Legacy, &emojis(), "rustacean", '✅');
    match ack.step(true) {
        AckAction::React(t) => assert_eq!(t, "<:Rustacean:2>"),
        other => panic!("unexpected {:?}", other),
    }
    assert!(is_finish(&ack.step(false)));
}

#[test]
fn legacy_failure_reacts_and_survives_reaction_failure() {
    let plan = acknowledge_fail(Mode::Legacy, &Failure::Command("boom".to_string()));
    let mut ack = match plan {
        FailurePlan::Acknowledge(a) => a,
        other => panic!("unexpected {:?}", other),
    };
    match ack.step(true) {
        AckAction::React(t) => assert_eq!(t, "❌"),
        other => panic!("unexpected {:?}", other),
    }
    // the reaction could not be added
    assert!(is_finish(&ack.step(false)));
    assert_eq!(ack.stage, AckStage::Finished);
}

#[test]
fn native_failure_replies_with_explanation() {
    let plan = acknowledge_fail(Mode::Native, &Failure::Command("timed out".to_string()));
    let mut ack = match plan {
        FailurePlan::Acknowledge(a) => a,
        other => panic!("unexpected {:?}", other),
    };
    assert!(!ack.cleanup);
    match ack.step(true) {
        AckAction::Reply(t) => assert_eq!(t, "❌ timed out"),
        other => panic!("unexpected {:?}", other),
    }
    assert!(is_finish(&ack.step(true)));
}

#[test]
fn failure_constructor_contents() {
    assert_eq!(Acknowledgment::failure(Mode::Legacy, "x").content, "❌");
    assert_eq!(Acknowledgment::failure(Mode::Native, "x").content, "❌ x");
}

#[test]
fn parse_failures_go_to_error_handler() {
    let missing = Failure::ArgumentParse {
        message: "no block".to_string(),
        missing_code_block: true,
        help: Some("help".to_string()),
    };
    match acknowledge_fail(Mode::Legacy, &missing) {
        FailurePlan::Respond(t) => assert_eq!(t, MISSING_CODE_BLOCK),
        other => panic!("unexpected {:?}", other),
    }
    assert!(MISSING_CODE_BLOCK.starts_with("Missing code block."));
    assert!(MISSING_CODE_BLOCK.contains("\\`code here\\`"));
    let with_help = Failure::ArgumentParse {
        message: "bad arg".to_string(),
        missing_code_block: false,
        help: Some("usage: ?play".to_string()),
    };
    assert_eq!(on_error(&with_help), Some("**bad arg**\nusage: ?play".to_string()));
    let plain = Failure::ArgumentParse {
        message: "bad arg".to_string(),
        missing_code_block: false,
        help: None,
    };
    match acknowledge_fail(Mode::Native, &plain) {
        FailurePlan::Respond(t) => assert_eq!(t, "bad arg"),
        other => panic!("unexpected {:?}", other),
    }
    assert!(matches!(acknowledge_fail(Mode::Native, &Failure::Other), FailurePlan::LogOnly));
    assert_eq!(on_error(&Failure::Command("e".to_string())), Some("e".to_string()));
    assert_eq!(on_error(&Failure::Other), None);
}

#[test]
fn emoji_lookup_ignores_ascii_case_only() {
    assert!(eq_ignore_ascii_case("FeRRis", "ferris"));
    assert!(!eq_ignore_ascii_case("ferri", "ferris"));
    assert!(!eq_ignore_ascii_case("É", "é"));
    assert_eq!(find_custom_emoji(&emojis(), "RUSTACEAN"), Some(1));
    assert_eq!(find_custom_emoji(&emojis(), "crab"), None);
    assert_eq!(find_custom_emoji(&Vec::new(), "crab"), None);
    assert_eq!(custom_emoji_code(&emojis(), "Ferris", '🦀'), "<:ferris:1>");
    assert_eq!(custom_emoji_code(&emojis(), "crab", '🦀'), "🦀");
}
