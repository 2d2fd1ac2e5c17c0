use ferris_bot::events::{
    event_handler, showcase_call, BotEvent, Data, EventAction, ShowcaseCall, RUSTIFICATION_REASON,
};

fn data() -> Data {
    Data { bot_user_id: 1, mod_role_id: 2, rustacean_role: 77, beginner_channel: 4 }
}

#[test]
fn delete_without_showcase_link_does_nothing() {
    let action = event_handler(&BotEvent::MessageDelete { message_id: 10 }, &data());
    assert_eq!(action, EventAction::DeleteShowcase { message_id: 10 });
    assert_eq!(showcase_call(&action, None), ShowcaseCall::Nothing);
}

#[test]
fn delete_with_showcase_link_deletes_it() {
    let action = event_handler(&BotEvent::MessageDelete { message_id: 10 }, &data());
    assert_eq!(showcase_call(&action, Some(99)), ShowcaseCall::Delete { showcase_id: 99 });
}

#[test]
fn update_follows_edit() {
    let action = event_handler(&BotEvent::MessageUpdate { message_id: 5 }, &data());
    assert_eq!(action, EventAction::UpdateShowcase { message_id: 5 });
    assert_eq!(showcase_call(&action, Some(6)), ShowcaseCall::Update { showcase_id: 6 });
    assert_eq!(showcase_call(&action, None), ShowcaseCall::Nothing);
}

#[test]
fn member_join_grants_role_after_half_an_hour() {
    let action = event_handler(&BotEvent::MemberJoined { guild_id: 3, user_id: 8 }, &data());
    assert_eq!(
        action,
        EventAction::GrantRoleLater { guild_id: 3, user_id: 8, role_id: 77, delay_secs: 1800 }
    );
    assert_eq!(RUSTIFICATION_REASON, "Automatically rustified after 30 minutes");
    assert_eq!(showcase_call(&action, Some(1)), ShowcaseCall::Nothing);
}

#[test]
fn other_events_do_nothing() {
    assert_eq!(event_handler(&BotEvent::Other, &data()), EventAction::Nothing);
}
