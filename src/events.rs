use vstd::prelude::*;

verus! {

/// The ids the bot's handlers work with.
#[derive(Clone, Copy, Debug, PartialEq, Eq, Structural)]
pub struct Data {
    pub bot_user_id: u64,
    pub mod_role_id: u64,
    /// The role that new members get after a while.
    pub rustacean_role: u64,
    pub beginner_channel: u64,
}

/// A platform event, as far as the handlers look at it.
#[derive(Clone, Copy, Debug, PartialEq, Eq, Structural)]
pub enum BotEvent {
    MessageUpdate { message_id: u64 },
    MessageDelete { message_id: u64 },
    MemberJoined { guild_id: u64, user_id: u64 },
    Other,
}

/// The minutes a new member waits for the role.
pub const RUSTIFICATION_DELAY_MINUTES: u64 = 30;

/// The audit log reason given with the delayed role.
pub const RUSTIFICATION_REASON: &'static str = "Automatically rustified after 30 minutes";

/// What the handler of an event does.
#[derive(Clone, Copy, Debug, PartialEq, Eq, Structural)]
pub enum EventAction {
    /// Look up the showcase message derived from this message and bring it up to date.
    UpdateShowcase { message_id: u64 },
    /// Look up the showcase message derived from this message and delete it.
    DeleteShowcase { message_id: u64 },
    /// In a task of its own, wait `delay_secs` seconds, then try once to give the member the
    /// role, with `RUSTIFICATION_REASON`, ignoring any failure.
    GrantRoleLater { guild_id: u64, user_id: u64, role_id: u64, delay_secs: u64 },
    Nothing,
}

/// What the handler does on `event`.
pub open spec fn event_action(event: BotEvent, data: Data) -> EventAction {
    match event {
        BotEvent::MessageUpdate { message_id } => EventAction::UpdateShowcase { message_id },
        BotEvent::MessageDelete { message_id } => EventAction::DeleteShowcase { message_id },
        BotEvent::MemberJoined { guild_id, user_id } => EventAction::GrantRoleLater {
            guild_id,
            user_id,
            role_id: data.rustacean_role,
            delay_secs: (RUSTIFICATION_DELAY_MINUTES * 60) as u64,
        },
        BotEvent::Other => EventAction::Nothing,
    }
}

/// Decides what to do on `event`.
pub fn event_handler(event: &BotEvent, data: &Data) -> (r: EventAction)
    ensures
        r == event_action(*event, *data),
{
    match *event {
        BotEvent::MessageUpdate { message_id } => EventAction::UpdateShowcase { message_id },
        BotEvent::MessageDelete { message_id } => EventAction::DeleteShowcase { message_id },
        BotEvent::MemberJoined { guild_id, user_id } => EventAction::GrantRoleLater {
            guild_id,
            user_id,
            role_id: data.rustacean_role,
            delay_secs: RUSTIFICATION_DELAY_MINUTES * 60,
        },
        BotEvent::Other => EventAction::Nothing,
    }
}

/// The call on a showcase message.
#[derive(Clone, Copy, Debug, PartialEq, Eq, Structural)]
pub enum ShowcaseCall {
    Update { showcase_id: u64 },
    Delete { showcase_id: u64 },
    Nothing,
}

/// The call that follows `action` once the showcase message derived from its message was
/// looked up (`derived`); none where there is no such message.
pub open spec fn showcase_call_for(action: EventAction, derived: Option<u64>) -> ShowcaseCall {
    match (action, derived) {
        (EventAction::UpdateShowcase { .. }, Some(d)) => ShowcaseCall::Update { showcase_id: d },
        (EventAction::DeleteShowcase { .. }, Some(d)) => ShowcaseCall::Delete { showcase_id: d },
        _ => ShowcaseCall::Nothing,
    }
}

/// Decides the call on the derived showcase message, given what the lookup found.
pub fn showcase_call(action: &EventAction, derived: Option<u64>) -> (r: ShowcaseCall)
    ensures
        r == showcase_call_for(*action, derived),
{
    match (*action, derived) {
        (EventAction::UpdateShowcase { .. }, Some(d)) => ShowcaseCall::Update { showcase_id: d },
        (EventAction::DeleteShowcase { .. }, Some(d)) => ShowcaseCall::Delete { showcase_id: d },
        _ => ShowcaseCall::Nothing,
    }
}

} // verus!
