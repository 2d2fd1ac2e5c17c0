use vstd::prelude::*;

use crate::text::{chars_of, concat_chars, string_of};

verus! {

/// How a command was invoked: by a text prefix in a message, or natively through the
/// platform's command interface.
#[derive(Clone, Copy, Debug, PartialEq, Eq, Structural)]
pub enum Mode {
    Legacy,
    Native,
}

/// Where an acknowledgment stands.
#[derive(Clone, Copy, Debug, PartialEq, Eq, Structural)]
pub enum AckStage {
    /// Nothing was done yet.
    Begin,
    /// A reaction on the invoking message was asked for.
    Reacting,
    /// A reply was asked for.
    Replying,
    /// The reply was sent and the pause before removing it was asked for.
    Waiting,
    /// Removal of the reply was asked for.
    Deleting,
    /// Nothing more is to be done.
    Finished,
}

/// What the caller performs next, reporting afterwards whether it succeeded.
#[derive(Clone, Debug)]
pub enum AckAction {
    /// Add this emoji as a reaction to the invoking message.
    React(String),
    /// Send this text as a reply.
    Reply(String),
    /// Wait this many seconds.
    Sleep(u64),
    /// Delete the reply that was sent.
    DeleteReply,
    /// Done; the command completes normally, whatever failed on the way.
    Finish,
}

/// The seconds a native success reply stays before it is removed.
pub const REPLY_CLEANUP_SECS: u64 = 3;

/// A best-effort acknowledgment of one command: a reaction in legacy mode, a reply in native
/// mode, and for a native success a reply that is removed again after a short pause.
#[derive(Clone, Debug)]
pub struct Acknowledgment {
    pub mode: Mode,
    /// The emoji or text shown.
    pub content: String,
    /// Whether a native reply is removed again after the pause.
    pub cleanup: bool,
    pub stage: AckStage,
}

/// The stage that follows `stage` once its action is done, `ok` telling whether it succeeded.
pub open spec fn next_stage(mode: Mode, cleanup: bool, stage: AckStage, ok: bool) -> AckStage {
    match stage {
        AckStage::Begin => match mode {
            Mode::Legacy => AckStage::Reacting,
            Mode::Native => AckStage::Replying,
        },
        AckStage::Replying => if ok && cleanup {
            AckStage::Waiting
        } else {
            AckStage::Finished
        },
        AckStage::Waiting => AckStage::Deleting,
        _ => AckStage::Finished,
    }
}

/// The action that entering `stage` asks for, showing `content`.
pub open spec fn action_of(stage: AckStage, content: String) -> AckAction {
    match stage {
        AckStage::Reacting => AckAction::React(content),
        AckStage::Replying => AckAction::Reply(content),
        AckStage::Waiting => AckAction::Sleep(REPLY_CLEANUP_SECS),
        AckStage::Deleting => AckAction::DeleteReply,
        _ => AckAction::Finish,
    }
}

/// The emoji a failure is marked with.
pub const FAILURE_MARK: char = '\u{274c}';

/// What a failure acknowledgment shows: the mark alone as a reaction, the mark and the
/// explanation as a reply.
pub open spec fn failure_content(mode: Mode, message: Seq<char>) -> Seq<char> {
    match mode {
        Mode::Legacy => seq![FAILURE_MARK],
        Mode::Native => seq![FAILURE_MARK, ' '] + message,
    }
}

impl Acknowledgment {
    /// Acknowledges success with `emoji`: a reaction in legacy mode, a reply removed again
    /// after a pause in native mode.
    pub fn success(mode: Mode, emoji: String) -> (r: Acknowledgment)
        ensures
            r.mode == mode,
            r.content == emoji,
            r.cleanup,
            r.stage == AckStage::Begin,
    {
        Acknowledgment { mode, content: emoji, cleanup: true, stage: AckStage::Begin }
    }

    /// Acknowledges a failed command explained by `message`: a cross-mark reaction in legacy
    /// mode, a reply with the mark and the explanation in native mode.
    pub fn failure(mode: Mode, message: &str) -> (r: Acknowledgment)
        ensures
            r.mode == mode,
            r.content@ == failure_content(mode, message@),
            !r.cleanup,
            r.stage == AckStage::Begin,
    {
        let content = match mode {
            Mode::Legacy => {
                let v: Vec<char> = vec![FAILURE_MARK];
                assert(v@ =~= seq![FAILURE_MARK]);
                string_of(&v)
            },
            Mode::Native => {
                let v: Vec<char> = vec![FAILURE_MARK, ' '];
                assert(v@ =~= seq![FAILURE_MARK, ' ']);
                string_of(&concat_chars(&v, &chars_of(message)))
            },
        };
        Acknowledgment { mode, content, cleanup: false, stage: AckStage::Begin }
    }

    /// Moves on after the last action, `ok` telling whether it succeeded, and returns the next
    /// action. No outcome is an error: a failed action only cuts the rest short.
    pub fn step(&mut self, ok: bool) -> (a: AckAction)
        ensures
            final(self).mode == old(self).mode,
            final(self).content == old(self).content,
            final(self).cleanup == old(self).cleanup,
            final(self).stage == next_stage(old(self).mode, old(self).cleanup, old(self).stage, ok),
            a == action_of(final(self).stage, final(self).content),
    {
        let next = match self.stage {
            AckStage::Begin => match self.mode {
                Mode::Legacy => AckStage::Reacting,
                Mode::Native => AckStage::Replying,
            },
            AckStage::Replying => if ok && self.cleanup {
                AckStage::Waiting
            } else {
                AckStage::Finished
            },
            AckStage::Waiting => AckStage::Deleting,
            _ => AckStage::Finished,
        };
        self.stage = next;
        match next {
            AckStage::Reacting => AckAction::React(self.content.clone()),
            AckStage::Replying => AckAction::Reply(self.content.clone()),
            AckStage::Waiting => AckAction::Sleep(REPLY_CLEANUP_SECS),
            AckStage::Deleting => AckAction::DeleteReply,
            _ => AckAction::Finish,
        }
    }
}

/// How many more actions an acknowledgment in `stage` asks for at most.
pub open spec fn remaining_steps(stage: AckStage) -> nat {
    match stage {
        AckStage::Begin => 4,
        AckStage::Replying => 3,
        AckStage::Waiting => 2,
        AckStage::Reacting => 1,
        AckStage::Deleting => 1,
        AckStage::Finished => 0,
    }
}

/// Every acknowledgment comes to an end: each step, whatever its outcome, brings it closer to
/// `Finished`, which it then keeps.
pub proof fn lemma_ack_ends(mode: Mode, cleanup: bool, stage: AckStage, ok: bool)
    ensures
        stage != AckStage::Finished ==> remaining_steps(next_stage(mode, cleanup, stage, ok))
            < remaining_steps(stage),
        stage == AckStage::Finished ==> next_stage(mode, cleanup, stage, ok) == stage,
{
}

/// A native success acknowledgment replies with its emoji, waits the cleanup pause once the
/// reply is sent, then deletes the reply, and finishes whether or not the deletion succeeds.
pub proof fn lemma_native_success_cleanup(emoji: String, deleted: bool)
    ensures
        ({
            let s1 = next_stage(Mode::Native, true, AckStage::Begin, true);
            let s2 = next_stage(Mode::Native, true, s1, true);
            let s3 = next_stage(Mode::Native, true, s2, true);
            let s4 = next_stage(Mode::Native, true, s3, deleted);
            &&& action_of(s1, emoji) == AckAction::Reply(emoji)
            &&& action_of(s2, emoji) == AckAction::Sleep(REPLY_CLEANUP_SECS)
            &&& action_of(s3, emoji) == AckAction::DeleteReply
            &&& s4 == AckStage::Finished
            &&& action_of(s4, emoji) == AckAction::Finish
        }),
{
}

/// A legacy failure acknowledgment asks for a cross-mark reaction and finishes whether or not
/// the reaction could be added.
pub proof fn lemma_legacy_failure_reaction(cleanup: bool, content: String, reacted: bool)
    ensures
        next_stage(Mode::Legacy, cleanup, AckStage::Begin, true) == AckStage::Reacting,
        action_of(AckStage::Reacting, content) == AckAction::React(content),
        next_stage(Mode::Legacy, cleanup, AckStage::Reacting, reacted) == AckStage::Finished,
        action_of(AckStage::Finished, content) == AckAction::Finish,
        failure_content(Mode::Legacy, content@) == seq![FAILURE_MARK],
{
}

/// A failure the command framework reports.
#[derive(Clone, Debug)]
pub enum Failure {
    /// The command ran and failed, with this explanation.
    Command(String),
    /// The arguments could not be parsed.
    ArgumentParse {
        message: String,
        /// Whether the parse failed for want of a code block.
        missing_code_block: bool,
        /// The command's longer help, where it has one.
        help: Option<String>,
    },
    /// Any other failure, which is only logged.
    Other,
}

/// What the failure path does with a failure.
#[derive(Clone, Debug)]
pub enum FailurePlan {
    /// Acknowledge the failed command.
    Acknowledge(Acknowledgment),
    /// Send this text as a reply.
    Respond(String),
    /// Log it and do nothing else.
    LogOnly,
}

/// The reply for a command whose code block is missing.
pub const MISSING_CODE_BLOCK: &'static str =
    "Missing code block. Please use the following markdown:\n\\`code here\\`\nor\n\\`\\`\\`rust\ncode here\n\\`\\`\\`";

/// The reply for an argument parse failure: the fixed code block hint, or the error in bold
/// above the command's help, or the error alone.
pub open spec fn parse_failure_text(
    message: Seq<char>,
    missing_code_block: bool,
    help: Option<Seq<char>>,
) -> Seq<char> {
    if missing_code_block {
        MISSING_CODE_BLOCK@
    } else if help is Some {
        seq!['*', '*'] + message + seq!['*', '*', '\n'] + help->0
    } else {
        message
    }
}

/// The reply, if any, that the general error handler gives for `failure`.
pub open spec fn error_reply(failure: Failure) -> Option<Seq<char>> {
    match failure {
        Failure::Command(m) => Some(m@),
        Failure::ArgumentParse { message, missing_code_block, help } => Some(
            parse_failure_text(
                message@,
                missing_code_block,
                match help {
                    Some(h) => Some(h@),
                    None => None,
                },
            ),
        ),
        Failure::Other => None,
    }
}

/// The reply that the general error handler gives for `failure`, if any.
pub fn on_error(failure: &Failure) -> (r: Option<String>)
    ensures
        match r {
            Some(t) => error_reply(*failure) == Some(t@),
            None => error_reply(*failure) is None,
        },
{
    match failure {
        Failure::Command(m) => Some(m.clone()),
        Failure::ArgumentParse { message, missing_code_block, help } => {
            if *missing_code_block {
                Some(MISSING_CODE_BLOCK.to_owned())
            } else {
                match help {
                    Some(h) => {
                        let open: Vec<char> = vec!['*', '*'];
                        let close: Vec<char> = vec!['*', '*', '\n'];
                        assert(open@ =~= seq!['*', '*']);
                        assert(close@ =~= seq!['*', '*', '\n']);
                        let v = concat_chars(
                            &concat_chars(
                                &concat_chars(&open, &chars_of(message.as_str())),
                                &close,
                            ),
                            &chars_of(h.as_str()),
                        );
                        Some(string_of(&v))
                    },
                    None => Some(message.clone()),
                }
            }
        },
        Failure::Other => None,
    }
}

/// What to do about `failure` in `mode`: a failed command is acknowledged, anything else goes
/// to the general error handler.
pub fn acknowledge_fail(mode: Mode, failure: &Failure) -> (r: FailurePlan)
    ensures
        match *failure {
            Failure::Command(m) => r matches FailurePlan::Acknowledge(a) && a.mode == mode
                && a.content@ == failure_content(mode, m@) && !a.cleanup && a.stage
                == AckStage::Begin,
            _ => match error_reply(*failure) {
                Some(t) => r matches FailurePlan::Respond(x) && x@ == t,
                None => r is LogOnly,
            },
        },
{
    match failure {
        Failure::Command(m) => FailurePlan::Acknowledge(Acknowledgment::failure(mode, m.as_str())),
        _ => match on_error(failure) {
            Some(t) => FailurePlan::Respond(t),
            None => FailurePlan::LogOnly,
        },
    }
}

} // verus!
