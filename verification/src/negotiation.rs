//! The negotiation state machine: the bounded multi-turn exchange between
//! the locked-out user and the remote decision service.
//!
//! A session collects a line of keyboard input, hands it to the service,
//! applies the transcript update, and reads the reply for a terminal
//! verdict. A line that case-insensitively equals the configured unlock
//! phrase releases the screen at once, bypassing the service. The exchange
//! never exceeds the configured turn limit: on the last turn a reply with
//! no verdict token forces the minimum lock.
//!
//! All I/O stays outside: the caller feeds events in and performs the one
//! action each step asks for (redraw, call the service, or finish).

use vstd::prelude::*;
use crate::keymap::{KeyAction, spec_map_key, map_key};
use crate::textutil::{
    eq_ignore_ascii_case, str_eq_ignore_case, dec_str, fmt_u64, push_char, pop_char,
};
use crate::transcript::{ChatMessage, ChatMessageView, Transcript};
use crate::verdict::{
    LockDecision, spec_decision, has_verdict_token, parse_decision, reply_has_verdict_token,
    MIN_LOCK_MINUTES,
};

verus! {

/// The most user-submission/service-reply turns a negotiation may take
/// before a verdict is forced.
pub const MAX_MESSAGES: usize = 4;

/// The unlock phrase a session uses when the caller configures none.
pub const UNLOCK_PHRASE: &'static str = "UNLOCK";

/// The outcome of a whole lock-screen session: released, or locked for the
/// given number of minutes.
#[derive(Clone, Copy, PartialEq, Eq, Structural, Debug)]
pub enum LockResult {
    Unlocked,
    TimedLock(u64),
}

/// The phase of the lock window: freshly created, or showing the chat.
#[derive(Clone, Copy, PartialEq, Eq, Structural, Debug)]
pub enum LockState {
    Init,
    Chat,
}

/// The window background of a session phase; both phases share the same
/// backdrop.
pub fn lock_state_color(state: &LockState) -> (c: u32)
    ensures
        c == crate::transcript::BG_COLOR,
{
    match state {
        LockState::Init => crate::transcript::BG_COLOR,
        LockState::Chat => crate::transcript::BG_COLOR,
    }
}

/// One role-tagged message of the conversation sent to the decision
/// service.
#[derive(Clone, Debug)]
pub struct Message {
    pub role: String,
    pub content: String,
}

/// The mathematical shape of a conversation message.
pub struct MessageView {
    pub role: Seq<char>,
    pub content: Seq<char>,
}

impl View for Message {
    type V = MessageView;

    open spec fn view(&self) -> MessageView {
        MessageView { role: self.role@, content: self.content@ }
    }
}

/// The views of a list of messages.
pub open spec fn msgs_view(v: Seq<Message>) -> Seq<MessageView> {
    v.map_values(|m: Message| m@)
}

pub open spec fn role_user() -> Seq<char> {
    "user"@
}

pub open spec fn role_assistant() -> Seq<char> {
    "assistant"@
}

/// A conversation message carrying the user's words.
pub open spec fn user_msg(t: Seq<char>) -> MessageView {
    MessageView { role: role_user(), content: t }
}

/// A conversation message carrying the service's (or the instruction's)
/// words.
pub open spec fn assistant_msg(t: Seq<char>) -> MessageView {
    MessageView { role: role_assistant(), content: t }
}

/// The fixed instruction that opens every conversation.
pub open spec fn judge_prompt() -> Seq<char> {
    "You are a productivity enforcer. Your job is to decide whether to unlock the user's screen or keep it locked for another 1-10 minutes. The user's screen was locked because they were detected to be procrastinating. Ask them about what they were doing and what they intend to do if unlocked. First, reason through the content; common patterns of procrastination are: * Spending lots of time scrolling through twitter, LessWrong, the EA Forum, lobste.rs, Hacker News, reddit and reading random blogposts * Watching YouTube videos Non-cases of procrastination are: * Responding to WhatsApp/Telegram/Signal messages The conversation will last at most 4 messages, after which you MUST make a decision. If you decide to unlock, respond with exactly 'UNLOCK'. If you decide to keep it locked, respond with 'LOCK:X' where X is a number of minutes between 1 and 10."@
}

/// The words put before the captured screen text when a session opens with
/// context.
pub open spec fn context_prefix() -> Seq<char> {
    "Here's what was on my screen that triggered the lock:\n\n"@
}

/// The acknowledgment that follows the screen context.
pub open spec fn context_ack() -> Seq<char> {
    "I've reviewed the content that was on your screen. Now, please explain why you should be allowed to continue."@
}

/// The first transcript entry of every session.
pub open spec fn intro_text() -> Seq<char> {
    "Locked:"@
}

/// The decision banner shown when the screen is released.
pub open spec fn unlock_banner() -> Seq<char> {
    "UNLOCKING SCREEN"@
}

/// The decision banner shown when the screen stays locked for `m` minutes.
pub open spec fn locked_banner(m: u64) -> Seq<char> {
    "SCREEN LOCKED FOR "@ + dec_str(m as nat) + " MINUTES"@
}

/// The decision banner of a verdict.
pub open spec fn decision_banner(d: LockDecision) -> Seq<char> {
    match d {
        LockDecision::Unlock => unlock_banner(),
        LockDecision::Lock(m) => locked_banner(m),
    }
}

/// The conversation a session opens with: the fixed instruction, then, when
/// screen context was captured, the context and its acknowledgment.
pub open spec fn initial_conversation(ctx: Seq<char>) -> Seq<MessageView> {
    if ctx.len() == 0 {
        seq![assistant_msg(judge_prompt())]
    } else {
        seq![
            assistant_msg(judge_prompt()),
            user_msg(context_prefix() + ctx),
            assistant_msg(context_ack()),
        ]
    }
}

/// The decision banner of a verdict, as text.
pub fn decision_banner_text(d: &LockDecision) -> (s: String)
    ensures
        s@ == decision_banner(*d),
{
    match d {
        LockDecision::Unlock => String::from_str("UNLOCKING SCREEN"),
        LockDecision::Lock(m) => {
            let mut s = String::from_str("SCREEN LOCKED FOR ");
            let num = fmt_u64(*m);
            s.append(num.as_str());
            s.append(" MINUTES");
            s
        },
    }
}

/// Opens a conversation: appends the fixed instruction and, when screen
/// context is present, the context message and its acknowledgment, exactly
/// as `initial_conversation` states.
pub fn initialize_conversation(conversation: &mut Vec<Message>, screen_context: &str)
    ensures
        msgs_view(final(conversation)@) == msgs_view(old(conversation)@) + initial_conversation(
            screen_context@,
        ),
{
    let ghost before = msgs_view(conversation@);
    conversation.push(
        Message {
            role: String::from_str("assistant"),
            content: String::from_str(
                "You are a productivity enforcer. Your job is to decide whether to unlock the user's screen or keep it locked for another 1-10 minutes. The user's screen was locked because they were detected to be procrastinating. Ask them about what they were doing and what they intend to do if unlocked. First, reason through the content; common patterns of procrastination are: * Spending lots of time scrolling through twitter, LessWrong, the EA Forum, lobste.rs, Hacker News, reddit and reading random blogposts * Watching YouTube videos Non-cases of procrastination are: * Responding to WhatsApp/Telegram/Signal messages The conversation will last at most 4 messages, after which you MUST make a decision. If you decide to unlock, respond with exactly 'UNLOCK'. If you decide to keep it locked, respond with 'LOCK:X' where X is a number of minutes between 1 and 10.",
            ),
        },
    );
    if !screen_context.is_empty() {
        let mut ctx = String::from_str("Here's what was on my screen that triggered the lock:\n\n");
        ctx.append(screen_context);
        conversation.push(Message { role: String::from_str("user"), content: ctx });
        conversation.push(
            Message {
                role: String::from_str("assistant"),
                content: String::from_str(
                    "I've reviewed the content that was on your screen. Now, please explain why you should be allowed to continue.",
                ),
            },
        );
        proof {
            assert(msgs_view(conversation@) =~= before + initial_conversation(screen_context@));
        }
    } else {
        proof {
            assert(msgs_view(conversation@) =~= before + initial_conversation(screen_context@));
        }
    }
}

/// Whether an input line matches the unlock phrase: a case-insensitive
/// exact match of the whole line.
pub fn check_unlock_phrase(input: &str, unlock_phrase: &str) -> (r: bool)
    ensures
        r == eq_ignore_ascii_case(input@, unlock_phrase@),
{
    str_eq_ignore_case(input, unlock_phrase)
}

/// An event the windowing edge feeds into the session.
#[derive(Clone, Copy, PartialEq, Eq, Structural, Debug)]
pub enum SessionEvent {
    /// A key press, by its key symbol.
    Key(u32),
    /// An expose notification: the window needs repainting.
    Expose,
}

/// What the caller must do after a step.
#[derive(Clone, Copy, PartialEq, Eq, Structural, Debug)]
pub enum SessionAction {
    /// Nothing changed.
    Idle,
    /// The frame changed: redraw.
    Redraw,
    /// A line was submitted: call the decision service with the
    /// conversation, then feed the reply back in.
    CallService,
    /// The session ended with this verdict.
    Finished(LockDecision),
}

/// One interactive lock-screen session: the transcript on display, the
/// input line being typed, the conversation so far, and the turn budget.
pub struct LockSession {
    pub transcript: Transcript,
    pub input: String,
    pub thinking: bool,
    pub conversation: Vec<Message>,
    pub turns_used: usize,
    pub turn_limit: usize,
    pub unlock_phrase: String,
    pub decided: Option<LockDecision>,
}

impl LockSession {
    /// Well-formedness: the turn counter never passes the limit, and while
    /// input is accepted or a reply is awaited there is turn budget left
    /// and no verdict yet.
    pub open spec fn wf(self) -> bool {
        &&& 1 <= self.turn_limit
        &&& self.turns_used <= self.turn_limit
        &&& (self.decided is None ==> self.turns_used < self.turn_limit)
        &&& (self.thinking ==> self.decided is None)
    }

    /// The configuration never changes within a session.
    pub open spec fn same_config(pre: LockSession, post: LockSession) -> bool {
        &&& post.turn_limit == pre.turn_limit
        &&& post.unlock_phrase@ == pre.unlock_phrase@
    }

    /// Nothing observable changed.
    pub open spec fn unchanged(pre: LockSession, post: LockSession) -> bool {
        &&& post.transcript@ == pre.transcript@
        &&& post.input@ == pre.input@
        &&& post.thinking == pre.thinking
        &&& msgs_view(post.conversation@) == msgs_view(pre.conversation@)
        &&& post.turns_used == pre.turns_used
        &&& post.decided == pre.decided
        &&& Self::same_config(pre, post)
    }

    /// Everything but the input line is unchanged.
    pub open spec fn only_input_changed(pre: LockSession, post: LockSession) -> bool {
        &&& post.transcript@ == pre.transcript@
        &&& post.thinking == pre.thinking
        &&& msgs_view(post.conversation@) == msgs_view(pre.conversation@)
        &&& post.turns_used == pre.turns_used
        &&& post.decided == pre.decided
        &&& Self::same_config(pre, post)
    }

    /// What one event does to a session awaiting input. The manual escape
    /// hatch: a submitted line that case-insensitively equals the unlock
    /// phrase ends the session with `Unlock` at any turn, and the
    /// conversation is untouched, so no service call is ever made for it.
    pub open spec fn event_step(
        pre: LockSession,
        ev: SessionEvent,
        post: LockSession,
        act: SessionAction,
    ) -> bool {
        match ev {
            SessionEvent::Expose => Self::unchanged(pre, post) && act == SessionAction::Redraw,
            SessionEvent::Key(code) => match spec_map_key(code) {
                KeyAction::Ignore => Self::unchanged(pre, post) && act == SessionAction::Idle,
                KeyAction::Cancel => {
                    &&& Self::only_input_changed(pre, post)
                    &&& post.input@ == Seq::<char>::empty()
                    &&& act == SessionAction::Redraw
                },
                KeyAction::DeleteLast => {
                    if pre.input@.len() == 0 {
                        Self::unchanged(pre, post) && act == SessionAction::Idle
                    } else {
                        &&& Self::only_input_changed(pre, post)
                        &&& post.input@ == pre.input@.drop_last()
                        &&& act == SessionAction::Redraw
                    }
                },
                KeyAction::AppendChar(c) => {
                    &&& Self::only_input_changed(pre, post)
                    &&& post.input@ == pre.input@.push(c)
                    &&& act == SessionAction::Redraw
                },
                KeyAction::Submit => {
                    if pre.input@.len() == 0 {
                        Self::unchanged(pre, post) && act == SessionAction::Idle
                    } else if eq_ignore_ascii_case(pre.input@, pre.unlock_phrase@) {
                        &&& post.transcript@ == pre.transcript@.push(
                            ChatMessageView::Decision(unlock_banner()),
                        )
                        &&& post.input@ == Seq::<char>::empty()
                        &&& !post.thinking
                        &&& msgs_view(post.conversation@) == msgs_view(pre.conversation@)
                        &&& post.turns_used == pre.turns_used
                        &&& post.decided == Some(LockDecision::Unlock)
                        &&& Self::same_config(pre, post)
                        &&& act == SessionAction::Finished(LockDecision::Unlock)
                    } else {
                        &&& post.transcript@ == pre.transcript@.push(
                            ChatMessageView::User(pre.input@),
                        )
                        &&& post.input@ == Seq::<char>::empty()
                        &&& post.thinking
                        &&& msgs_view(post.conversation@) == msgs_view(pre.conversation@).push(
                            user_msg(pre.input@),
                        )
                        &&& post.turns_used == pre.turns_used
                        &&& post.decided is None
                        &&& Self::same_config(pre, post)
                        &&& act == SessionAction::CallService
                    }
                },
            },
        }
    }

    /// What a service reply does to a session awaiting one: the reply joins
    /// the conversation and the transcript, the turn is spent, and the turn
    /// ends the session exactly when the reply carries a verdict token or
    /// the turn budget is exhausted — so the negotiation never passes the
    /// turn limit without a verdict, and a last turn without a token forces
    /// the minimum lock.
    pub open spec fn reply_step(
        pre: LockSession,
        reply: Seq<char>,
        post: LockSession,
        act: SessionAction,
    ) -> bool {
        let terminal = has_verdict_token(reply) || pre.turns_used + 1 == pre.turn_limit;
        let d = spec_decision(reply);
        &&& msgs_view(post.conversation@) == msgs_view(pre.conversation@).push(
            assistant_msg(reply),
        )
        &&& post.turns_used == pre.turns_used + 1
        &&& !post.thinking
        &&& post.input@ == pre.input@
        &&& Self::same_config(pre, post)
        &&& if terminal {
            &&& post.transcript@ == pre.transcript@.push(ChatMessageView::Assistant(reply)).push(
                ChatMessageView::Decision(decision_banner(d)),
            )
            &&& post.decided == Some(d)
            &&& act == SessionAction::Finished(d)
        } else {
            &&& post.transcript@ == pre.transcript@.push(ChatMessageView::Assistant(reply))
            &&& post.decided is None
            &&& act == SessionAction::Redraw
        }
    }

    /// Opens a session: an empty input line, the opening transcript entry,
    /// and the initial conversation built from the captured screen context.
    pub fn new(unlock_phrase: &str, screen_context: &str, turn_limit: usize) -> (s: LockSession)
        requires
            1 <= turn_limit,
        ensures
            s.wf(),
            s.transcript@ == seq![ChatMessageView::System(intro_text())],
            s.input@ == Seq::<char>::empty(),
            !s.thinking,
            msgs_view(s.conversation@) == initial_conversation(screen_context@),
            s.turns_used == 0,
            s.turn_limit == turn_limit,
            s.unlock_phrase@ == unlock_phrase@,
            s.decided is None,
    {
        let mut transcript = Transcript::new();
        transcript.push(ChatMessage::System(String::from_str("Locked:")));
        let mut conversation: Vec<Message> = Vec::new();
        proof {
            assert(msgs_view(conversation@) =~= Seq::<MessageView>::empty());
        }
        initialize_conversation(&mut conversation, screen_context);
        proof {
            assert(Seq::<MessageView>::empty() + initial_conversation(screen_context@)
                =~= initial_conversation(screen_context@));
            assert(Seq::<ChatMessageView>::empty().push(ChatMessageView::System(intro_text()))
                =~= seq![ChatMessageView::System(intro_text())]);
        }
        LockSession {
            transcript,
            input: String::new(),
            thinking: false,
            conversation,
            turns_used: 0,
            turn_limit,
            unlock_phrase: String::from_str(unlock_phrase),
            decided: Option::None,
        }
    }

    /// Handles one windowing event while input is accepted, exactly as
    /// `event_step` states.
    pub fn handle_event(&mut self, ev: SessionEvent) -> (act: SessionAction)
        requires
            old(self).wf(),
            old(self).decided is None,
            !old(self).thinking,
        ensures
            final(self).wf(),
            Self::event_step(*old(self), ev, *final(self), act),
    {
        match ev {
            SessionEvent::Expose => SessionAction::Redraw,
            SessionEvent::Key(code) => {
                let action = map_key(code);
                match action {
                    KeyAction::Ignore => SessionAction::Idle,
                    KeyAction::Cancel => {
                        self.input = String::new();
                        SessionAction::Redraw
                    },
                    KeyAction::DeleteLast => {
                        if self.input.as_str().is_empty() {
                            SessionAction::Idle
                        } else {
                            pop_char(&mut self.input);
                            SessionAction::Redraw
                        }
                    },
                    KeyAction::AppendChar(c) => {
                        push_char(&mut self.input, c);
                        SessionAction::Redraw
                    },
                    KeyAction::Submit => {
                        if self.input.as_str().is_empty() {
                            SessionAction::Idle
                        } else if check_unlock_phrase(
                            self.input.as_str(),
                            self.unlock_phrase.as_str(),
                        ) {
                            self.transcript.push(
                                ChatMessage::Decision(String::from_str("UNLOCKING SCREEN")),
                            );
                            self.input = String::new();
                            self.decided = Option::Some(LockDecision::Unlock);
                            SessionAction::Finished(LockDecision::Unlock)
                        } else {
                            let line = self.input.clone();
                            self.input = String::new();
                            let ghost convb = msgs_view(self.conversation@);
                            self.transcript.push(ChatMessage::User(line.clone()));
                            self.conversation.push(
                                Message { role: String::from_str("user"), content: line },
                            );
                            proof {
                                assert(msgs_view(self.conversation@) =~= convb.push(
                                    user_msg(old(self).input@),
                                ));
                            }
                            self.thinking = true;
                            SessionAction::CallService
                        }
                    },
                }
            },
        }
    }

    /// Applies the decision service's reply, exactly as `reply_step`
    /// states: the turn is spent, and the session ends when the reply
    /// carries a verdict token or the turn budget is exhausted.
    pub fn on_reply(&mut self, reply: &str) -> (act: SessionAction)
        requires
            old(self).wf(),
            old(self).thinking,
        ensures
            final(self).wf(),
            Self::reply_step(*old(self), reply@, *final(self), act),
            act is Finished <==> (has_verdict_token(reply@) || old(self).turns_used + 1 == old(
                self,
            ).turn_limit),
    {
        self.thinking = false;
        let ghost convb = msgs_view(self.conversation@);
        self.conversation.push(
            Message {
                role: String::from_str("assistant"),
                content: String::from_str(reply),
            },
        );
        proof {
            assert(msgs_view(self.conversation@) =~= convb.push(assistant_msg(reply@)));
        }
        self.transcript.push(ChatMessage::Assistant(String::from_str(reply)));
        self.turns_used = self.turns_used + 1;
        let terminal = reply_has_verdict_token(reply) || self.turns_used == self.turn_limit;
        if terminal {
            let d = parse_decision(reply);
            self.transcript.push(ChatMessage::Decision(decision_banner_text(&d)));
            self.decided = Option::Some(d);
            SessionAction::Finished(d)
        } else {
            SessionAction::Redraw
        }
    }

    /// Manual-escape law: submitting a line that case-insensitively equals
    /// the unlock phrase ends the session with `Unlock` on any turn, and
    /// leaves the conversation untouched — the decision service is never
    /// called for it.
    pub proof fn lemma_manual_unlock_bypasses_service(
        pre: LockSession,
        code: u32,
        post: LockSession,
        act: SessionAction,
    )
        requires
            Self::event_step(pre, SessionEvent::Key(code), post, act),
            spec_map_key(code) == KeyAction::Submit,
            pre.input@.len() > 0,
            eq_ignore_ascii_case(pre.input@, pre.unlock_phrase@),
        ensures
            act == SessionAction::Finished(LockDecision::Unlock),
            post.decided == Some(LockDecision::Unlock),
            msgs_view(post.conversation@) == msgs_view(pre.conversation@),
    {
    }

    /// Turn-limit law: a reply received on the last turn of the budget
    /// always ends the session, and when it carries no verdict token the
    /// forced verdict is the minimum lock.
    pub proof fn lemma_turn_limit_forces_minimum(
        pre: LockSession,
        reply: Seq<char>,
        post: LockSession,
        act: SessionAction,
    )
        requires
            Self::reply_step(pre, reply, post, act),
            pre.turns_used + 1 == pre.turn_limit,
        ensures
            act is Finished,
            !has_verdict_token(reply) ==> act == SessionAction::Finished(
                LockDecision::Lock(MIN_LOCK_MINUTES),
            ) && post.decided == Some(LockDecision::Lock(MIN_LOCK_MINUTES)),
    {
        if !has_verdict_token(reply) {
            crate::verdict::lemma_no_token_defaults(reply);
        }
    }

    /// Lays out the current frame for a window of the given height.
    pub fn render_plan(&self, height: u16) -> (plan: Vec<crate::layout::DrawCmd>)
        requires
            self.transcript@.len() < usize::MAX,
        ensures
            crate::layout::cmds_view(plan@) == crate::layout::spec_layout(
                self.transcript@,
                self.input@,
                self.thinking,
                height,
            ),
    {
        crate::layout::layout_chat(&self.transcript, self.input.as_str(), self.thinking, height)
    }
}

} // verus!
