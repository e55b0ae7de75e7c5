use perimedes::keymap::{map_key, KeyAction, KEYSYM_BACKSPACE, KEYSYM_ENTER, KEYSYM_ESCAPE, KEYSYM_SPACE};
use perimedes::negotiation::{
    check_unlock_phrase, LockSession, SessionAction, SessionEvent,
};
use perimedes::transcript::ChatMessage;
use perimedes::verdict::LockDecision;

fn press(session: &mut LockSession, code: u32) -> SessionAction {
    session.handle_event(SessionEvent::Key(code))
}

fn type_text(session: &mut LockSession, text: &str) {
    for c in text.chars() {
        let act = press(session, c as u32);
        assert!(matches!(act, SessionAction::Redraw));
    }
}

fn submit(session: &mut LockSession) -> SessionAction {
    press(session, KEYSYM_ENTER)
}

fn last_entry_text(session: &LockSession) -> String {
    let n = session.transcript.len();
    assert!(n > 0);
    match session.transcript.get(n - 1) {
        ChatMessage::System(t) => format!("System/{}", t),
        ChatMessage::User(t) => format!("User/{}", t),
        ChatMessage::Assistant(t) => format!("Assistant/{}", t),
        ChatMessage::Decision(t) => format!("Decision/{}", t),
    }
}

#[test]
fn map_key_control_codes() {
    assert!(matches!(map_key(KEYSYM_ENTER), KeyAction::Submit));
    assert!(matches!(map_key(KEYSYM_ESCAPE), KeyAction::Cancel));
    assert!(matches!(map_key(KEYSYM_BACKSPACE), KeyAction::DeleteLast));
}

#[test]
fn map_key_printable_codes() {
    assert!(matches!(map_key(KEYSYM_SPACE), KeyAction::AppendChar(' ')));
    assert!(matches!(map_key('a' as u32), KeyAction::AppendChar('a')));
    assert!(matches!(map_key('Z' as u32), KeyAction::AppendChar('Z')));
    assert!(matches!(map_key('0' as u32), KeyAction::AppendChar('0')));
    assert!(matches!(map_key('9' as u32), KeyAction::AppendChar('9')));
}

#[test]
fn map_key_other_codes_are_ignored() {
    // Cursor keys, function keys, punctuation outside the accepted set.
    assert!(matches!(map_key(0xff51), KeyAction::Ignore));
    assert!(matches!(map_key(0x21), KeyAction::Ignore));
    assert!(matches!(map_key(0x2f), KeyAction::Ignore));
    assert!(matches!(map_key(0x7b), KeyAction::Ignore));
}

#[test]
fn unlock_phrase_check_is_case_insensitive() {
    assert!(check_unlock_phrase("unlock", "UNLOCK"));
    assert!(check_unlock_phrase("UnLoCk", "UNLOCK"));
    assert!(check_unlock_phrase("UNLOCK", "UNLOCK"));
    assert!(!check_unlock_phrase("unlocked", "UNLOCK"));
    assert!(!check_unlock_phrase("unloc", "UNLOCK"));
    assert!(!check_unlock_phrase("", "UNLOCK"));
}

#[test]
fn new_session_state() {
    let s = LockSession::new("UNLOCK", "", 4);
    assert_eq!(s.turns_used, 0);
    assert_eq!(s.turn_limit, 4);
    assert!(!s.thinking);
    assert!(s.decided.is_none());
    assert_eq!(s.input, "");
    assert_eq!(s.transcript.len(), 1);
    assert_eq!(last_entry_text(&s), "System/Locked:");
    assert_eq!(s.conversation.len(), 1);
    assert_eq!(s.conversation[0].role, "assistant");
}

#[test]
fn session_with_context_opens_three_messages() {
    let s = LockSession::new("UNLOCK", "browsing cat pictures", 4);
    assert_eq!(s.conversation.len(), 3);
    assert_eq!(s.conversation[0].role, "assistant");
    assert_eq!(s.conversation[1].role, "user");
    assert!(s.conversation[1]
        .content
        .starts_with("Here's what was on my screen that triggered the lock:\n\n"));
    assert!(s.conversation[1].content.ends_with("browsing cat pictures"));
    assert_eq!(s.conversation[2].role, "assistant");
}

#[test]
fn typing_edits_the_input_line() {
    let mut s = LockSession::new("UNLOCK", "", 4);
    type_text(&mut s, "abc 123");
    assert_eq!(s.input, "abc 123");
    let act = press(&mut s, KEYSYM_BACKSPACE);
    assert!(matches!(act, SessionAction::Redraw));
    assert_eq!(s.input, "abc 12");
    let act = press(&mut s, KEYSYM_ESCAPE);
    assert!(matches!(act, SessionAction::Redraw));
    assert_eq!(s.input, "");
}

#[test]
fn backspace_on_empty_input_is_idle() {
    let mut s = LockSession::new("UNLOCK", "", 4);
    let act = press(&mut s, KEYSYM_BACKSPACE);
    assert!(matches!(act, SessionAction::Idle));
    assert_eq!(s.input, "");
}

#[test]
fn submit_of_empty_input_is_idle() {
    let mut s = LockSession::new("UNLOCK", "", 4);
    let act = submit(&mut s);
    assert!(matches!(act, SessionAction::Idle));
    assert!(s.decided.is_none());
}

#[test]
fn ignored_keys_change_nothing() {
    let mut s = LockSession::new("UNLOCK", "", 4);
    let act = press(&mut s, 0xff51);
    assert!(matches!(act, SessionAction::Idle));
    assert_eq!(s.input, "");
    assert_eq!(s.transcript.len(), 1);
}

#[test]
fn expose_asks_for_redraw_only() {
    let mut s = LockSession::new("UNLOCK", "", 4);
    let act = s.handle_event(SessionEvent::Expose);
    assert!(matches!(act, SessionAction::Redraw));
    assert_eq!(s.transcript.len(), 1);
    assert_eq!(s.input, "");
}

#[test]
fn manual_unlock_on_first_turn_makes_no_remote_call() {
    // The unlock phrase, typed in lower case, ends the session at once.
    let mut s = LockSession::new("UNLOCK", "", 4);
    type_text(&mut s, "unlock");
    let act = submit(&mut s);
    assert!(matches!(act, SessionAction::Finished(LockDecision::Unlock)));
    assert!(matches!(s.decided, Some(LockDecision::Unlock)));
    // The conversation still holds only the opening instruction: the
    // decision service was never asked for anything.
    assert_eq!(s.conversation.len(), 1);
    assert_eq!(last_entry_text(&s), "Decision/UNLOCKING SCREEN");
}

#[test]
fn manual_unlock_works_on_a_later_turn_too() {
    let mut s = LockSession::new("UNLOCK", "", 4);
    type_text(&mut s, "please");
    assert!(matches!(submit(&mut s), SessionAction::CallService));
    assert!(matches!(
        s.on_reply("Why should I let you continue?"),
        SessionAction::Redraw
    ));
    type_text(&mut s, "UnLoCk");
    let act = submit(&mut s);
    assert!(matches!(act, SessionAction::Finished(LockDecision::Unlock)));
    assert_eq!(s.conversation.len(), 3);
}

#[test]
fn lock_reply_locks_for_the_stated_minutes() {
    let mut s = LockSession::new("UNLOCK", "", 4);
    type_text(&mut s, "I was working");
    let act = submit(&mut s);
    assert!(matches!(act, SessionAction::CallService));
    assert!(s.thinking);
    let act = s.on_reply("Stay focused! LOCK:3");
    assert!(matches!(act, SessionAction::Finished(LockDecision::Lock(3))));
    assert!(!s.thinking);
    assert!(matches!(s.decided, Some(LockDecision::Lock(3))));
    assert_eq!(last_entry_text(&s), "Decision/SCREEN LOCKED FOR 3 MINUTES");
}

#[test]
fn unparsable_lock_reply_locks_for_the_minimum() {
    let mut s = LockSession::new("UNLOCK", "", 4);
    type_text(&mut s, "hello");
    assert!(matches!(submit(&mut s), SessionAction::CallService));
    let act = s.on_reply("LOCK:abc");
    assert!(matches!(act, SessionAction::Finished(LockDecision::Lock(1))));
    assert_eq!(last_entry_text(&s), "Decision/SCREEN LOCKED FOR 1 MINUTES");
}

#[test]
fn unlock_reply_releases_the_screen() {
    let mut s = LockSession::new("UNLOCK", "", 4);
    type_text(&mut s, "let me out");
    assert!(matches!(submit(&mut s), SessionAction::CallService));
    let act = s.on_reply("Fine. UNLOCK");
    assert!(matches!(act, SessionAction::Finished(LockDecision::Unlock)));
    assert_eq!(last_entry_text(&s), "Decision/UNLOCKING SCREEN");
}

#[test]
fn four_tokenless_turns_force_the_minimum_lock() {
    // The turn limit is 4: three undecided turns pass, and the fourth
    // reply without a verdict token forces the minimum lock, with no
    // fifth turn requested.
    let mut s = LockSession::new("UNLOCK", "", 4);
    for turn in 0..4 {
        assert_eq!(s.turns_used, turn);
        type_text(&mut s, "still talking");
        let act = submit(&mut s);
        assert!(matches!(act, SessionAction::CallService));
        let act = s.on_reply("And what else were you doing?");
        if turn < 3 {
            assert!(matches!(act, SessionAction::Redraw));
            assert!(s.decided.is_none());
        } else {
            assert!(matches!(act, SessionAction::Finished(LockDecision::Lock(1))));
            assert!(matches!(s.decided, Some(LockDecision::Lock(1))));
        }
    }
    assert_eq!(s.turns_used, 4);
    assert_eq!(last_entry_text(&s), "Decision/SCREEN LOCKED FOR 1 MINUTES");
}

#[test]
fn conversation_grows_one_user_and_one_assistant_entry_per_turn() {
    let mut s = LockSession::new("UNLOCK", "context here", 4);
    assert_eq!(s.conversation.len(), 3);
    type_text(&mut s, "first");
    assert!(matches!(submit(&mut s), SessionAction::CallService));
    assert_eq!(s.conversation.len(), 4);
    assert_eq!(s.conversation[3].role, "user");
    assert_eq!(s.conversation[3].content, "first");
    assert!(matches!(s.on_reply("go on"), SessionAction::Redraw));
    assert_eq!(s.conversation.len(), 5);
    assert_eq!(s.conversation[4].role, "assistant");
    assert_eq!(s.conversation[4].content, "go on");
}

#[test]
fn transcript_grows_but_never_shrinks() {
    let mut s = LockSession::new("UNLOCK", "", 4);
    let mut last = s.transcript.len();
    type_text(&mut s, "hi there");
    assert!(s.transcript.len() >= last);
    last = s.transcript.len();
    assert!(matches!(submit(&mut s), SessionAction::CallService));
    assert!(s.transcript.len() >= last);
    last = s.transcript.len();
    assert!(matches!(s.on_reply("tell me more"), SessionAction::Redraw));
    assert!(s.transcript.len() >= last);
}
