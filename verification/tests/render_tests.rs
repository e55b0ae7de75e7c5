use perimedes::countdown::{
    format_countdown, lock_duration_secs, remaining_minutes_ceil, remaining_secs, timer_done,
    timer_frame,
};
use perimedes::layout::layout_chat;
use perimedes::negotiation::initialize_conversation;
use perimedes::seizure::{grab_step, GrabStep, GRAB_ATTEMPTS};
use perimedes::textutil::{fmt_u64, trim_spaces};
use perimedes::transcript::{
    entry_color, ChatMessage, Transcript, ASSISTANT_COLOR, SYSTEM_COLOR, TEXT_COLOR, USER_COLOR,
};

fn transcript_of(texts: &[(&str, &str)]) -> Transcript {
    let mut t = Transcript::new();
    for (kind, text) in texts {
        let text = text.to_string();
        let entry = match *kind {
            "system" => ChatMessage::System(text),
            "user" => ChatMessage::User(text),
            "assistant" => ChatMessage::Assistant(text),
            _ => ChatMessage::Decision(text),
        };
        t.push(entry);
    }
    t
}

#[test]
fn entry_colors_follow_the_kind() {
    assert_eq!(entry_color(&ChatMessage::System("a".to_string())), SYSTEM_COLOR);
    assert_eq!(entry_color(&ChatMessage::User("a".to_string())), USER_COLOR);
    assert_eq!(entry_color(&ChatMessage::Assistant("a".to_string())), ASSISTANT_COLOR);
    assert_eq!(entry_color(&ChatMessage::Decision("a".to_string())), TEXT_COLOR);
}

#[test]
fn transcript_push_appends_in_order() {
    let t = transcript_of(&[("system", "one"), ("user", "two")]);
    assert_eq!(t.len(), 2);
    assert!(matches!(t.get(0), ChatMessage::System(s) if s == "one"));
    assert!(matches!(t.get(1), ChatMessage::User(s) if s == "two"));
}

#[test]
fn layout_labels_and_positions() {
    let t = transcript_of(&[("system", "hello"), ("user", "hi"), ("decision", "DONE")]);
    let plan = layout_chat(&t, "typing", false, 300);
    // Three entries, then the input label and the input text.
    assert_eq!(plan.len(), 5);
    assert_eq!(plan[0].text, "System: hello");
    assert_eq!(plan[0].x, 20);
    assert_eq!(plan[0].y, 50);
    assert_eq!(plan[0].color, SYSTEM_COLOR);
    assert_eq!(plan[1].text, "You: hi");
    assert_eq!(plan[1].y, 70);
    assert_eq!(plan[1].color, USER_COLOR);
    assert_eq!(plan[2].text, "=== DONE ===");
    assert_eq!(plan[2].y, 90);
    assert_eq!(plan[2].color, TEXT_COLOR);
    assert_eq!(plan[3].text, "Input: ");
    assert_eq!(plan[3].x, 20);
    assert_eq!(plan[3].y, 250);
    assert_eq!(plan[4].text, "typing");
    assert_eq!(plan[4].x, 80);
    assert_eq!(plan[4].y, 250);
}

#[test]
fn layout_shows_only_the_most_recent_entries_that_fit() {
    // Height 300 leaves room for (300 - 120) / 20 = 9 entries.
    let mut texts: Vec<(String, String)> = Vec::new();
    for i in 0..12 {
        texts.push(("user".to_string(), format!("line{}", i)));
    }
    let mut t = Transcript::new();
    for (_, text) in &texts {
        t.push(ChatMessage::User(text.clone()));
    }
    let plan = layout_chat(&t, "", false, 300);
    // 9 entries plus the two input-line commands.
    assert_eq!(plan.len(), 11);
    // The earliest three entries are skipped; the window starts at line3.
    assert_eq!(plan[0].text, "You: line3");
    assert_eq!(plan[8].text, "You: line11");
    assert_eq!(plan[8].y, 50 + 8 * 20);
}

#[test]
fn layout_wraps_long_assistant_replies() {
    let long = "word ".repeat(30); // 150 characters: wraps at 80 columns
    let t = transcript_of(&[("assistant", long.trim_end())]);
    let plan = layout_chat(&t, "", false, 400);
    assert!(plan.len() > 3);
    assert!(plan[0].text.starts_with("Assistant: word word"));
    assert!(plan[0].text.chars().count() <= 11 + 80);
    // The continuation line is indented and drawn at half line height.
    assert!(plan[1].text.starts_with("        word"));
    assert_eq!(plan[1].y, 60);
    assert_eq!(plan[1].color, ASSISTANT_COLOR);
}

#[test]
fn layout_thinking_indicator_is_rendered_but_not_logged() {
    let t = transcript_of(&[("system", "hello")]);
    let before = t.len();
    let plan = layout_chat(&t, "", true, 300);
    assert_eq!(t.len(), before);
    assert_eq!(plan.len(), 4);
    assert_eq!(plan[1].text, "System: Assistant is thinking...");
    assert_eq!(plan[1].color, SYSTEM_COLOR);
}

#[test]
fn layout_is_idempotent() {
    let t = transcript_of(&[("system", "hello"), ("assistant", "a reply")]);
    let a = layout_chat(&t, "inp", false, 300);
    let b = layout_chat(&t, "inp", false, 300);
    assert_eq!(a.len(), b.len());
    for (ca, cb) in a.iter().zip(b.iter()) {
        assert_eq!(ca.text, cb.text);
        assert_eq!(ca.x, cb.x);
        assert_eq!(ca.y, cb.y);
        assert_eq!(ca.color, cb.color);
    }
}

#[test]
fn initialize_conversation_without_context() {
    let mut conv = Vec::new();
    initialize_conversation(&mut conv, "");
    assert_eq!(conv.len(), 1);
    assert_eq!(conv[0].role, "assistant");
    assert!(conv[0].content.starts_with("You are a productivity enforcer."));
}

#[test]
fn initialize_conversation_with_context() {
    let mut conv = Vec::new();
    initialize_conversation(&mut conv, "some screen text");
    assert_eq!(conv.len(), 3);
    assert_eq!(conv[1].role, "user");
    assert_eq!(
        conv[1].content,
        "Here's what was on my screen that triggered the lock:\n\nsome screen text"
    );
    assert_eq!(conv[2].role, "assistant");
    assert!(conv[2].content.starts_with("I've reviewed the content"));
}

#[test]
fn countdown_formats_minutes_and_seconds() {
    assert_eq!(format_countdown(185), "3:05");
    assert_eq!(format_countdown(60), "1:00");
    assert_eq!(format_countdown(59), "0:59");
    assert_eq!(format_countdown(0), "0:00");
    assert_eq!(format_countdown(600), "10:00");
}

#[test]
fn countdown_arithmetic() {
    assert_eq!(lock_duration_secs(3), 180);
    assert_eq!(remaining_secs(180, 60), 120);
    assert_eq!(remaining_secs(180, 200), 0);
    assert!(!timer_done(180, 179));
    assert!(timer_done(180, 180));
    assert_eq!(remaining_minutes_ceil(61), 2);
    assert_eq!(remaining_minutes_ceil(60), 1);
    assert_eq!(remaining_minutes_ceil(1), 1);
    assert_eq!(remaining_minutes_ceil(0), 0);
}

#[test]
fn timer_frame_centers_the_countdown() {
    let plan = timer_frame(125, 1000, 600);
    assert_eq!(plan.len(), 2);
    assert_eq!(plan[0].text, "2:05");
    assert_eq!(plan[0].x, 400);
    assert_eq!(plan[0].y, 280);
    assert_eq!(plan[1].text, "Screen locked");
    assert_eq!(plan[1].x, 350);
    assert_eq!(plan[1].y, 320);
}

#[test]
fn grab_policy_requires_both_grabs() {
    assert!(matches!(grab_step(0, true, true, GRAB_ATTEMPTS), GrabStep::Acquired));
    assert!(matches!(grab_step(0, true, false, GRAB_ATTEMPTS), GrabStep::Retry));
    assert!(matches!(grab_step(0, false, true, GRAB_ATTEMPTS), GrabStep::Retry));
    assert!(matches!(grab_step(4, false, false, GRAB_ATTEMPTS), GrabStep::Retry));
    assert!(matches!(grab_step(5, false, false, GRAB_ATTEMPTS), GrabStep::Fail));
    assert!(matches!(grab_step(5, true, true, GRAB_ATTEMPTS), GrabStep::Acquired));
}

#[test]
fn decimal_formatting_and_trimming() {
    assert_eq!(fmt_u64(0), "0");
    assert_eq!(fmt_u64(7), "7");
    assert_eq!(fmt_u64(1234567890), "1234567890");
    assert_eq!(fmt_u64(u64::MAX), "18446744073709551615");
    assert_eq!(trim_spaces("  a b \n"), "a b");
    assert_eq!(trim_spaces("\t\r\n "), "");
    assert_eq!(trim_spaces("x"), "x");
}
