use perimedes::verdict::{parse_decision, reply_has_verdict_token, LockDecision};

#[test]
fn unlock_token_alone_unlocks() {
    assert!(matches!(parse_decision("UNLOCK"), LockDecision::Unlock));
    assert!(matches!(
        parse_decision("I have decided: UNLOCK. Enjoy."),
        LockDecision::Unlock
    ));
}

#[test]
fn unlock_takes_precedence_over_lock() {
    // Both tokens present: the unlock token wins.
    assert!(matches!(
        parse_decision("UNLOCK but also LOCK:5"),
        LockDecision::Unlock
    ));
    assert!(matches!(
        parse_decision("LOCK:9 ... no wait, UNLOCK"),
        LockDecision::Unlock
    ));
}

#[test]
fn lock_minutes_are_clamped_low() {
    assert!(matches!(parse_decision("LOCK:0"), LockDecision::Lock(1)));
}

#[test]
fn lock_minutes_are_clamped_high() {
    assert!(matches!(parse_decision("LOCK:15"), LockDecision::Lock(10)));
}

#[test]
fn lock_minutes_in_range_pass_through() {
    assert!(matches!(parse_decision("LOCK:5"), LockDecision::Lock(5)));
    assert!(matches!(parse_decision("LOCK:1"), LockDecision::Lock(1)));
    assert!(matches!(parse_decision("LOCK:10"), LockDecision::Lock(10)));
}

#[test]
fn reply_with_neither_token_defaults_to_minimum() {
    assert!(matches!(
        parse_decision("Tell me more about what you were doing."),
        LockDecision::Lock(1)
    ));
    assert!(matches!(parse_decision(""), LockDecision::Lock(1)));
}

#[test]
fn lock_token_in_prose_is_read() {
    assert!(matches!(
        parse_decision("Stay focused! LOCK:3"),
        LockDecision::Lock(3)
    ));
}

#[test]
fn unparsable_lock_duration_defaults_to_minimum() {
    assert!(matches!(parse_decision("LOCK:abc"), LockDecision::Lock(1)));
}

#[test]
fn lock_duration_may_be_surrounded_by_whitespace() {
    assert!(matches!(parse_decision("LOCK: 7 "), LockDecision::Lock(7)));
    assert!(matches!(parse_decision("LOCK:\n4\n"), LockDecision::Lock(4)));
}

#[test]
fn lock_duration_with_plus_sign_is_read() {
    assert!(matches!(parse_decision("LOCK:+3"), LockDecision::Lock(3)));
}

#[test]
fn lock_duration_with_trailing_words_is_unreadable() {
    // Everything up to the next token or the end must be one integer.
    assert!(matches!(
        parse_decision("LOCK:3 minutes"),
        LockDecision::Lock(1)
    ));
}

#[test]
fn overflowing_lock_duration_defaults_to_minimum() {
    assert!(matches!(
        parse_decision("LOCK:99999999999999999999999"),
        LockDecision::Lock(1)
    ));
}

#[test]
fn duration_is_read_up_to_the_next_lock_token() {
    assert!(matches!(parse_decision("LOCK: 5 LOCK:2"), LockDecision::Lock(5)));
    assert!(matches!(parse_decision("LOCK:LOCK:2"), LockDecision::Lock(1)));
}

#[test]
fn verdict_token_detection() {
    assert!(reply_has_verdict_token("UNLOCK"));
    assert!(reply_has_verdict_token("well LOCK:2"));
    assert!(!reply_has_verdict_token("lock: nothing literal here"));
    assert!(!reply_has_verdict_token("keep talking"));
}
