//! Parsing the decision service's reply into a verdict.
//!
//! A reply that contains the literal token `UNLOCK` anywhere means the screen
//! is released; that check comes first. Otherwise a literal `LOCK:` token
//! followed by an integer (optionally surrounded by whitespace, read up to the
//! next `LOCK:` token or the end of the reply) locks for that many minutes,
//! clamped to the allowed range. A reply with neither token, or with an
//! unreadable integer, locks for the minimum duration.

use vstd::prelude::*;
use crate::textutil::{
    contains_seq, find_first, trimmed, is_u64_numeral, numeral_val, match_at,
    contains_sub, find_sub, trim_spaces, parse_u64, lemma_contains_find_first,
    lemma_find_from, dec_str, digits_val, all_digits, is_digit_char,
    lemma_dec_str_val,
};

verus! {

/// The fewest minutes a lock verdict may impose.
pub const MIN_LOCK_MINUTES: u64 = 1;

/// The most minutes a lock verdict may impose.
pub const MAX_LOCK_MINUTES: u64 = 10;

/// The terminal outcome of a negotiation turn: release the screen, or keep
/// it locked for the given number of minutes.
#[derive(Clone, Copy, PartialEq, Eq, Structural, Debug)]
pub enum LockDecision {
    Unlock,
    Lock(u64),
}

pub open spec fn unlock_token() -> Seq<char> {
    "UNLOCK"@
}

pub open spec fn lock_token() -> Seq<char> {
    "LOCK:"@
}

/// A lock duration clamped to the allowed range of minutes.
pub open spec fn clamp_minutes(n: nat) -> u64 {
    if n < MIN_LOCK_MINUTES {
        MIN_LOCK_MINUTES
    } else if n > MAX_LOCK_MINUTES {
        MAX_LOCK_MINUTES
    } else {
        n as u64
    }
}

/// The text between the first `LOCK:` token and the next one (or the end of
/// the reply), with surrounding whitespace removed: the characters read as
/// the lock duration.
pub open spec fn lock_payload(r: Seq<char>) -> Seq<char> {
    let p = find_first(r, lock_token()) + lock_token().len();
    let rest = r.subrange(p, r.len() as int);
    let e = if contains_seq(rest, lock_token()) {
        find_first(rest, lock_token())
    } else {
        rest.len() as int
    };
    trimmed(rest.subrange(0, e))
}

/// The minutes a reply carrying a `LOCK:` token asks for: the clamped value
/// of its payload when that is a readable integer, else the minimum.
pub open spec fn lock_minutes(r: Seq<char>) -> u64 {
    if is_u64_numeral(lock_payload(r)) {
        clamp_minutes(numeral_val(lock_payload(r)))
    } else {
        MIN_LOCK_MINUTES
    }
}

/// The verdict read from a reply: `UNLOCK` anywhere wins; else a `LOCK:`
/// token sets the duration; else the minimum lock.
pub open spec fn spec_decision(r: Seq<char>) -> LockDecision {
    if contains_seq(r, unlock_token()) {
        LockDecision::Unlock
    } else if contains_seq(r, lock_token()) {
        LockDecision::Lock(lock_minutes(r))
    } else {
        LockDecision::Lock(MIN_LOCK_MINUTES)
    }
}

/// Whether a reply carries either verdict token, ending the negotiation turn
/// early.
pub open spec fn has_verdict_token(r: Seq<char>) -> bool {
    contains_seq(r, unlock_token()) || contains_seq(r, lock_token())
}

/// Reads the verdict out of a reply, exactly as `spec_decision` states.
pub fn parse_decision(reply: &str) -> (d: LockDecision)
    ensures
        d == spec_decision(reply@),
{
    proof {
        lemma_contains_find_first(reply@, unlock_token());
        lemma_contains_find_first(reply@, lock_token());
    }
    if contains_sub(reply, "UNLOCK") {
        return LockDecision::Unlock;
    }
    let tok = "LOCK:";
    match find_sub(reply, tok) {
        Option::None => LockDecision::Lock(MIN_LOCK_MINUTES),
        Option::Some(at) => {
            proof {
                lemma_find_from(reply@, lock_token(), 0);
                reveal_strlit("LOCK:");
            }
            let n = reply.unicode_len();
            let p = at + tok.unicode_len();
            let rest = reply.substring_char(p, n);
            proof {
                lemma_contains_find_first(rest@, lock_token());
                lemma_find_from(rest@, lock_token(), 0);
            }
            let e = match find_sub(rest, tok) {
                Option::Some(j) => j,
                Option::None => rest.unicode_len(),
            };
            let seg = rest.substring_char(0, e);
            let t = trim_spaces(seg);
            assert(t@ == lock_payload(reply@));
            let m = match parse_u64(t) {
                Option::Some(v) => {
                    if v < MIN_LOCK_MINUTES {
                        MIN_LOCK_MINUTES
                    } else if v > MAX_LOCK_MINUTES {
                        MAX_LOCK_MINUTES
                    } else {
                        v
                    }
                },
                Option::None => MIN_LOCK_MINUTES,
            };
            assert(m == lock_minutes(reply@));
            LockDecision::Lock(m)
        },
    }
}

/// Whether a reply carries either verdict token.
pub fn reply_has_verdict_token(reply: &str) -> (b: bool)
    ensures
        b == has_verdict_token(reply@),
{
    contains_sub(reply, "UNLOCK") || contains_sub(reply, "LOCK:")
}

/// Precedence law: a reply containing both an `UNLOCK` and a `LOCK:` token
/// is always read as `Unlock`.
pub proof fn lemma_unlock_precedence(r: Seq<char>)
    requires
        contains_seq(r, unlock_token()),
        contains_seq(r, lock_token()),
    ensures
        spec_decision(r) == LockDecision::Unlock,
{
}

/// Default law: a reply containing neither token is read as the minimum
/// lock duration.
pub proof fn lemma_no_token_defaults(r: Seq<char>)
    requires
        !contains_seq(r, unlock_token()),
        !contains_seq(r, lock_token()),
    ensures
        spec_decision(r) == LockDecision::Lock(MIN_LOCK_MINUTES),
{
}

/// Clamping law: a reply that is exactly `LOCK:` followed by the decimal
/// numeral of `n` is read as a lock of `clamp(n, 1, 10)` minutes, for every
/// unsigned 64-bit `n`.
pub proof fn lemma_lock_numeral_clamps(n: u64)
    ensures
        spec_decision(lock_token() + dec_str(n as nat)) == LockDecision::Lock(
            clamp_minutes(n as nat),
        ),
{
    reveal_strlit("LOCK:");
    reveal_strlit("UNLOCK");
    let r = lock_token() + dec_str(n as nat);
    lemma_dec_str_val(n as nat);
    lemma_digits_no_letter(dec_str(n as nat));

    // No `UNLOCK` token: the reply holds no 'U' at all.
    assert forall|i: int| !match_at(r, unlock_token(), i) by {
        if 0 <= i && i + unlock_token().len() <= r.len() {
            assert(r.subrange(i, i + 6)[0] == r[i]);
            assert(r[i] != 'U');
        }
    }
    assert(!contains_seq(r, unlock_token()));

    // The first `LOCK:` token stands at position 0.
    assert(r.subrange(0, 5) =~= lock_token());
    assert(match_at(r, lock_token(), 0));
    assert(contains_seq(r, lock_token()));
    lemma_contains_find_first(r, lock_token());
    lemma_find_from(r, lock_token(), 0);
    assert(find_first(r, lock_token()) == 0);

    // After it stands the bare numeral, holding no further token.
    let rest = r.subrange(5, r.len() as int);
    assert(rest =~= dec_str(n as nat));
    assert forall|i: int| !match_at(rest, lock_token(), i) by {
        if 0 <= i && i + lock_token().len() <= rest.len() {
            assert(rest.subrange(i, i + 5)[0] == rest[i]);
            assert(is_digit_char(rest[i]));
            assert(rest[i] != 'L');
        }
    }
    assert(!contains_seq(rest, lock_token()));
    assert(rest.subrange(0, rest.len() as int) =~= rest);

    lemma_trim_digits(rest);
    assert(lock_payload(r) == rest);
    assert(crate::textutil::numeral_digits(rest) == rest);
    assert(is_u64_numeral(rest));
    assert(numeral_val(rest) == n as nat);
}

/// Digits are neither letters nor whitespace.
proof fn lemma_digits_no_letter(s: Seq<char>)
    requires
        all_digits(s),
    ensures
        forall|i: int| 0 <= i < s.len() ==> #[trigger] s[i] != 'U',
        forall|i: int| 0 <= i < s.len() ==> #[trigger] s[i] != 'L',
        forall|i: int| 0 <= i < s.len() ==> #[trigger] s[i] != '+',
        forall|i: int| 0 <= i < s.len() ==> !crate::textutil::is_ascii_space(#[trigger] s[i]),
{
    assert forall|i: int| 0 <= i < s.len() implies #[trigger] s[i] != 'U' && s[i] != 'L'
        && s[i] != '+' && !crate::textutil::is_ascii_space(s[i]) by {
        assert(is_digit_char(s[i]));
    }
}

/// Trimming a pure digit string changes nothing.
proof fn lemma_trim_digits(s: Seq<char>)
    requires
        all_digits(s),
        s.len() > 0,
    ensures
        trimmed(s) == s,
{
    lemma_digits_no_letter(s);
    assert(!crate::textutil::is_ascii_space(s[0]));
    assert(crate::textutil::skip_spaces_from(s, 0) == 0);
    assert(!crate::textutil::is_ascii_space(s[s.len() - 1]));
    assert(crate::textutil::rskip_spaces(s, s.len()) == s.len());
    assert(s.subrange(0, s.len() as int) =~= s);
}

} // verus!
