//! The lock timer's arithmetic and frame: how long remains, how the
//! remaining time reads on screen, and where the countdown is drawn. The
//! clock itself and the window belong to the caller; every function here is
//! a pure step of the timer loop.

use vstd::prelude::*;
use crate::textutil::{dec_str, fmt_u64};
use crate::transcript::TEXT_COLOR;
use crate::layout::{DrawCmd, DrawCmdView, cmd, cmds_view};

verus! {

/// Milliseconds between two timer redraws.
pub const TICK_MS: u64 = 100;

/// How many seconds a lock of `minutes` minutes lasts.
pub fn lock_duration_secs(minutes: u64) -> (s: u64)
    requires
        minutes <= u64::MAX / 60,
    ensures
        s == minutes * 60,
{
    minutes * 60
}

/// The seconds still to wait: the duration less the elapsed time, and zero
/// once the deadline has passed.
pub fn remaining_secs(total_secs: u64, elapsed_secs: u64) -> (r: u64)
    ensures
        r == if elapsed_secs >= total_secs {
            0u64
        } else {
            (total_secs - elapsed_secs) as u64
        },
{
    if elapsed_secs >= total_secs {
        0
    } else {
        total_secs - elapsed_secs
    }
}

/// Whether the lock period is over: the timer exits exactly when the
/// elapsed time reaches the configured duration.
pub fn timer_done(total_secs: u64, elapsed_secs: u64) -> (d: bool)
    ensures
        d == (elapsed_secs >= total_secs),
{
    elapsed_secs >= total_secs
}

/// The remaining time rounded up to whole minutes, as the console countdown
/// reports it.
pub fn remaining_minutes_ceil(remaining_secs: u64) -> (m: u64)
    requires
        remaining_secs <= u64::MAX - 59,
    ensures
        m == (remaining_secs + 59) / 60,
{
    (remaining_secs + 59) / 60
}

/// A second count under a minute, always written with two digits.
pub open spec fn two_digits(n: u64) -> Seq<char> {
    if n < 10 {
        "0"@ + dec_str(n as nat)
    } else {
        dec_str(n as nat)
    }
}

/// The countdown as displayed: whole minutes, a colon, then the leftover
/// seconds in two digits.
pub open spec fn countdown_text(remaining: u64) -> Seq<char> {
    dec_str((remaining / 60) as nat) + ":"@ + two_digits(remaining % 60)
}

/// Formats the remaining seconds as `M:SS`, exactly as `countdown_text`
/// states.
pub fn format_countdown(remaining: u64) -> (s: String)
    ensures
        s@ == countdown_text(remaining),
{
    let mut s = fmt_u64(remaining / 60);
    s.append(":");
    let rem = remaining % 60;
    if rem < 10 {
        s.append("0");
    }
    let num = fmt_u64(rem);
    s.append(num.as_str());
    proof {
        assert(s@ =~= countdown_text(remaining));
    }
    s
}

/// The caption under the countdown.
pub open spec fn timer_caption() -> Seq<char> {
    "Screen locked"@
}

/// The two texts of one timer frame: the countdown a little above the
/// middle of the window, the caption a little below it.
pub open spec fn spec_timer_frame(remaining: u64, w: u16, h: u16) -> Seq<DrawCmdView> {
    seq![
        cmd(countdown_text(remaining), w / 2 - 100, h / 2 - 20, TEXT_COLOR),
        cmd(timer_caption(), w / 2 - 150, h / 2 + 20, TEXT_COLOR),
    ]
}

/// Lays out one timer frame, exactly as `spec_timer_frame` states.
pub fn timer_frame(remaining: u64, width: u16, height: u16) -> (plan: Vec<DrawCmd>)
    ensures
        cmds_view(plan@) == spec_timer_frame(remaining, width, height),
{
    let cx: i32 = (width / 2) as i32 - 100;
    let cy: i32 = (height / 2) as i32;
    let mut plan: Vec<DrawCmd> = Vec::new();
    plan.push(DrawCmd { text: format_countdown(remaining), x: cx, y: cy - 20, color: TEXT_COLOR });
    plan.push(
        DrawCmd { text: String::from_str("Screen locked"), x: cx - 50, y: cy + 20, color: TEXT_COLOR },
    );
    proof {
        assert(cmds_view(plan@) =~= spec_timer_frame(remaining, width, height));
    }
    plan
}

} // verus!
