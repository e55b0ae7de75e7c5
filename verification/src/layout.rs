//! The transcript renderer's layout: which entries fit the window, how each
//! entry is labelled and word-wrapped, and where every piece of text is
//! drawn. The result is a plain list of draw commands; putting pixels on the
//! screen is left to the caller, so redrawing has no effect on the model.

use vstd::prelude::*;
use crate::textutil::{
    is_ascii_space, skip_spaces_from, next_space, split_words, split_words_from,
    lemma_next_space,
};
use crate::transcript::{
    ChatMessage, ChatMessageView, Transcript, SYSTEM_COLOR, USER_COLOR, ASSISTANT_COLOR,
    TEXT_COLOR,
};

verus! {

/// Vertical distance between transcript lines, in pixels.
pub const LINE_HEIGHT: u16 = 20;

/// Vertical distance between wrapped continuation lines, in pixels.
pub const HALF_LINE_HEIGHT: u16 = 10;

/// Y position of the first transcript line.
pub const TRANSCRIPT_TOP_Y: u16 = 50;

/// Vertical pixels reserved for margins and the input line, not available
/// to transcript entries.
pub const RESERVED_HEIGHT: u16 = 120;

/// X position of transcript text and of the input label.
pub const ENTRY_X: u16 = 20;

/// X position of the typed input text.
pub const INPUT_TEXT_X: u16 = 80;

/// How far above the bottom edge the input line is drawn.
pub const INPUT_RAISE: u16 = 50;

/// Column width at which long service replies are word-wrapped.
pub const WRAP_COLUMNS: usize = 80;

/// One piece of text to draw, with its position and color. Coordinates are
/// wide enough that every command of a laid-out frame fits without
/// wrapping; the display edge converts them.
pub struct DrawCmd {
    pub text: String,
    pub x: i32,
    pub y: i32,
    pub color: u32,
}

/// The mathematical shape of a draw command.
pub struct DrawCmdView {
    pub text: Seq<char>,
    pub x: int,
    pub y: int,
    pub color: u32,
}

impl View for DrawCmd {
    type V = DrawCmdView;

    open spec fn view(&self) -> DrawCmdView {
        DrawCmdView { text: self.text@, x: self.x as int, y: self.y as int, color: self.color }
    }
}

/// The views of a list of draw commands.
pub open spec fn cmds_view(v: Seq<DrawCmd>) -> Seq<DrawCmdView> {
    v.map_values(|c: DrawCmd| c@)
}

/// The views of a list of strings.
pub open spec fn strs_view(v: Seq<String>) -> Seq<Seq<char>> {
    v.map_values(|s: String| s@)
}

/// How many transcript entries fit the visible height.
pub open spec fn visible_count(h: u16) -> nat {
    if h >= RESERVED_HEIGHT {
        (((h - RESERVED_HEIGHT) as int) / (LINE_HEIGHT as int)) as nat
    } else {
        0
    }
}

/// The entries the renderer shows: the most recent ones that fit.
pub open spec fn visible_suffix(t: Seq<ChatMessageView>, h: u16) -> Seq<ChatMessageView> {
    if t.len() > visible_count(h) {
        t.skip(t.len() - visible_count(h))
    } else {
        t
    }
}

/// Bounded-window law: the renderer never shows more entries than fit the
/// visible height, and what it shows is exactly the latest entries of the
/// transcript, in order.
pub proof fn lemma_visible_window(t: Seq<ChatMessageView>, h: u16)
    ensures
        visible_suffix(t, h).len() <= visible_count(h),
        visible_suffix(t, h).len() == if t.len() <= visible_count(h) {
            t.len()
        } else {
            visible_count(h)
        },
        forall|j: int| 0 <= j < visible_suffix(t, h).len()
            ==> visible_suffix(t, h)[j] == t[t.len() - visible_suffix(t, h).len() + j],
{
}

/// One wrapping step: append the word to the current line if it fits the
/// column width, else emit the current line and start a new one with the
/// word.
pub open spec fn wrap_step(lines: Seq<Seq<char>>, cur: Seq<char>, w: Seq<char>) -> (
    Seq<Seq<char>>,
    Seq<char>,
) {
    if cur.len() + w.len() + 1 > WRAP_COLUMNS {
        (lines.push(cur), w)
    } else if cur.len() == 0 {
        (lines, w)
    } else {
        (lines, cur + seq![' '] + w)
    }
}

/// Greedy word-wrapping folded over a word list.
pub open spec fn wrap_fold(ws: Seq<Seq<char>>, lines: Seq<Seq<char>>, cur: Seq<char>) -> (
    Seq<Seq<char>>,
    Seq<char>,
)
    decreases ws.len(),
{
    if ws.len() == 0 {
        (lines, cur)
    } else {
        let st = wrap_step(lines, cur, ws.first());
        wrap_fold(ws.drop_first(), st.0, st.1)
    }
}

/// The lines a text is wrapped onto: its words folded greedily, with the
/// last partial line kept if non-empty.
pub open spec fn wrap_text(s: Seq<char>) -> Seq<Seq<char>> {
    let r = wrap_fold(split_words(s), Seq::empty(), Seq::empty());
    if r.1.len() > 0 {
        r.0.push(r.1)
    } else {
        r.0
    }
}

/// Folding one more word applies one more wrapping step.
proof fn lemma_wrap_fold_snoc(ws: Seq<Seq<char>>, w: Seq<char>, lines: Seq<Seq<char>>, cur: Seq<char>)
    ensures
        wrap_fold(ws.push(w), lines, cur).0 == wrap_step(
            wrap_fold(ws, lines, cur).0,
            wrap_fold(ws, lines, cur).1,
            w,
        ).0,
        wrap_fold(ws.push(w), lines, cur).1 == wrap_step(
            wrap_fold(ws, lines, cur).0,
            wrap_fold(ws, lines, cur).1,
            w,
        ).1,
    decreases ws.len(),
{
    if ws.len() == 0 {
        assert(ws.push(w).first() == w);
        assert(ws.push(w).drop_first() =~= Seq::<Seq<char>>::empty());
        let st = wrap_step(lines, cur, w);
        assert(wrap_fold(ws.push(w), lines, cur) == wrap_fold(
            Seq::<Seq<char>>::empty(),
            st.0,
            st.1,
        ));
        assert(wrap_fold(Seq::<Seq<char>>::empty(), st.0, st.1).0 == st.0);
        assert(wrap_fold(Seq::<Seq<char>>::empty(), st.0, st.1).1 == st.1);
        assert(wrap_fold(ws, lines, cur).0 == lines);
        assert(wrap_fold(ws, lines, cur).1 == cur);
    } else {
        assert(ws.push(w).first() == ws.first());
        assert(ws.push(w).drop_first() =~= ws.drop_first().push(w));
        let st = wrap_step(lines, cur, ws.first());
        lemma_wrap_fold_snoc(ws.drop_first(), w, st.0, st.1);
        assert(wrap_fold(ws.push(w), lines, cur) == wrap_fold(ws.drop_first().push(w), st.0, st.1));
        assert(wrap_fold(ws, lines, cur) == wrap_fold(ws.drop_first(), st.0, st.1));
    }
}

/// Splits a string into its whitespace-separated words.
pub fn split_words_exec(s: &str) -> (words: Vec<String>)
    ensures
        strs_view(words@) == split_words(s@),
{
    let n = s.unicode_len();
    let mut words: Vec<String> = Vec::new();
    let mut i: usize = 0;
    loop
        invariant
            n == s@.len(),
            i <= n,
            split_words(s@) == strs_view(words@) + split_words_from(s@, i as nat),
        ensures
            split_words(s@) == strs_view(words@),
        decreases n - i,
    {
        let mut j = i;
        while j < n && is_space_exec_local(s.get_char(j))
            invariant
                n == s@.len(),
                i <= j <= n,
                skip_spaces_from(s@, j as nat) == skip_spaces_from(s@, i as nat),
            decreases n - j,
        {
            j += 1;
        }
        assert(skip_spaces_from(s@, i as nat) == j as int);
        if j >= n {
            proof {
                assert(split_words_from(s@, i as nat) =~= Seq::<Seq<char>>::empty());
                assert(strs_view(words@) + Seq::<Seq<char>>::empty() =~= strs_view(words@));
            }
            break;
        }
        let mut k = j;
        while k < n && !is_space_exec_local(s.get_char(k))
            invariant
                n == s@.len(),
                j <= k <= n,
                next_space(s@, k as nat) == next_space(s@, j as nat),
            decreases n - k,
        {
            k += 1;
        }
        assert(next_space(s@, j as nat) == k as int);
        let w = s.substring_char(j, k);
        let ghost before = strs_view(words@);
        words.push(String::from_str(w));
        proof {
            assert(strs_view(words@) =~= before.push(w@));
            assert(split_words_from(s@, i as nat) == seq![s@.subrange(j as int, k as int)]
                + split_words_from(s@, k as nat));
            assert(before.push(w@) + split_words_from(s@, k as nat) =~= before + (seq![w@]
                + split_words_from(s@, k as nat)));
        }
        proof {
            lemma_next_space(s@, j as nat);
        }
        assert(k > j);
        i = k;
    }
    words
}

/// Whether `c` is one of the recognised whitespace characters.
fn is_space_exec_local(c: char) -> (r: bool)
    ensures
        r == is_ascii_space(c),
{
    c == ' ' || c == '\t' || c == '\n' || c == '\r'
}

/// Word-wraps a text greedily onto lines of at most `WRAP_COLUMNS` columns
/// (a single word longer than the width stands alone on its line).
pub fn wrap_text_exec(s: &str) -> (lines: Vec<String>)
    ensures
        strs_view(lines@) == wrap_text(s@),
{
    let words = split_words_exec(s);
    let mut lines: Vec<String> = Vec::new();
    let mut cur = String::new();
    let mut i: usize = 0;
    proof {
        assert(split_words(s@).take(0) =~= Seq::<Seq<char>>::empty());
    }
    while i < words.len()
        invariant
            strs_view(words@) == split_words(s@),
            i <= words@.len(),
            strs_view(lines@) == wrap_fold(
                split_words(s@).take(i as int),
                Seq::empty(),
                Seq::empty(),
            ).0,
            cur@ == wrap_fold(split_words(s@).take(i as int), Seq::empty(), Seq::empty()).1,
        decreases words@.len() - i,
    {
        let ghost ws_pre = split_words(s@).take(i as int);
        let ghost lines_pre = strs_view(lines@);
        let ghost cur_pre = cur@;
        let w_len = words[i].as_str().unicode_len();
        let cur_len = cur.as_str().unicode_len();
        proof {
            assert(words@[i as int]@ == split_words(s@)[i as int]);
        }
        let over: bool = if w_len > WRAP_COLUMNS {
            true
        } else if cur_len > WRAP_COLUMNS {
            true
        } else {
            cur_len + w_len + 1 > WRAP_COLUMNS
        };
        assert(over == (cur_pre.len() + words@[i as int]@.len() + 1 > WRAP_COLUMNS));
        if over {
            let ghost lb = strs_view(lines@);
            lines.push(cur);
            proof {
                assert(strs_view(lines@) =~= lb.push(cur_pre));
            }
            cur = String::from_str(words[i].as_str());
        } else if cur_len == 0 {
            cur = String::from_str(words[i].as_str());
        } else {
            proof {
                reveal_strlit(" ");
            }
            cur.append(" ");
            cur.append(words[i].as_str());
            assert(cur@ =~= cur_pre + seq![' '] + words@[i as int]@);
        }
        proof {
            lemma_wrap_fold_snoc(ws_pre, split_words(s@)[i as int], Seq::empty(), Seq::empty());
            assert(split_words(s@).take(i + 1) =~= ws_pre.push(split_words(s@)[i as int]));
        }
        i += 1;
    }
    proof {
        assert(split_words(s@).take(words@.len() as int) =~= split_words(s@));
    }
    if cur.as_str().unicode_len() > 0 {
        let ghost lb = strs_view(lines@);
        let ghost cv = cur@;
        lines.push(cur);
        proof {
            assert(strs_view(lines@) =~= lb.push(cv));
        }
    }
    lines
}

pub open spec fn label_system() -> Seq<char> {
    "System: "@
}

pub open spec fn label_user() -> Seq<char> {
    "You: "@
}

pub open spec fn label_assistant() -> Seq<char> {
    "Assistant: "@
}

pub open spec fn banner_left() -> Seq<char> {
    "=== "@
}

pub open spec fn banner_right() -> Seq<char> {
    " ==="@
}

pub open spec fn continuation_indent() -> Seq<char> {
    "        "@
}

pub open spec fn input_label() -> Seq<char> {
    "Input: "@
}

/// The text shown while a reply from the decision service is awaited.
pub open spec fn thinking_text() -> Seq<char> {
    "Assistant is thinking..."@
}

/// A draw command.
pub open spec fn cmd(text: Seq<char>, x: int, y: int, color: u32) -> DrawCmdView {
    DrawCmdView { text, x, y, color }
}

/// The draw commands of the wrapped continuation lines of a service reply,
/// from line `k` on, at half line height below the first line; lines that
/// would fall below the window are left out (the display would clip them).
pub open spec fn cont_cmds(ls: Seq<Seq<char>>, k: nat, y: int, h: int) -> Seq<DrawCmdView>
    decreases ls.len() - k,
{
    if k >= ls.len() {
        Seq::empty()
    } else {
        let cy = y + k * (HALF_LINE_HEIGHT as int);
        let rest = cont_cmds(ls, (k + 1) as nat, y, h);
        if cy < h {
            seq![cmd(continuation_indent() + ls[k as int], ENTRY_X as int, cy, ASSISTANT_COLOR)]
                + rest
        } else {
            rest
        }
    }
}

/// Below the bottom edge no continuation line is drawn.
proof fn lemma_cont_cmds_below(ls: Seq<Seq<char>>, k: nat, y: int, h: int)
    requires
        y + k * (HALF_LINE_HEIGHT as int) >= h,
    ensures
        cont_cmds(ls, k, y, h) == Seq::<DrawCmdView>::empty(),
    decreases ls.len() - k,
{
    if k < ls.len() {
        assert((k + 1) * (HALF_LINE_HEIGHT as int) > k * (HALF_LINE_HEIGHT as int));
        lemma_cont_cmds_below(ls, (k + 1) as nat, y, h);
    }
}

/// The draw commands of one transcript entry at vertical position `y`:
/// a role label before the text, a banner around a decision, and greedy
/// word-wrapping for service replies.
pub open spec fn entry_cmds(m: ChatMessageView, y: int, h: int) -> Seq<DrawCmdView> {
    match m {
        ChatMessageView::System(t) => seq![
            cmd(label_system() + t, ENTRY_X as int, y, SYSTEM_COLOR),
        ],
        ChatMessageView::User(t) => seq![cmd(label_user() + t, ENTRY_X as int, y, USER_COLOR)],
        ChatMessageView::Assistant(t) => {
            let ls = wrap_text(t);
            if ls.len() == 0 {
                Seq::empty()
            } else {
                seq![cmd(label_assistant() + ls[0], ENTRY_X as int, y, ASSISTANT_COLOR)]
                    + cont_cmds(ls, 1, y, h)
            }
        },
        ChatMessageView::Decision(t) => seq![
            cmd(banner_left() + t + banner_right(), ENTRY_X as int, y, TEXT_COLOR),
        ],
    }
}

/// The draw commands of the visible entries from index `idx` on, one line
/// height apart.
pub open spec fn entries_cmds(vis: Seq<ChatMessageView>, idx: nat, h: int) -> Seq<DrawCmdView>
    decreases vis.len() - idx,
{
    if idx >= vis.len() {
        Seq::empty()
    } else {
        entry_cmds(vis[idx as int], TRANSCRIPT_TOP_Y as int + idx * (LINE_HEIGHT as int), h)
            + entries_cmds(vis, (idx + 1) as nat, h)
    }
}

/// The draw commands of the input line at the bottom of the window (absent
/// only when the window is shorter than the input line's raise).
pub open spec fn input_cmds(input: Seq<char>, h: u16) -> Seq<DrawCmdView> {
    if h >= INPUT_RAISE {
        seq![
            cmd(input_label(), ENTRY_X as int, h - INPUT_RAISE, TEXT_COLOR),
            cmd(input, INPUT_TEXT_X as int, h - INPUT_RAISE, TEXT_COLOR),
        ]
    } else {
        Seq::empty()
    }
}

/// The whole frame: the most recent transcript entries that fit (with the
/// transient thinking indicator counted as one more entry while a reply is
/// awaited), then the input line.
pub open spec fn spec_layout(
    t: Seq<ChatMessageView>,
    input: Seq<char>,
    thinking: bool,
    h: u16,
) -> Seq<DrawCmdView> {
    let full = if thinking {
        t.push(ChatMessageView::System(thinking_text()))
    } else {
        t
    };
    entries_cmds(visible_suffix(full, h), 0, h as int) + input_cmds(input, h)
}

/// The draw commands of one entry, exactly as `entry_cmds` states.
fn entry_cmds_exec(m: &ChatMessage, y: i32, h: u16) -> (out: Vec<DrawCmd>)
    requires
        0 <= y < h as i32,
    ensures
        cmds_view(out@) == entry_cmds(m@, y as int, h as int),
{
    let mut out: Vec<DrawCmd> = Vec::new();
    match m {
        ChatMessage::System(t) => {
            let mut s = String::from_str("System: ");
            s.append(t.as_str());
            out.push(DrawCmd { text: s, x: ENTRY_X as i32, y, color: SYSTEM_COLOR });
            proof {
                assert(cmds_view(out@) =~= entry_cmds(m@, y as int, h as int));
            }
        },
        ChatMessage::User(t) => {
            let mut s = String::from_str("You: ");
            s.append(t.as_str());
            out.push(DrawCmd { text: s, x: ENTRY_X as i32, y, color: USER_COLOR });
            proof {
                assert(cmds_view(out@) =~= entry_cmds(m@, y as int, h as int));
            }
        },
        ChatMessage::Decision(t) => {
            let mut s = String::from_str("=== ");
            s.append(t.as_str());
            s.append(" ===");
            out.push(DrawCmd { text: s, x: ENTRY_X as i32, y, color: TEXT_COLOR });
            proof {
                assert(cmds_view(out@) =~= entry_cmds(m@, y as int, h as int));
            }
        },
        ChatMessage::Assistant(t) => {
            let ls = wrap_text_exec(t.as_str());
            let ghost lsv = wrap_text(t@);
            if ls.len() > 0 {
                let mut s = String::from_str("Assistant: ");
                s.append(ls[0].as_str());
                out.push(DrawCmd { text: s, x: ENTRY_X as i32, y, color: ASSISTANT_COLOR });
                let ghost head = cmds_view(out@);
                proof {
                    assert(head =~= seq![
                        cmd(label_assistant() + lsv[0], ENTRY_X as int, y as int, ASSISTANT_COLOR),
                    ]);
                }
                let mut k: usize = 1;
                while k < ls.len()
                    invariant_except_break
                        1 <= k,
                        strs_view(ls@) == lsv,
                        0 <= y < h as i32,
                        h <= u16::MAX,
                        y + (k - 1) * (HALF_LINE_HEIGHT as int) < h,
                        cmds_view(out@) + cont_cmds(lsv, k as nat, y as int, h as int) == head
                            + cont_cmds(lsv, 1, y as int, h as int),
                    ensures
                        cmds_view(out@) == head + cont_cmds(lsv, 1, y as int, h as int),
                    decreases ls@.len() - k,
                {
                    assert(k <= 6554);
                    let cy: i32 = y + (k as i32) * (HALF_LINE_HEIGHT as i32);
                    if cy < h as i32 {
                        let mut cs = String::from_str("        ");
                        cs.append(ls[k].as_str());
                        let ghost outb = cmds_view(out@);
                        out.push(DrawCmd { text: cs, x: ENTRY_X as i32, y: cy, color: ASSISTANT_COLOR });
                        proof {
                            assert(cmds_view(out@) =~= outb.push(
                                cmd(
                                    continuation_indent() + lsv[k as int],
                                    ENTRY_X as int,
                                    cy as int,
                                    ASSISTANT_COLOR,
                                ),
                            ));
                            assert(cont_cmds(lsv, k as nat, y as int, h as int) == seq![
                                cmd(
                                    continuation_indent() + lsv[k as int],
                                    ENTRY_X as int,
                                    cy as int,
                                    ASSISTANT_COLOR,
                                ),
                            ] + cont_cmds(lsv, (k + 1) as nat, y as int, h as int));
                            assert(cmds_view(out@) + cont_cmds(lsv, (k + 1) as nat, y as int, h as int)
                                =~= outb + cont_cmds(lsv, k as nat, y as int, h as int));
                        }
                        k += 1;
                    } else {
                        proof {
                            lemma_cont_cmds_below(lsv, k as nat, y as int, h as int);
                        }
                        break;
                    }
                }
                proof {
                    if k >= ls@.len() {
                        assert(cont_cmds(lsv, k as nat, y as int, h as int)
                            == Seq::<DrawCmdView>::empty());
                    }
                    assert(cmds_view(out@) =~= entry_cmds(m@, y as int, h as int));
                }
            } else {
                proof {
                    assert(cmds_view(out@) =~= entry_cmds(m@, y as int, h as int));
                }
            }
        },
    }
    out
}

/// Lays out one frame: the visible transcript window, the transient
/// thinking indicator while a reply is awaited, and the input line, exactly
/// as `spec_layout` states.
pub fn layout_chat(transcript: &Transcript, input: &str, thinking: bool, height: u16) -> (plan:
    Vec<DrawCmd>)
    requires
        transcript@.len() < usize::MAX,
    ensures
        cmds_view(plan@) == spec_layout(transcript@, input@, thinking, height),
{
    let len = transcript.len();
    let full_len = if thinking {
        len + 1
    } else {
        len
    };
    let ghost full = if thinking {
        transcript@.push(ChatMessageView::System(thinking_text()))
    } else {
        transcript@
    };
    assert(full.len() == full_len);
    let maxv: usize = if height >= RESERVED_HEIGHT {
        ((height - RESERVED_HEIGHT) / LINE_HEIGHT) as usize
    } else {
        0
    };
    assert(maxv == visible_count(height));
    let start = if full_len > maxv {
        full_len - maxv
    } else {
        0
    };
    let count = full_len - start;
    let ghost vis = visible_suffix(full, height);
    proof {
        assert(vis =~= full.skip(start as int));
        assert(vis.len() == count);
    }
    let mut plan: Vec<DrawCmd> = Vec::new();
    let mut idx: usize = 0;
    while idx < count
        invariant
            count <= maxv || start == 0,
            start + count == full_len,
            full_len == full.len(),
            full_len <= usize::MAX,
            len == transcript@.len(),
            idx <= count,
            maxv == visible_count(height),
            vis == visible_suffix(full, height),
            vis =~= full.skip(start as int),
            vis.len() == count,
            full == (if thinking {
                transcript@.push(ChatMessageView::System(thinking_text()))
            } else {
                transcript@
            }),
            thinking ==> full_len == transcript@.len() + 1,
            !thinking ==> full_len == transcript@.len(),
            cmds_view(plan@) + entries_cmds(vis, idx as nat, height as int) == entries_cmds(
                vis,
                0,
                height as int,
            ),
        decreases count - idx,
    {
        proof {
            if count > maxv {
                assert(start == 0 && full_len <= maxv);
            }
            assert(idx < maxv);
            assert((idx + 1) * (LINE_HEIGHT as int) <= maxv * (LINE_HEIGHT as int)) by (nonlinear_arith)
                requires idx + 1 <= maxv;
            assert(maxv * (LINE_HEIGHT as int) <= height - RESERVED_HEIGHT);
        }
        let y: i32 = TRANSCRIPT_TOP_Y as i32 + (idx as i32) * (LINE_HEIGHT as i32);
        assert(y < height as i32);
        let pos = start + idx;
        let ghost planb = cmds_view(plan@);
        let mut sub: Vec<DrawCmd>;
        if pos < len {
            let m = transcript.get(pos);
            sub = entry_cmds_exec(m, y, height);
        } else {
            let m = ChatMessage::System(String::from_str("Assistant is thinking..."));
            assert(m@ == full[pos as int]);
            sub = entry_cmds_exec(&m, y, height);
        }
        let ghost subv = cmds_view(sub@);
        plan.append(&mut sub);
        proof {
            assert(vis[idx as int] == full[pos as int]);
            assert(cmds_view(plan@) =~= planb + subv);
            assert(entries_cmds(vis, idx as nat, height as int) == entry_cmds(
                vis[idx as int],
                TRANSCRIPT_TOP_Y as int + idx * (LINE_HEIGHT as int),
                height as int,
            ) + entries_cmds(vis, (idx + 1) as nat, height as int));
            assert((planb + subv) + entries_cmds(vis, (idx + 1) as nat, height as int) =~= planb
                + (subv + entries_cmds(vis, (idx + 1) as nat, height as int)));
        }
        idx += 1;
    }
    proof {
        assert(entries_cmds(vis, count as nat, height as int) == Seq::<DrawCmdView>::empty());
        assert(cmds_view(plan@) + Seq::<DrawCmdView>::empty() =~= cmds_view(plan@));
    }
    if height >= INPUT_RAISE {
        let ghost planb = cmds_view(plan@);
        plan.push(DrawCmd {
            text: String::from_str("Input: "),
            x: ENTRY_X as i32,
            y: (height - INPUT_RAISE) as i32,
            color: TEXT_COLOR,
        });
        plan.push(DrawCmd {
            text: String::from_str(input),
            x: INPUT_TEXT_X as i32,
            y: (height - INPUT_RAISE) as i32,
            color: TEXT_COLOR,
        });
        proof {
            assert(cmds_view(plan@) =~= planb + input_cmds(input@, height));
        }
    } else {
        proof {
            assert(cmds_view(plan@) + input_cmds(input@, height) =~= cmds_view(plan@));
        }
    }
    plan
}

} // verus!
