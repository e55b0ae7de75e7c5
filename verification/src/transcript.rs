//! The chat transcript: an ordered, append-only log of displayed entries,
//! and the pure mapping from entry kind to display color.
//!
//! Entries are only ever appended; the renderer may skip old entries that no
//! longer fit the window, but nothing is removed or rewritten. The transient
//! "thinking" indicator is drawn by the renderer from session state and is
//! deliberately not a transcript entry, so the log stays append-only.

use vstd::prelude::*;

verus! {

/// Background color of the lock window.
pub const BG_COLOR: u32 = 0x282828;

/// Default text color, also used for decision banners.
pub const TEXT_COLOR: u32 = 0xebdbb2;

/// Color of system messages.
pub const SYSTEM_COLOR: u32 = 0xfabd2f;

/// Color of the user's own messages.
pub const USER_COLOR: u32 = 0x83a598;

/// Color of the decision service's messages.
pub const ASSISTANT_COLOR: u32 = 0xb8bb26;

/// One displayed chat entry, tagged by who it came from.
#[derive(Clone, Debug)]
pub enum ChatMessage {
    System(String),
    User(String),
    Assistant(String),
    Decision(String),
}

/// The mathematical shape of a chat entry: its kind and its text.
pub enum ChatMessageView {
    System(Seq<char>),
    User(Seq<char>),
    Assistant(Seq<char>),
    Decision(Seq<char>),
}

impl View for ChatMessage {
    type V = ChatMessageView;

    open spec fn view(&self) -> ChatMessageView {
        match self {
            ChatMessage::System(t) => ChatMessageView::System(t@),
            ChatMessage::User(t) => ChatMessageView::User(t@),
            ChatMessage::Assistant(t) => ChatMessageView::Assistant(t@),
            ChatMessage::Decision(t) => ChatMessageView::Decision(t@),
        }
    }
}

/// The display color of an entry, by its kind alone.
pub open spec fn spec_entry_color(m: ChatMessageView) -> u32 {
    match m {
        ChatMessageView::System(_) => SYSTEM_COLOR,
        ChatMessageView::User(_) => USER_COLOR,
        ChatMessageView::Assistant(_) => ASSISTANT_COLOR,
        ChatMessageView::Decision(_) => TEXT_COLOR,
    }
}

/// The display color of an entry, exactly as `spec_entry_color` states.
pub fn entry_color(m: &ChatMessage) -> (c: u32)
    ensures
        c == spec_entry_color(m@),
{
    match m {
        ChatMessage::System(_) => SYSTEM_COLOR,
        ChatMessage::User(_) => USER_COLOR,
        ChatMessage::Assistant(_) => ASSISTANT_COLOR,
        ChatMessage::Decision(_) => TEXT_COLOR,
    }
}

/// The ordered, append-only log of chat entries. The only mutation it
/// offers is `push`, so within a session the entry sequence of every later
/// state has the earlier sequence as a prefix.
pub struct Transcript {
    entries: Vec<ChatMessage>,
}

impl View for Transcript {
    type V = Seq<ChatMessageView>;

    closed spec fn view(&self) -> Seq<ChatMessageView> {
        self.entries@.map_values(|m: ChatMessage| m@)
    }
}

impl Transcript {
    /// An empty transcript.
    pub fn new() -> (t: Transcript)
        ensures
            t@ == Seq::<ChatMessageView>::empty(),
    {
        let t = Transcript { entries: Vec::new() };
        proof {
            assert(t@ =~= Seq::<ChatMessageView>::empty());
        }
        t
    }

    /// Appends one entry; everything already logged stays in place.
    pub fn push(&mut self, m: ChatMessage)
        ensures
            final(self)@ == old(self)@.push(m@),
    {
        let ghost before = self@;
        let ghost mv = m@;
        self.entries.push(m);
        proof {
            assert(self@ =~= before.push(mv));
        }
    }

    /// How many entries the transcript holds.
    pub fn len(&self) -> (n: usize)
        ensures
            n == self@.len(),
    {
        self.entries.len()
    }

    /// The entry at position `i`.
    pub fn get(&self, i: usize) -> (m: &ChatMessage)
        requires
            i < self@.len(),
        ensures
            m@ == self@[i as int],
    {
        &self.entries[i]
    }

    /// Append-only law: a push never disturbs what was already logged, and
    /// the entry count grows by exactly one.
    pub proof fn lemma_push_append_only(pre: Seq<ChatMessageView>, m: ChatMessageView)
        ensures
            pre.push(m).len() == pre.len() + 1,
            forall|i: int| 0 <= i < pre.len() ==> pre.push(m)[i] == pre[i],
    {
    }
}

} // verus!
