//! Interactive lock-screen controller: the negotiation state machine, verdict
//! parsing, key-to-text mapping, transcript model and render layout for a
//! personal screen-locking agent. All display and network I/O lives outside
//! this crate; the logic here is pure and fully specified.

pub mod countdown;
pub mod seizure;
pub mod keymap;
pub mod layout;
pub mod negotiation;
pub mod textutil;
pub mod transcript;
pub mod verdict;
