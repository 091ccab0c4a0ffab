//! A touch-typing trainer core: a vocabulary store of named word lists and a
//! typing-session state machine that interprets key events, validates input
//! character by character, and emits audio intents for a host to execute.

pub mod events;
pub mod session;
pub mod vocab;
