//! The event vocabulary consumed by the session, and the mapping from raw key
//! names (as a host's key relay delivers them) to session events.

use vstd::prelude::*;

verus! {

/// Timer message of the hosting page; kept for hosts that drive a clock.
pub enum Msg {
    UpdateTime,
}

/// An input or control event for the typing session.
pub enum Key {
    /// A raw text token; only single-character tokens are interpreted.
    SetText(String),
    /// Choose the pronunciation variant by code: 0 selects American English,
    /// any other value British English.
    SelectProunc(u8),
    /// Switch to the level with this key.
    SelectLevel(String),
    /// Jump to the start of a 1-based chapter.
    SelectChapter(usize),
    /// Manual navigation: the token "next" advances, anything else goes back.
    WordNextPre(String),
    /// Toggle between the stopped and running status.
    Submit,
}

/// Maps a raw keyboard token to a session event: "Enter" toggles the session,
/// any other token is handed over as text.
pub fn key_to_event(key: String) -> (r: Key)
    ensures
        key@ == "Enter"@ ==> r is Submit,
        key@ != "Enter"@ ==> (r matches Key::SetText(s) && s@ == key@),
{
    let enter = String::from_str("Enter");
    if key == enter {
        Key::Submit
    } else {
        Key::SetText(key)
    }
}

} // verus!
