//! The global key combination that starts a selection.

use vstd::prelude::*;

verus! {

/// The id of the key combination that a text describes in a program built for macOS, or in
/// one built for another system; nothing where the text describes none.
pub uninterp spec fn hotkey_id(text: Seq<char>, macos: bool) -> Option<u32>;

/// Whether a text describes the same combination on every system: it holds no `or`, as the
/// alias `CmdOrCtrl` does.
pub open spec fn portable(text: Seq<char>) -> bool {
    forall|i: int|
        0 <= i < text.len() - 1 ==> !((#[trigger] text[i] == 'o' || text[i] == 'O') && (text[i + 1]
            == 'r' || text[i + 1] == 'R'))
}

/// `id` is the id of the combination that the text describes on the system at hand. Which
/// texts describe one is the same on every system; for a portable text the id is too.
pub open spec fn is_hotkey_of(text: Seq<char>, id: Option<u32>) -> bool {
    &&& id == hotkey_id(text, false) || id == hotkey_id(text, true)
    &&& id is Some == hotkey_id(text, false) is Some
    &&& id is Some == hotkey_id(text, true) is Some
    &&& portable(text) ==> id == hotkey_id(text, false) && id == hotkey_id(text, true)
}

/// Parses a text as a `global_hotkey::hotkey::HotKey`, by its `FromStr`, and returns the
/// result's `id`.
///
/// Whether a text is accepted depends on the text alone. So does the id, but for the alias
/// `CmdOrCtrl` and its longer forms, which stand for one modifier key where the program is
/// built for macOS and for another one elsewhere. Which of the two systems is at hand is
/// left unsaid.
#[verifier::external_body]
pub(crate) fn parse_hotkey(text: &str) -> (id: Option<u32>)
    ensures
        id == hotkey_id(text@, false) || id == hotkey_id(text@, true),
        id is Some == hotkey_id(text@, false) is Some,
        id is Some == hotkey_id(text@, true) is Some,
        portable(text@) ==> id == hotkey_id(text@, false) && id == hotkey_id(text@, true),
{
    text.parse::<global_hotkey::hotkey::HotKey>().ok().map(|hotkey| hotkey.id())
}

/// What to ask of the system to replace the registered key combination.
#[derive(Clone, Copy, Debug, PartialEq, Eq, Structural)]
pub struct HotkeyPlan {
    /// The combination to give up, if one is registered.
    pub unregister: Option<u32>,
    /// The combination to register, if the settings describe one.
    pub register: Option<u32>,
}

/// Whether the registered combination went down.
pub open spec fn activates(registered: Option<u32>, id: u32, pressed: bool) -> bool {
    registered == Some(id) && pressed
}

/// Whether a key event starts a selection: the registered combination went down.
pub fn is_activation(registered: Option<u32>, id: u32, pressed: bool) -> (r: bool)
    ensures
        r == activates(registered, id, pressed),
{
    match registered {
        Some(own) => own == id && pressed,
        None => false,
    }
}

} // verus!
