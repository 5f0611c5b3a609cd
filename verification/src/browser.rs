//! Keys in the browser.

use crate::text::{chars_of, same_text};
use vstd::prelude::*;

verus! {

/// What to do with a key that went down in the browser.
#[derive(Clone, Copy, Debug, PartialEq, Eq, Structural)]
pub enum BrowserKey {
    /// Leave it to the browser.
    Leave,
    /// Hand it to the session, and let the browser act on it too.
    Share,
    /// Hand it to the session, and keep the browser from acting on it.
    Swallow,
}

/// Whether a session acts on the key that the browser calls `key`: one that types a
/// character, or one of those that have a name.
pub open spec fn session_key(key: Seq<char>) -> bool {
    ||| key.len() == 1
    ||| key == "Enter"@
    ||| key == "Tab"@
    ||| key == "Backspace"@
    ||| key == "ArrowUp"@
    ||| key == "ArrowDown"@
}

/// What to do with the key that the browser calls `key`. Browser shortcuts
/// (copy/paste/reload/devtools) are left alone. Keys that the session acts on are
/// swallowed, so they don't scroll the page, move focus, or trigger a quick-find on "/".
pub fn browser_key(key: &str, ctrl: bool, alt: bool, meta: bool) -> (verdict: BrowserKey)
    ensures
        verdict == (if ctrl || alt || meta {
            BrowserKey::Leave
        } else if session_key(key@) {
            BrowserKey::Swallow
        } else {
            BrowserKey::Share
        }),
{
    if ctrl || alt || meta {
        return BrowserKey::Leave;
    }
    if chars_of(key).len() == 1 || same_text(key, "Enter") || same_text(key, "Tab") || same_text(
        key,
        "Backspace",
    ) || same_text(key, "ArrowUp") || same_text(key, "ArrowDown") {
        BrowserKey::Swallow
    } else {
        BrowserKey::Share
    }
}

/// A session acts on every key that types one character, whichever it is, and on no key with
/// a longer name but Enter, Tab, Backspace and the arrows up and down.
pub proof fn law_keys_that_a_session_acts_on(key: Seq<char>)
    ensures
        key.len() == 1 ==> session_key(key),
        key.len() != 1 ==> (session_key(key) <==> (key == "Enter"@ || key == "Tab"@ || key
            == "Backspace"@ || key == "ArrowUp"@ || key == "ArrowDown"@)),
{
}

} // verus!
