//! The clipboard: a copied secret is cleared after a while, unless the user has
//! put something else there in the meantime.
use vstd::prelude::*;

verus! {

/// Seconds after which a copied secret is cleared from the clipboard.
pub const CLIPBOARD_CLEAR_SECS: u64 = 30;

/// A clipboard that holds text, for the program's users (and tests) to implement.
pub trait Clipboard {
    /// Puts `text` on the clipboard.
    fn set_text(&mut self, text: &str) -> Result<(), String>;

    /// The text on the clipboard.
    fn get_text(&mut self) -> Result<String, String>;
}

/// Whether the clipboard is to be cleared after the wait: exactly when it could
/// be read and still holds what was copied; what the user put there since is left.
pub fn clear_needed(current: &Result<String, String>, copied: &str) -> (r: bool)
    ensures
        r == (current matches Ok(s) && s@ == copied@),
{
    match current {
        Ok(s) => crate::text::str_eq(s.as_str(), copied),
        Err(_) => false,
    }
}

} // verus!
