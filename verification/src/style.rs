//! The looks of the launcher's buttons: their style and their icons.

use vstd::prelude::*;

verus! {

/// The two looks a button can have: a bare icon, or a framed text button.
#[derive(Debug, Clone, Copy, PartialEq, Eq, Structural)]
pub enum ButtonStyle {
    Icon,
    Text,
}

impl Default for ButtonStyle {
    /// A button looks like a text button unless it says otherwise.
    fn default() -> (r: Self)
        ensures
            r == ButtonStyle::Text,
    {
        ButtonStyle::Text
    }
}

/// The icons of the launcher's buttons, drawn from the IcoMoon-Free font.
#[derive(Debug, Clone, Copy, PartialEq, Eq, Structural)]
pub enum Icon {
    Pause,
    Debug,
    Play,
    Href,
    Update,
    Delete,
    Folder,
    Reset,
}

/// The character that draws an icon in the IcoMoon-Free font.
pub fn icon_glyph(icon: Icon) -> (r: char)
    ensures
        r == (match icon {
            Icon::Pause => '\u{EA1D}',
            Icon::Debug => '\u{E999}',
            Icon::Play => '\u{EA1C}',
            Icon::Href => '\u{EA7E}',
            Icon::Update => '\u{E9C7}',
            Icon::Delete => '\u{E9AD}',
            Icon::Folder => '\u{E930}',
            Icon::Reset => '\u{E965}',
        }),
{
    match icon {
        Icon::Pause => '\u{EA1D}',
        Icon::Debug => '\u{E999}',
        Icon::Play => '\u{EA1C}',
        Icon::Href => '\u{EA7E}',
        Icon::Update => '\u{E9C7}',
        Icon::Delete => '\u{E9AD}',
        Icon::Folder => '\u{E930}',
        Icon::Reset => '\u{E965}',
    }
}

} // verus!
