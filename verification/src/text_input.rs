//! An editable text field: which field has the focus, and what a key does to
//! the text of a focused field.

use crate::interaction::Interaction;
use vstd::prelude::*;

verus! {

/// The text of an editable field.
#[derive(Debug, PartialEq, Eq)]
pub struct TextInput(pub String);

impl View for TextInput {
    type V = Seq<char>;

    open spec fn view(&self) -> Seq<char> {
        self.0@
    }
}

/// Notice that a field gained the focus.
#[derive(Clone, Copy, Debug, PartialEq, Eq, Structural)]
pub struct TextInputFocused;

/// Notice that a field lost the focus.
#[derive(Clone, Copy, Debug, PartialEq, Eq, Structural)]
pub struct TextInputUnfocused;

/// Notice that a field's text was submitted with the enter key.
#[derive(Clone, Copy, Debug, PartialEq, Eq, Structural)]
pub struct TextInputSubmitted;

/// Whether a field has the focus.
#[derive(Clone, Copy, Debug, PartialEq, Eq, Structural)]
pub enum TextInputActive {
    Active,
    Inactive,
}

impl Default for TextInputActive {
    fn default() -> (active: TextInputActive)
        ensures
            active == TextInputActive::Inactive,
    {
        TextInputActive::Inactive
    }
}

/// What a focus decision leaves behind: the field's new focus state and the
/// notices to send for it.
#[derive(Clone, Copy, Debug, PartialEq, Eq, Structural)]
pub struct FocusChange {
    pub active: TextInputActive,
    pub focused: Option<TextInputFocused>,
    pub unfocused: Option<TextInputUnfocused>,
    pub submitted: Option<TextInputSubmitted>,
}

/// The focus state stays as it is and nothing is sent.
pub open spec fn focus_kept(active: TextInputActive) -> FocusChange {
    FocusChange { active, focused: None, unfocused: None, submitted: None }
}

/// What a press of the left mouse button does to a field: an unfocused field
/// under the press gains the focus, a focused field elsewhere loses it.
pub open spec fn mouse_focus(
    left_just_pressed: bool,
    active: TextInputActive,
    interaction: Interaction,
) -> FocusChange {
    if left_just_pressed && active == TextInputActive::Inactive && interaction
        == Interaction::Pressed {
        FocusChange {
            active: TextInputActive::Active,
            focused: Some(TextInputFocused),
            unfocused: None,
            submitted: None,
        }
    } else if left_just_pressed && active == TextInputActive::Active && interaction
        != Interaction::Pressed {
        FocusChange {
            active: TextInputActive::Inactive,
            focused: None,
            unfocused: Some(TextInputUnfocused),
            submitted: None,
        }
    } else {
        focus_kept(active)
    }
}

/// What escape and enter do to a field: either takes the focus from a
/// focused field, and enter submits its text as well.
pub open spec fn keyboard_focus(
    escape_just_pressed: bool,
    enter_just_pressed: bool,
    active: TextInputActive,
) -> FocusChange {
    if (escape_just_pressed || enter_just_pressed) && active == TextInputActive::Active {
        FocusChange {
            active: TextInputActive::Inactive,
            focused: None,
            unfocused: Some(TextInputUnfocused),
            submitted: if enter_just_pressed {
                Some(TextInputSubmitted)
            } else {
                None
            },
        }
    } else {
        focus_kept(active)
    }
}

/// Decides the focus of one field when the mouse buttons were read.
pub fn focus_text_fields_mouse(
    left_just_pressed: bool,
    active: TextInputActive,
    interaction: Interaction,
) -> (change: FocusChange)
    ensures
        change == mouse_focus(left_just_pressed, active, interaction),
{
    let kept = FocusChange { active, focused: None, unfocused: None, submitted: None };
    if !left_just_pressed {
        return kept;
    }
    let is_active = active == TextInputActive::Active;
    let is_pressed = interaction == Interaction::Pressed;
    if !is_active && is_pressed {
        FocusChange {
            active: TextInputActive::Active,
            focused: Some(TextInputFocused),
            unfocused: None,
            submitted: None,
        }
    } else if is_active && !is_pressed {
        FocusChange {
            active: TextInputActive::Inactive,
            focused: None,
            unfocused: Some(TextInputUnfocused),
            submitted: None,
        }
    } else {
        kept
    }
}

/// Decides the focus of one field when the keyboard was read.
pub fn focus_text_fields_keyboard(
    escape_just_pressed: bool,
    enter_just_pressed: bool,
    active: TextInputActive,
) -> (change: FocusChange)
    ensures
        change == keyboard_focus(escape_just_pressed, enter_just_pressed, active),
{
    if (escape_just_pressed || enter_just_pressed) && active == TextInputActive::Active {
        FocusChange {
            active: TextInputActive::Inactive,
            focused: None,
            unfocused: Some(TextInputUnfocused),
            submitted: if enter_just_pressed {
                Some(TextInputSubmitted)
            } else {
                None
            },
        }
    } else {
        FocusChange { active, focused: None, unfocused: None, submitted: None }
    }
}

/// The meaning of a key for a text field.
#[derive(Debug)]
pub enum TextKey {
    /// The key types these characters.
    Character(String),
    Backspace,
    Space,
    Escape,
    Enter,
    /// Any other key.
    Other,
}

/// A key event: the key and whether it went down or up.
#[derive(Debug)]
pub struct KeyPress {
    pub key: TextKey,
    pub pressed: bool,
}

/// The text of a field after a key event: a focused field takes the
/// characters of a key that went down, loses its last character to
/// backspace, and gains a blank from the space bar. Nothing else edits.
pub open spec fn text_after_key(
    text: Seq<char>,
    active: TextInputActive,
    pressed: bool,
    key: TextKey,
) -> Seq<char> {
    if active == TextInputActive::Active && pressed {
        match key {
            TextKey::Character(typed) => text + typed@,
            TextKey::Backspace => if text.len() > 0 {
                text.drop_last()
            } else {
                text
            },
            TextKey::Space => text.push(' '),
            _ => text,
        }
    } else {
        text
    }
}

/// Whether a focused field has no use for the key that went down.
pub open spec fn is_unhandled(active: TextInputActive, pressed: bool, key: TextKey) -> bool {
    active == TextInputActive::Active && pressed && key is Other
}

/// `String::pop`: takes the last character off the string and returns it; an
/// empty string stays empty and `None` comes back.
#[verifier::external_body]
fn pop_char(text: &mut String) -> (popped: Option<char>)
    ensures
        old(text)@.len() == 0 ==> popped is None && final(text)@ == old(text)@,
        old(text)@.len() > 0 ==> popped == Some(old(text)@.last()) && final(text)@ == old(
            text,
        )@.drop_last(),
{
    text.pop()
}

/// `String::push`: appends the character to the string.
#[verifier::external_body]
fn push_char(text: &mut String, c: char)
    ensures
        final(text)@ == old(text)@.push(c),
{
    text.push(c)
}

/// Applies one key event to a field. Returns false when the field is focused
/// and the key that went down means nothing to it.
pub fn keyboard_input(
    text_input: &mut TextInput,
    active: TextInputActive,
    key: &KeyPress,
) -> (handled: bool)
    ensures
        final(text_input)@ == text_after_key(old(text_input)@, active, key.pressed, key.key),
        handled == !is_unhandled(active, key.pressed, key.key),
{
    if active != TextInputActive::Active || !key.pressed {
        return true;
    }
    match &key.key {
        TextKey::Character(typed) => {
            text_input.0.append(typed.as_str());
            true
        },
        TextKey::Backspace => {
            let _ = pop_char(&mut text_input.0);
            true
        },
        TextKey::Space => {
            push_char(&mut text_input.0, ' ');
            true
        },
        TextKey::Escape | TextKey::Enter => true,
        TextKey::Other => false,
    }
}

} // verus!
