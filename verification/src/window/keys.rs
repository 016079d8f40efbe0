//! What the keyboard does.

use vstd::prelude::*;

use crate::error::{AppError, AppResult, ErrorModel};

verus! {

/// The character that pasting with the keyboard would type.
pub const CTRL_V_CHAR: char = '\u{16}';

/// The control characters that copying and pasting with the keyboard type.
pub const CTRL_C_CODE: u16 = 0x03;

pub const CTRL_V_CODE: u16 = 0x16;

pub const KEY_C: usize = 0x43;

pub const KEY_V: usize = 0x56;

/// Which modifier keys are down.
#[derive(Clone, Copy, Debug, PartialEq, Eq, Structural)]
pub struct TerminalKeyModifiers {
    pub shift: bool,
    pub alt: bool,
    pub ctrl: bool,
}

impl TerminalKeyModifiers {
    pub fn new(shift: bool, alt: bool, ctrl: bool) -> (modifiers: Self)
        ensures
            modifiers == (TerminalKeyModifiers { shift, alt, ctrl }),
    {
        TerminalKeyModifiers { shift, alt, ctrl }
    }
}

/// Keys that have a meaning of their own in a terminal.
#[derive(Clone, Copy, Debug, PartialEq, Eq, Structural)]
pub enum TerminalKey {
    Enter,
    Backspace,
    Tab,
    Escape,
    ArrowUp,
    ArrowDown,
    ArrowRight,
    ArrowLeft,
}

/// A key as the toolkit reports it.
#[derive(Clone, Copy, Debug, PartialEq, Eq, Structural)]
pub enum PressedKey {
    Return,
    KeypadEnter,
    BackSpace,
    Tab,
    LeftTab,
    Escape,
    Up,
    Down,
    Right,
    Left,
    Character(char),
    Other,
}

/// What a pressed key does.
#[derive(Clone, Copy, Debug, PartialEq, Eq, Structural)]
pub enum KeyAction {
    CopySelection,
    PasteClipboard,
    /// Sends a key to the terminal.
    Key(TerminalKey, TerminalKeyModifiers),
    /// Sends a character to the terminal.
    Character(char, TerminalKeyModifiers),
    /// Leaves the key to others.
    Ignore,
}

/// Whether the control key is down without the alternative key.
pub open spec fn is_shortcut(modifiers: TerminalKeyModifiers) -> bool {
    modifiers.ctrl && !modifiers.alt
}

/// The terminal's key for a pressed key, where there is one.
pub open spec fn terminal_key_of(key: PressedKey) -> Option<TerminalKey> {
    match key {
        PressedKey::Return => Some(TerminalKey::Enter),
        PressedKey::KeypadEnter => Some(TerminalKey::Enter),
        PressedKey::BackSpace => Some(TerminalKey::Backspace),
        PressedKey::Tab => Some(TerminalKey::Tab),
        PressedKey::LeftTab => Some(TerminalKey::Tab),
        PressedKey::Escape => Some(TerminalKey::Escape),
        PressedKey::Up => Some(TerminalKey::ArrowUp),
        PressedKey::Down => Some(TerminalKey::ArrowDown),
        PressedKey::Right => Some(TerminalKey::ArrowRight),
        PressedKey::Left => Some(TerminalKey::ArrowLeft),
        PressedKey::Character(_) => None,
        PressedKey::Other => None,
    }
}

/// What a pressed key does: with a selection, control and C copy it; control
/// and V paste.
pub open spec fn key_action(key: PressedKey, modifiers: TerminalKeyModifiers, has_selection: bool) -> KeyAction {
    let is_c = key == PressedKey::Character('c') || key == PressedKey::Character('C');
    let is_v = key == PressedKey::Character('v') || key == PressedKey::Character('V');
    if is_shortcut(modifiers) && is_c && has_selection {
        KeyAction::CopySelection
    } else if is_shortcut(modifiers) && is_v {
        KeyAction::PasteClipboard
    } else {
        match terminal_key_of(key) {
            Some(terminal_key) => KeyAction::Key(terminal_key, modifiers),
            None => match key {
                PressedKey::Character(character) => if character == CTRL_V_CHAR {
                    KeyAction::Ignore
                } else {
                    KeyAction::Character(character, modifiers)
                },
                _ => KeyAction::Ignore,
            },
        }
    }
}

pub fn handle_key_pressed(key: PressedKey, modifiers: TerminalKeyModifiers, has_selection: bool) -> (action:
    KeyAction)
    ensures
        action == key_action(key, modifiers, has_selection),
        key is Return ==> action == KeyAction::Key(TerminalKey::Enter, modifiers),
        key is KeypadEnter ==> action == KeyAction::Key(TerminalKey::Enter, modifiers),
        key is BackSpace ==> action == KeyAction::Key(TerminalKey::Backspace, modifiers),
        key is Tab ==> action == KeyAction::Key(TerminalKey::Tab, modifiers),
        key is LeftTab ==> action == KeyAction::Key(TerminalKey::Tab, modifiers),
        key is Escape ==> action == KeyAction::Key(TerminalKey::Escape, modifiers),
        key is Up ==> action == KeyAction::Key(TerminalKey::ArrowUp, modifiers),
        key is Down ==> action == KeyAction::Key(TerminalKey::ArrowDown, modifiers),
        key is Right ==> action == KeyAction::Key(TerminalKey::ArrowRight, modifiers),
        key is Left ==> action == KeyAction::Key(TerminalKey::ArrowLeft, modifiers),
        key is Other ==> action is Ignore,
        key matches PressedKey::Character(character) ==> !(action is Key) && (action
            is CopySelection <==> modifiers.ctrl && !modifiers.alt && has_selection && (character
            == 'c' || character == 'C')) && (action is PasteClipboard <==> modifiers.ctrl
            && !modifiers.alt && (character == 'v' || character == 'V')) && (action is Ignore <==>
            character == CTRL_V_CHAR),
{
    if modifiers.ctrl && !modifiers.alt {
        match key {
            PressedKey::Character(character) => {
                if (character == 'c' || character == 'C') && has_selection {
                    return KeyAction::CopySelection;
                }
                if character == 'v' || character == 'V' {
                    return KeyAction::PasteClipboard;
                }
            },
            _ => {},
        }
    }
    match key {
        PressedKey::Return => KeyAction::Key(TerminalKey::Enter, modifiers),
        PressedKey::KeypadEnter => KeyAction::Key(TerminalKey::Enter, modifiers),
        PressedKey::BackSpace => KeyAction::Key(TerminalKey::Backspace, modifiers),
        PressedKey::Tab => KeyAction::Key(TerminalKey::Tab, modifiers),
        PressedKey::LeftTab => KeyAction::Key(TerminalKey::Tab, modifiers),
        PressedKey::Escape => KeyAction::Key(TerminalKey::Escape, modifiers),
        PressedKey::Up => KeyAction::Key(TerminalKey::ArrowUp, modifiers),
        PressedKey::Down => KeyAction::Key(TerminalKey::ArrowDown, modifiers),
        PressedKey::Right => KeyAction::Key(TerminalKey::ArrowRight, modifiers),
        PressedKey::Left => KeyAction::Key(TerminalKey::ArrowLeft, modifiers),
        PressedKey::Character(character) => if character == CTRL_V_CHAR {
            KeyAction::Ignore
        } else {
            KeyAction::Character(character, modifiers)
        },
        PressedKey::Other => KeyAction::Ignore,
    }
}

/// What a shortcut does, and which typed character it swallows.
#[derive(Clone, Copy, Debug, PartialEq, Eq, Structural)]
pub enum ShortcutAction {
    CopySelection { suppressed: u16 },
    PasteClipboard { suppressed: u16 },
    NotHandled,
}

/// The shortcut for a virtual key, if it is one.
pub fn clipboard_shortcut(virtual_key: usize, modifiers: TerminalKeyModifiers, has_selection: bool) -> (action:
    ShortcutAction)
    ensures
        action == (if is_shortcut(modifiers) && virtual_key == KEY_C && has_selection {
            ShortcutAction::CopySelection { suppressed: CTRL_C_CODE }
        } else if is_shortcut(modifiers) && virtual_key == KEY_V {
            ShortcutAction::PasteClipboard { suppressed: CTRL_V_CODE }
        } else {
            ShortcutAction::NotHandled
        }),
        action is CopySelection <==> modifiers.ctrl && !modifiers.alt && virtual_key == 0x43
            && has_selection,
        action is PasteClipboard <==> modifiers.ctrl && !modifiers.alt && virtual_key == 0x56,
{
    if !modifiers.ctrl || modifiers.alt {
        return ShortcutAction::NotHandled;
    }
    if virtual_key == KEY_C && has_selection {
        ShortcutAction::CopySelection { suppressed: CTRL_C_CODE }
    } else if virtual_key == KEY_V {
        ShortcutAction::PasteClipboard { suppressed: CTRL_V_CODE }
    } else {
        ShortcutAction::NotHandled
    }
}

pub const READ_CLIPBOARD: &'static str = "read GTK clipboard";

/// The text to paste, given what reading the clipboard gave: none where there
/// is no text or it is empty.
pub fn clipboard_text(read: Result<Option<String>, String>) -> (text: AppResult<Option<String>>)
    ensures
        match read {
            Ok(Some(held)) => text is Ok && text->Ok_0 == (if held@.len() > 0 {
                Some(held)
            } else {
                None
            }),
            Ok(None) => text is Ok && text->Ok_0 is None,
            Err(cause) => text is Err && (text->Err_0)@ == ErrorModel::Ui(READ_CLIPBOARD@, cause@),
        },
{
    match read {
        Ok(Some(held)) => if held.as_str().unicode_len() > 0 {
            Ok(Some(held))
        } else {
            Ok(None)
        },
        Ok(None) => Ok(None),
        Err(cause) => Err(AppError::ui_message(READ_CLIPBOARD, cause)),
    }
}

/// Without a selection, control and C reach the terminal.
pub proof fn law_interrupt_reaches_the_terminal(modifiers: TerminalKeyModifiers)
    requires
        is_shortcut(modifiers),
    ensures
        key_action(PressedKey::Character('c'), modifiers, false) == KeyAction::Character(
            'c',
            modifiers,
        ),
{
}

/// A key that has a name reaches the terminal as the key of that name, with the
/// modifiers that are down, whatever they are and whether anything is selected or not:
/// an arrow as the arrow that points the same way, both enter keys as enter, and both
/// tab keys as tab. A key that is no key of a terminal does nothing.
pub proof fn law_named_keys_keep_their_meaning(modifiers: TerminalKeyModifiers, has_selection: bool)
    ensures
        key_action(PressedKey::Return, modifiers, has_selection) == KeyAction::Key(
            TerminalKey::Enter,
            modifiers,
        ),
        key_action(PressedKey::KeypadEnter, modifiers, has_selection) == KeyAction::Key(
            TerminalKey::Enter,
            modifiers,
        ),
        key_action(PressedKey::BackSpace, modifiers, has_selection) == KeyAction::Key(
            TerminalKey::Backspace,
            modifiers,
        ),
        key_action(PressedKey::Tab, modifiers, has_selection) == KeyAction::Key(
            TerminalKey::Tab,
            modifiers,
        ),
        key_action(PressedKey::LeftTab, modifiers, has_selection) == KeyAction::Key(
            TerminalKey::Tab,
            modifiers,
        ),
        key_action(PressedKey::Escape, modifiers, has_selection) == KeyAction::Key(
            TerminalKey::Escape,
            modifiers,
        ),
        key_action(PressedKey::Up, modifiers, has_selection) == KeyAction::Key(
            TerminalKey::ArrowUp,
            modifiers,
        ),
        key_action(PressedKey::Down, modifiers, has_selection) == KeyAction::Key(
            TerminalKey::ArrowDown,
            modifiers,
        ),
        key_action(PressedKey::Right, modifiers, has_selection) == KeyAction::Key(
            TerminalKey::ArrowRight,
            modifiers,
        ),
        key_action(PressedKey::Left, modifiers, has_selection) == KeyAction::Key(
            TerminalKey::ArrowLeft,
            modifiers,
        ),
        key_action(PressedKey::Other, modifiers, has_selection) is Ignore,
{
}

/// A character reaches the terminal as it is, with the modifiers that are down. Only
/// with control and without the alternative key are there exceptions, in either case of
/// the letter: V pastes, and C copies where something is selected. The character that
/// pasting would type never reaches the terminal.
pub proof fn law_characters_reach_the_terminal(
    character: char,
    modifiers: TerminalKeyModifiers,
    has_selection: bool,
)
    ensures
        ({
            let action = key_action(PressedKey::Character(character), modifiers, has_selection);
            let shortcut = modifiers.ctrl && !modifiers.alt;
            let copies = shortcut && has_selection && (character == 'c' || character == 'C');
            let pastes = shortcut && (character == 'v' || character == 'V');
            &&& action is CopySelection <==> copies
            &&& action is PasteClipboard <==> pastes
            &&& action is Ignore <==> character as u32 == 0x16
            &&& !copies && !pastes && character as u32 != 0x16 ==> action == KeyAction::Character(
                character,
                modifiers,
            )
        }),
{
}

/// Two keys that are sent as the same key of a terminal are the two enter keys or the
/// two tab keys, or one and the same.
pub proof fn law_keys_stay_apart(
    first: PressedKey,
    second: PressedKey,
    modifiers: TerminalKeyModifiers,
    has_selection: bool,
)
    requires
        key_action(first, modifiers, has_selection) is Key,
        key_action(first, modifiers, has_selection) == key_action(
            second,
            modifiers,
            has_selection,
        ),
    ensures
        first == second || first is Return && second is KeypadEnter || first is KeypadEnter
            && second is Return || first is Tab && second is LeftTab || first is LeftTab
            && second is Tab,
{
}

} // verus!
