//! Key codes of the Android key event, mapped to the keys of the toolkit.

use vstd::prelude::*;

verus! {

/// A key of the keyboard.
#[derive(Clone, Copy, Debug, PartialEq, Eq, Hash, Structural)]
pub enum KeyCode {
    Escape,
    Backtick,
    Key0,
    Key1,
    Key2,
    Key3,
    Key4,
    Key5,
    Key6,
    Key7,
    Key8,
    Key9,
    Minus,
    Equals,
    Backspace,
    Tab,
    KeyA,
    KeyB,
    KeyC,
    KeyD,
    KeyE,
    KeyF,
    KeyG,
    KeyH,
    KeyI,
    KeyJ,
    KeyK,
    KeyL,
    KeyM,
    KeyN,
    KeyO,
    KeyP,
    KeyQ,
    KeyR,
    KeyS,
    KeyT,
    KeyU,
    KeyV,
    KeyW,
    KeyX,
    KeyY,
    KeyZ,
    LBracket,
    RBracket,
    ReturnKey,
    Semicolon,
    Quote,
    Backslash,
    Comma,
    Period,
    Slash,
    Control,
    Alt,
    Shift,
    Logo,
    Space,
    Capslock,
    F1,
    F2,
    F3,
    F4,
    F5,
    F6,
    F7,
    F8,
    F9,
    F10,
    F11,
    F12,
    PrintScreen,
    ScrollLock,
    Pause,
    Insert,
    Delete,
    Home,
    End,
    PageUp,
    PageDown,
    Numpad0,
    Numpad1,
    Numpad2,
    Numpad3,
    Numpad4,
    Numpad5,
    Numpad6,
    Numpad7,
    Numpad8,
    Numpad9,
    NumpadEquals,
    NumpadSubtract,
    NumpadAdd,
    NumpadDecimal,
    NumpadMultiply,
    NumpadDivide,
    Numlock,
    NumpadEnter,
    ArrowUp,
    ArrowDown,
    ArrowLeft,
    ArrowRight,
    Back,
    Unknown,
}

/// The key of the `n`-th digit of the top row.
pub open spec fn digit_key(n: int) -> KeyCode {
    if n == 0 {
        KeyCode::Key0
    } else if n == 1 {
        KeyCode::Key1
    } else if n == 2 {
        KeyCode::Key2
    } else if n == 3 {
        KeyCode::Key3
    } else if n == 4 {
        KeyCode::Key4
    } else if n == 5 {
        KeyCode::Key5
    } else if n == 6 {
        KeyCode::Key6
    } else if n == 7 {
        KeyCode::Key7
    } else if n == 8 {
        KeyCode::Key8
    } else {
        KeyCode::Key9
    }
}

/// The key of the `n`-th letter of the alphabet, counted from zero.
pub open spec fn letter_key(n: int) -> KeyCode {
    if n == 0 {
        KeyCode::KeyA
    } else if n == 1 {
        KeyCode::KeyB
    } else if n == 2 {
        KeyCode::KeyC
    } else if n == 3 {
        KeyCode::KeyD
    } else if n == 4 {
        KeyCode::KeyE
    } else if n == 5 {
        KeyCode::KeyF
    } else if n == 6 {
        KeyCode::KeyG
    } else if n == 7 {
        KeyCode::KeyH
    } else if n == 8 {
        KeyCode::KeyI
    } else if n == 9 {
        KeyCode::KeyJ
    } else if n == 10 {
        KeyCode::KeyK
    } else if n == 11 {
        KeyCode::KeyL
    } else if n == 12 {
        KeyCode::KeyM
    } else if n == 13 {
        KeyCode::KeyN
    } else if n == 14 {
        KeyCode::KeyO
    } else if n == 15 {
        KeyCode::KeyP
    } else if n == 16 {
        KeyCode::KeyQ
    } else if n == 17 {
        KeyCode::KeyR
    } else if n == 18 {
        KeyCode::KeyS
    } else if n == 19 {
        KeyCode::KeyT
    } else if n == 20 {
        KeyCode::KeyU
    } else if n == 21 {
        KeyCode::KeyV
    } else if n == 22 {
        KeyCode::KeyW
    } else if n == 23 {
        KeyCode::KeyX
    } else if n == 24 {
        KeyCode::KeyY
    } else {
        KeyCode::KeyZ
    }
}

/// The `n`-th function key, counted from zero.
pub open spec fn function_key(n: int) -> KeyCode {
    if n == 0 {
        KeyCode::F1
    } else if n == 1 {
        KeyCode::F2
    } else if n == 2 {
        KeyCode::F3
    } else if n == 3 {
        KeyCode::F4
    } else if n == 4 {
        KeyCode::F5
    } else if n == 5 {
        KeyCode::F6
    } else if n == 6 {
        KeyCode::F7
    } else if n == 7 {
        KeyCode::F8
    } else if n == 8 {
        KeyCode::F9
    } else if n == 9 {
        KeyCode::F10
    } else if n == 10 {
        KeyCode::F11
    } else {
        KeyCode::F12
    }
}

/// The key of the `n`-th digit of the number pad.
pub open spec fn numpad_digit_key(n: int) -> KeyCode {
    if n == 0 {
        KeyCode::Numpad0
    } else if n == 1 {
        KeyCode::Numpad1
    } else if n == 2 {
        KeyCode::Numpad2
    } else if n == 3 {
        KeyCode::Numpad3
    } else if n == 4 {
        KeyCode::Numpad4
    } else if n == 5 {
        KeyCode::Numpad5
    } else if n == 6 {
        KeyCode::Numpad6
    } else if n == 7 {
        KeyCode::Numpad7
    } else if n == 8 {
        KeyCode::Numpad8
    } else {
        KeyCode::Numpad9
    }
}

/// The key that stands for a code of the punctuation block, `55..=76`.
pub open spec fn punctuation_key(code: int) -> KeyCode {
    if code == 55 {
        KeyCode::Comma
    } else if code == 56 {
        KeyCode::Period
    } else if code == 57 || code == 58 {
        KeyCode::Alt
    } else if code == 59 || code == 60 {
        KeyCode::Shift
    } else if code == 61 {
        KeyCode::Tab
    } else if code == 62 {
        KeyCode::Space
    } else if code == 66 {
        KeyCode::ReturnKey
    } else if code == 67 {
        KeyCode::Backspace
    } else if code == 68 {
        KeyCode::Backtick
    } else if code == 69 {
        KeyCode::Minus
    } else if code == 70 {
        KeyCode::Equals
    } else if code == 71 {
        KeyCode::LBracket
    } else if code == 72 {
        KeyCode::RBracket
    } else if code == 73 {
        KeyCode::Backslash
    } else if code == 74 {
        KeyCode::Semicolon
    } else if code == 75 {
        KeyCode::Quote
    } else if code == 76 {
        KeyCode::Slash
    } else {
        KeyCode::Unknown
    }
}

/// The key that stands for a code of the editing block, `92..=124`.
pub open spec fn editing_key(code: int) -> KeyCode {
    if code == 92 {
        KeyCode::PageUp
    } else if code == 93 {
        KeyCode::PageDown
    } else if code == 111 {
        KeyCode::Escape
    } else if code == 112 {
        KeyCode::Delete
    } else if code == 113 || code == 114 {
        KeyCode::Control
    } else if code == 115 {
        KeyCode::Capslock
    } else if code == 116 {
        KeyCode::ScrollLock
    } else if code == 120 {
        KeyCode::PrintScreen
    } else if code == 121 {
        KeyCode::Pause
    } else if code == 122 {
        KeyCode::Home
    } else if code == 123 {
        KeyCode::End
    } else if code == 124 {
        KeyCode::Insert
    } else {
        KeyCode::Unknown
    }
}

/// The key that stands for a code of the number pad beside its digits,
/// `143` and `154..=161`.
pub open spec fn numpad_key(code: int) -> KeyCode {
    if code == 143 {
        KeyCode::Numlock
    } else if code == 154 {
        KeyCode::NumpadDivide
    } else if code == 155 {
        KeyCode::NumpadMultiply
    } else if code == 156 {
        KeyCode::NumpadSubtract
    } else if code == 157 {
        KeyCode::NumpadAdd
    } else if code == 158 || code == 159 {
        KeyCode::NumpadDecimal
    } else if code == 160 {
        KeyCode::NumpadEnter
    } else if code == 161 {
        KeyCode::NumpadEquals
    } else {
        KeyCode::Unknown
    }
}

/// The key that an Android key code stands for.
///
/// Digits, letters, function keys and the digits of the number pad come in
/// runs, in their natural order. A code that the toolkit has no key for gives
/// `Unknown`.
pub open spec fn android_key(code: int) -> KeyCode {
    if code == 4 {
        KeyCode::Back
    } else if 7 <= code <= 16 {
        digit_key(code - 7)
    } else if code == 19 {
        KeyCode::ArrowUp
    } else if code == 20 {
        KeyCode::ArrowDown
    } else if code == 21 {
        KeyCode::ArrowLeft
    } else if code == 22 {
        KeyCode::ArrowRight
    } else if 29 <= code <= 54 {
        letter_key(code - 29)
    } else if 55 <= code <= 76 {
        punctuation_key(code)
    } else if 92 <= code <= 124 {
        editing_key(code)
    } else if 131 <= code <= 142 {
        function_key(code - 131)
    } else if 144 <= code <= 153 {
        numpad_digit_key(code - 144)
    } else if 143 <= code <= 161 {
        numpad_key(code)
    } else {
        KeyCode::Unknown
    }
}

/// Whether the toolkit has a key for an Android key code.
pub open spec fn android_key_is_mapped(code: int) -> bool {
    ||| code == 4
    ||| 7 <= code <= 16
    ||| 19 <= code <= 22
    ||| 29 <= code <= 62
    ||| 66 <= code <= 76
    ||| 92 <= code <= 93
    ||| 111 <= code <= 116
    ||| 120 <= code <= 124
    ||| 131 <= code <= 161
}

/// A code gives `Unknown` exactly when the toolkit has no key for it.
pub proof fn lemma_unknown_key(code: int)
    ensures
        android_key(code) == KeyCode::Unknown <==> !android_key_is_mapped(code),
{
}

/// Maps the key code of an Android key event to the key of the toolkit.
pub fn android_to_makepad_key_code(key_code: u32) -> (key: KeyCode)
    ensures
        key == android_key(key_code as int),
{
    match key_code {
        4 => KeyCode::Back,
        7 => KeyCode::Key0,
        8 => KeyCode::Key1,
        9 => KeyCode::Key2,
        10 => KeyCode::Key3,
        11 => KeyCode::Key4,
        12 => KeyCode::Key5,
        13 => KeyCode::Key6,
        14 => KeyCode::Key7,
        15 => KeyCode::Key8,
        16 => KeyCode::Key9,
        19 => KeyCode::ArrowUp,
        20 => KeyCode::ArrowDown,
        21 => KeyCode::ArrowLeft,
        22 => KeyCode::ArrowRight,
        29 => KeyCode::KeyA,
        30 => KeyCode::KeyB,
        31 => KeyCode::KeyC,
        32 => KeyCode::KeyD,
        33 => KeyCode::KeyE,
        34 => KeyCode::KeyF,
        35 => KeyCode::KeyG,
        36 => KeyCode::KeyH,
        37 => KeyCode::KeyI,
        38 => KeyCode::KeyJ,
        39 => KeyCode::KeyK,
        40 => KeyCode::KeyL,
        41 => KeyCode::KeyM,
        42 => KeyCode::KeyN,
        43 => KeyCode::KeyO,
        44 => KeyCode::KeyP,
        45 => KeyCode::KeyQ,
        46 => KeyCode::KeyR,
        47 => KeyCode::KeyS,
        48 => KeyCode::KeyT,
        49 => KeyCode::KeyU,
        50 => KeyCode::KeyV,
        51 => KeyCode::KeyW,
        52 => KeyCode::KeyX,
        53 => KeyCode::KeyY,
        54 => KeyCode::KeyZ,
        55 => KeyCode::Comma,
        56 => KeyCode::Period,
        57 => KeyCode::Alt,
        58 => KeyCode::Alt,
        59 => KeyCode::Shift,
        60 => KeyCode::Shift,
        61 => KeyCode::Tab,
        62 => KeyCode::Space,
        66 => KeyCode::ReturnKey,
        67 => KeyCode::Backspace,
        68 => KeyCode::Backtick,
        69 => KeyCode::Minus,
        70 => KeyCode::Equals,
        71 => KeyCode::LBracket,
        72 => KeyCode::RBracket,
        73 => KeyCode::Backslash,
        74 => KeyCode::Semicolon,
        75 => KeyCode::Quote,
        76 => KeyCode::Slash,
        92 => KeyCode::PageUp,
        93 => KeyCode::PageDown,
        111 => KeyCode::Escape,
        112 => KeyCode::Delete,
        113 => KeyCode::Control,
        114 => KeyCode::Control,
        115 => KeyCode::Capslock,
        116 => KeyCode::ScrollLock,
        120 => KeyCode::PrintScreen,
        121 => KeyCode::Pause,
        122 => KeyCode::Home,
        123 => KeyCode::End,
        124 => KeyCode::Insert,
        131 => KeyCode::F1,
        132 => KeyCode::F2,
        133 => KeyCode::F3,
        134 => KeyCode::F4,
        135 => KeyCode::F5,
        136 => KeyCode::F6,
        137 => KeyCode::F7,
        138 => KeyCode::F8,
        139 => KeyCode::F9,
        140 => KeyCode::F10,
        141 => KeyCode::F11,
        142 => KeyCode::F12,
        143 => KeyCode::Numlock,
        144 => KeyCode::Numpad0,
        145 => KeyCode::Numpad1,
        146 => KeyCode::Numpad2,
        147 => KeyCode::Numpad3,
        148 => KeyCode::Numpad4,
        149 => KeyCode::Numpad5,
        150 => KeyCode::Numpad6,
        151 => KeyCode::Numpad7,
        152 => KeyCode::Numpad8,
        153 => KeyCode::Numpad9,
        154 => KeyCode::NumpadDivide,
        155 => KeyCode::NumpadMultiply,
        156 => KeyCode::NumpadSubtract,
        157 => KeyCode::NumpadAdd,
        158 => KeyCode::NumpadDecimal,
        159 => KeyCode::NumpadDecimal,
        160 => KeyCode::NumpadEnter,
        161 => KeyCode::NumpadEquals,
        _ => KeyCode::Unknown,
    }
}

} // verus!
