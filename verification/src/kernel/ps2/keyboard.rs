use vstd::prelude::*;

verus! {

/// How many characters one key can produce under different modifier combinations.
pub const MAX_KEYCODE_TRANSFORMATION_COUNT: usize = 4;

/// Number of key codes that the per-key tables have room for.
pub const KEY_TABLE_SIZE: usize = 256;

/// Number of slots of a keyboard layout: four per key code.
pub const LAYOUT_SLOTS: usize = 1024;

/// Length of the buffer that collects the bytes of one scan code.
pub const SCANCODE_BUFFER_LEN: usize = 8;

/// A key of the keyboard, independent of the scan code set that reported it.
#[derive(Clone, Copy, PartialEq, Eq, Structural, Debug)]
pub enum KeyCode {
    Escape,
    F1,
    F2,
    F3,
    F4,
    F5,
    F6,
    F7,
    F8,
    F9,
    F10,
    F11,
    F12,
    PrintScrn,
    ScrollLock,
    Break,
    Backtick,
    Digit1,
    Digit2,
    Digit3,
    Digit4,
    Digit5,
    Digit6,
    Digit7,
    Digit8,
    Digit9,
    Digit0,
    Minus,
    Equal,
    Backspace,
    Insert,
    Home,
    PageUp,
    NumLock,
    NumpadDivide,
    NumpadMultiply,
    NumpadSubtract,
    Tab,
    Q,
    W,
    E,
    R,
    T,
    Y,
    U,
    I,
    O,
    P,
    LBracket,
    RBracket,
    Enter,
    Delete,
    End,
    PageDown,
    Numpad7,
    Numpad8,
    Numpad9,
    NumpadAdd,
    CapsLock,
    A,
    S,
    D,
    F,
    G,
    H,
    J,
    K,
    L,
    Semicolon,
    Quote,
    Backslash,
    Numpad4,
    Numpad5,
    Numpad6,
    LShift,
    Pipe,
    Z,
    X,
    C,
    V,
    B,
    N,
    M,
    Comma,
    Period,
    Slash,
    RShift,
    Up,
    Numpad1,
    Numpad2,
    Numpad3,
    NumpadEnter,
    LControl,
    LMeta,
    LAlt,
    Space,
    RAlt,
    RMeta,
    Menu,
    RControl,
    Left,
    Down,
    Right,
    Numpad0,
    NumpadDecimal,
    Unknown,
}

/// The number of a key code, which also indexes the per-key tables of the driver.
pub open spec fn key_index(key: KeyCode) -> u8 {
    match key {
        KeyCode::Escape => 0x00,
        KeyCode::F1 => 0x01,
        KeyCode::F2 => 0x02,
        KeyCode::F3 => 0x03,
        KeyCode::F4 => 0x04,
        KeyCode::F5 => 0x05,
        KeyCode::F6 => 0x06,
        KeyCode::F7 => 0x07,
        KeyCode::F8 => 0x08,
        KeyCode::F9 => 0x09,
        KeyCode::F10 => 0x0A,
        KeyCode::F11 => 0x0B,
        KeyCode::F12 => 0x0C,
        KeyCode::PrintScrn => 0x0D,
        KeyCode::ScrollLock => 0x0E,
        KeyCode::Break => 0x0F,
        KeyCode::Backtick => 0x20,
        KeyCode::Digit1 => 0x21,
        KeyCode::Digit2 => 0x22,
        KeyCode::Digit3 => 0x23,
        KeyCode::Digit4 => 0x24,
        KeyCode::Digit5 => 0x25,
        KeyCode::Digit6 => 0x26,
        KeyCode::Digit7 => 0x27,
        KeyCode::Digit8 => 0x28,
        KeyCode::Digit9 => 0x29,
        KeyCode::Digit0 => 0x2A,
        KeyCode::Minus => 0x2B,
        KeyCode::Equal => 0x2C,
        KeyCode::Backspace => 0x2D,
        KeyCode::Insert => 0x2E,
        KeyCode::Home => 0x2F,
        KeyCode::PageUp => 0x30,
        KeyCode::NumLock => 0x31,
        KeyCode::NumpadDivide => 0x32,
        KeyCode::NumpadMultiply => 0x33,
        KeyCode::NumpadSubtract => 0x34,
        KeyCode::Tab => 0x40,
        KeyCode::Q => 0x41,
        KeyCode::W => 0x42,
        KeyCode::E => 0x43,
        KeyCode::R => 0x44,
        KeyCode::T => 0x45,
        KeyCode::Y => 0x46,
        KeyCode::U => 0x47,
        KeyCode::I => 0x48,
        KeyCode::O => 0x49,
        KeyCode::P => 0x4A,
        KeyCode::LBracket => 0x4B,
        KeyCode::RBracket => 0x4C,
        KeyCode::Enter => 0x4D,
        KeyCode::Delete => 0x4E,
        KeyCode::End => 0x4F,
        KeyCode::PageDown => 0x50,
        KeyCode::Numpad7 => 0x51,
        KeyCode::Numpad8 => 0x52,
        KeyCode::Numpad9 => 0x53,
        KeyCode::NumpadAdd => 0x54,
        KeyCode::CapsLock => 0x60,
        KeyCode::A => 0x61,
        KeyCode::S => 0x62,
        KeyCode::D => 0x63,
        KeyCode::F => 0x64,
        KeyCode::G => 0x65,
        KeyCode::H => 0x66,
        KeyCode::J => 0x67,
        KeyCode::K => 0x68,
        KeyCode::L => 0x69,
        KeyCode::Semicolon => 0x6A,
        KeyCode::Quote => 0x6B,
        KeyCode::Backslash => 0x6C,
        KeyCode::Numpad4 => 0x6D,
        KeyCode::Numpad5 => 0x6E,
        KeyCode::Numpad6 => 0x6F,
        KeyCode::LShift => 0x80,
        KeyCode::Pipe => 0x81,
        KeyCode::Z => 0x82,
        KeyCode::X => 0x83,
        KeyCode::C => 0x84,
        KeyCode::V => 0x85,
        KeyCode::B => 0x86,
        KeyCode::N => 0x87,
        KeyCode::M => 0x88,
        KeyCode::Comma => 0x89,
        KeyCode::Period => 0x8A,
        KeyCode::Slash => 0x8B,
        KeyCode::RShift => 0x8C,
        KeyCode::Up => 0x8D,
        KeyCode::Numpad1 => 0x8E,
        KeyCode::Numpad2 => 0x8F,
        KeyCode::Numpad3 => 0x90,
        KeyCode::NumpadEnter => 0x91,
        KeyCode::LControl => 0xA0,
        KeyCode::LMeta => 0xA1,
        KeyCode::LAlt => 0xA2,
        KeyCode::Space => 0xA3,
        KeyCode::RAlt => 0xA4,
        KeyCode::RMeta => 0xA5,
        KeyCode::Menu => 0xA6,
        KeyCode::RControl => 0xA7,
        KeyCode::Left => 0xA8,
        KeyCode::Down => 0xA9,
        KeyCode::Right => 0xAA,
        KeyCode::Numpad0 => 0xAB,
        KeyCode::NumpadDecimal => 0xAC,
        KeyCode::Unknown => 0xFF,
    }
}

impl KeyCode {
    /// The number of this key code (its place in the per-key tables).
    pub fn index(self) -> (ret: usize)
        ensures
            ret == key_index(self),
    {
        match self {
            KeyCode::Escape => 0x00,
            KeyCode::F1 => 0x01,
            KeyCode::F2 => 0x02,
            KeyCode::F3 => 0x03,
            KeyCode::F4 => 0x04,
            KeyCode::F5 => 0x05,
            KeyCode::F6 => 0x06,
            KeyCode::F7 => 0x07,
            KeyCode::F8 => 0x08,
            KeyCode::F9 => 0x09,
            KeyCode::F10 => 0x0A,
            KeyCode::F11 => 0x0B,
            KeyCode::F12 => 0x0C,
            KeyCode::PrintScrn => 0x0D,
            KeyCode::ScrollLock => 0x0E,
            KeyCode::Break => 0x0F,
            KeyCode::Backtick => 0x20,
            KeyCode::Digit1 => 0x21,
            KeyCode::Digit2 => 0x22,
            KeyCode::Digit3 => 0x23,
            KeyCode::Digit4 => 0x24,
            KeyCode::Digit5 => 0x25,
            KeyCode::Digit6 => 0x26,
            KeyCode::Digit7 => 0x27,
            KeyCode::Digit8 => 0x28,
            KeyCode::Digit9 => 0x29,
            KeyCode::Digit0 => 0x2A,
            KeyCode::Minus => 0x2B,
            KeyCode::Equal => 0x2C,
            KeyCode::Backspace => 0x2D,
            KeyCode::Insert => 0x2E,
            KeyCode::Home => 0x2F,
            KeyCode::PageUp => 0x30,
            KeyCode::NumLock => 0x31,
            KeyCode::NumpadDivide => 0x32,
            KeyCode::NumpadMultiply => 0x33,
            KeyCode::NumpadSubtract => 0x34,
            KeyCode::Tab => 0x40,
            KeyCode::Q => 0x41,
            KeyCode::W => 0x42,
            KeyCode::E => 0x43,
            KeyCode::R => 0x44,
            KeyCode::T => 0x45,
            KeyCode::Y => 0x46,
            KeyCode::U => 0x47,
            KeyCode::I => 0x48,
            KeyCode::O => 0x49,
            KeyCode::P => 0x4A,
            KeyCode::LBracket => 0x4B,
            KeyCode::RBracket => 0x4C,
            KeyCode::Enter => 0x4D,
            KeyCode::Delete => 0x4E,
            KeyCode::End => 0x4F,
            KeyCode::PageDown => 0x50,
            KeyCode::Numpad7 => 0x51,
            KeyCode::Numpad8 => 0x52,
            KeyCode::Numpad9 => 0x53,
            KeyCode::NumpadAdd => 0x54,
            KeyCode::CapsLock => 0x60,
            KeyCode::A => 0x61,
            KeyCode::S => 0x62,
            KeyCode::D => 0x63,
            KeyCode::F => 0x64,
            KeyCode::G => 0x65,
            KeyCode::H => 0x66,
            KeyCode::J => 0x67,
            KeyCode::K => 0x68,
            KeyCode::L => 0x69,
            KeyCode::Semicolon => 0x6A,
            KeyCode::Quote => 0x6B,
            KeyCode::Backslash => 0x6C,
            KeyCode::Numpad4 => 0x6D,
            KeyCode::Numpad5 => 0x6E,
            KeyCode::Numpad6 => 0x6F,
            KeyCode::LShift => 0x80,
            KeyCode::Pipe => 0x81,
            KeyCode::Z => 0x82,
            KeyCode::X => 0x83,
            KeyCode::C => 0x84,
            KeyCode::V => 0x85,
            KeyCode::B => 0x86,
            KeyCode::N => 0x87,
            KeyCode::M => 0x88,
            KeyCode::Comma => 0x89,
            KeyCode::Period => 0x8A,
            KeyCode::Slash => 0x8B,
            KeyCode::RShift => 0x8C,
            KeyCode::Up => 0x8D,
            KeyCode::Numpad1 => 0x8E,
            KeyCode::Numpad2 => 0x8F,
            KeyCode::Numpad3 => 0x90,
            KeyCode::NumpadEnter => 0x91,
            KeyCode::LControl => 0xA0,
            KeyCode::LMeta => 0xA1,
            KeyCode::LAlt => 0xA2,
            KeyCode::Space => 0xA3,
            KeyCode::RAlt => 0xA4,
            KeyCode::RMeta => 0xA5,
            KeyCode::Menu => 0xA6,
            KeyCode::RControl => 0xA7,
            KeyCode::Left => 0xA8,
            KeyCode::Down => 0xA9,
            KeyCode::Right => 0xAA,
            KeyCode::Numpad0 => 0xAB,
            KeyCode::NumpadDecimal => 0xAC,
            KeyCode::Unknown => 0xFF,
        }
    }
}

/// The key that a one-byte make code of scan code set 2 stands for.
pub open spec fn single_byte_key(code: u8) -> KeyCode {
    match code {
        0x01 => KeyCode::F9,
        0x03 => KeyCode::F5,
        0x04 => KeyCode::F3,
        0x05 => KeyCode::F1,
        0x06 => KeyCode::F2,
        0x07 => KeyCode::F12,
        0x09 => KeyCode::F10,
        0x0A => KeyCode::F8,
        0x0B => KeyCode::F6,
        0x0C => KeyCode::F4,
        0x0D => KeyCode::Tab,
        0x0E => KeyCode::Backtick,
        0x11 => KeyCode::LAlt,
        0x12 => KeyCode::LShift,
        0x14 => KeyCode::LControl,
        0x15 => KeyCode::Q,
        0x16 => KeyCode::Digit1,
        0x1A => KeyCode::Z,
        0x1B => KeyCode::S,
        0x1C => KeyCode::A,
        0x1D => KeyCode::W,
        0x1E => KeyCode::Digit2,
        0x21 => KeyCode::C,
        0x22 => KeyCode::X,
        0x23 => KeyCode::D,
        0x24 => KeyCode::E,
        0x25 => KeyCode::Digit4,
        0x26 => KeyCode::Digit3,
        0x29 => KeyCode::Space,
        0x2A => KeyCode::V,
        0x2B => KeyCode::F,
        0x2C => KeyCode::T,
        0x2D => KeyCode::R,
        0x2E => KeyCode::Digit5,
        0x31 => KeyCode::N,
        0x32 => KeyCode::B,
        0x33 => KeyCode::H,
        0x34 => KeyCode::G,
        0x35 => KeyCode::Y,
        0x36 => KeyCode::Digit6,
        0x3A => KeyCode::M,
        0x3B => KeyCode::J,
        0x3C => KeyCode::U,
        0x3D => KeyCode::Digit7,
        0x3E => KeyCode::Digit8,
        0x41 => KeyCode::Comma,
        0x42 => KeyCode::K,
        0x43 => KeyCode::I,
        0x44 => KeyCode::O,
        0x45 => KeyCode::Digit0,
        0x46 => KeyCode::Digit9,
        0x49 => KeyCode::Period,
        0x4A => KeyCode::Slash,
        0x4B => KeyCode::L,
        0x4C => KeyCode::Semicolon,
        0x4D => KeyCode::P,
        0x4E => KeyCode::Minus,
        0x52 => KeyCode::Quote,
        0x54 => KeyCode::LBracket,
        0x55 => KeyCode::Equal,
        0x58 => KeyCode::CapsLock,
        0x59 => KeyCode::RShift,
        0x5A => KeyCode::Enter,
        0x5B => KeyCode::RBracket,
        0x5D => KeyCode::Backslash,
        0x61 => KeyCode::Pipe,
        0x66 => KeyCode::Backspace,
        0x76 => KeyCode::Escape,
        0x78 => KeyCode::F11,
        0x83 => KeyCode::F7,
        _ => KeyCode::Unknown,
    }
}

/// The key that an `0xE0`-prefixed make code of scan code set 2 stands for.
pub open spec fn extended_key(code: u8) -> KeyCode {
    match code {
        0x11 => KeyCode::RAlt,
        0x14 => KeyCode::RControl,
        0x1F => KeyCode::LMeta,
        0x6B => KeyCode::Left,
        0x6C => KeyCode::Home,
        0x69 => KeyCode::End,
        0x70 => KeyCode::Insert,
        0x71 => KeyCode::Delete,
        0x72 => KeyCode::Down,
        0x74 => KeyCode::Right,
        0x75 => KeyCode::Up,
        0x7A => KeyCode::PageDown,
        0x7D => KeyCode::PageUp,
        _ => KeyCode::Unknown,
    }
}

/// Whether a key went down, repeats while held, or went up.
#[derive(Clone, Copy, PartialEq, Eq, Structural)]
pub enum KeyState {
    Pressed,
    Held,
    Released,
}

/// The modifier keys that were down when a key event happened.
#[derive(Clone, Copy)]
pub struct Modifiers {
    pub shift: bool,
    pub alt: bool,
    pub control: bool,
    pub meta: bool,
    pub altgr: bool,
}

/// One key event: which key, what happened to it, the modifiers, and the character it types.
#[derive(Clone, Copy)]
pub struct KeyEvent {
    pub key_code: KeyCode,
    pub key_state: KeyState,
    pub modifiers: Modifiers,
    pub char: Option<char>,
}

/// What a modifier filter asks of one modifier key.
#[derive(Clone, Copy)]
pub enum Filter {
    Pressed,
    Released,
    DontCare,
}

impl Filter {
    pub open spec fn accepts(self, modifier: bool) -> bool {
        match self {
            Filter::Pressed => modifier,
            Filter::Released => !modifier,
            Filter::DontCare => true,
        }
    }

    /// Whether the modifier's state satisfies this filter.
    pub fn matches(&self, modifier: bool) -> (ret: bool)
        ensures
            ret == self.accepts(modifier),
    {
        match self {
            Filter::Pressed => modifier,
            Filter::Released => !modifier,
            Filter::DontCare => true,
        }
    }
}

/// The modifier combination under which a layout entry applies.
#[derive(Clone, Copy)]
pub struct ModifierFilter {
    pub shift: Filter,
    pub control: Filter,
    pub alt: Filter,
    pub altgr: Filter,
    pub meta: Filter,
}

/// The filter that asks for no modifier at all.
pub open spec fn no_modifiers() -> ModifierFilter {
    ModifierFilter {
        shift: Filter::Released,
        control: Filter::Released,
        alt: Filter::Released,
        altgr: Filter::Released,
        meta: Filter::Released,
    }
}

/// The filter that asks for shift and no other modifier.
pub open spec fn shift_only() -> ModifierFilter {
    ModifierFilter { shift: Filter::Pressed, ..no_modifiers() }
}

impl ModifierFilter {
    pub open spec fn accepts(self, modifiers: Modifiers) -> bool {
        &&& self.shift.accepts(modifiers.shift)
        &&& self.control.accepts(modifiers.control)
        &&& self.alt.accepts(modifiers.alt)
        &&& self.altgr.accepts(modifiers.altgr)
        &&& self.meta.accepts(modifiers.meta)
    }

    /// A filter that asks every modifier to be released.
    pub fn new() -> (ret: Self)
        ensures
            ret == no_modifiers(),
    {
        ModifierFilter {
            shift: Filter::Released,
            control: Filter::Released,
            alt: Filter::Released,
            altgr: Filter::Released,
            meta: Filter::Released,
        }
    }

    /// This filter, asking in addition for shift to be pressed.
    pub fn shift(self) -> (ret: Self)
        ensures
            ret == (ModifierFilter { shift: Filter::Pressed, ..self }),
    {
        ModifierFilter { shift: Filter::Pressed, ..self }
    }

    /// This filter, asking in addition for control to be pressed.
    pub fn control(self) -> (ret: Self)
        ensures
            ret == (ModifierFilter { control: Filter::Pressed, ..self }),
    {
        ModifierFilter { control: Filter::Pressed, ..self }
    }

    /// This filter, asking in addition for alt to be pressed.
    pub fn alt(self) -> (ret: Self)
        ensures
            ret == (ModifierFilter { alt: Filter::Pressed, ..self }),
    {
        ModifierFilter { alt: Filter::Pressed, ..self }
    }

    /// This filter, asking in addition for altgr to be pressed.
    pub fn altgr(self) -> (ret: Self)
        ensures
            ret == (ModifierFilter { altgr: Filter::Pressed, ..self }),
    {
        ModifierFilter { altgr: Filter::Pressed, ..self }
    }

    /// This filter, asking in addition for meta to be pressed.
    pub fn meta(self) -> (ret: Self)
        ensures
            ret == (ModifierFilter { meta: Filter::Pressed, ..self }),
    {
        ModifierFilter { meta: Filter::Pressed, ..self }
    }

    /// The filter of the layout's shifted characters.
    pub fn shift_filter() -> (ret: Self)
        ensures
            ret == shift_only(),
    {
        Self::new().shift()
    }

    /// The filter of the layout's altgr characters: shift held, the other modifiers
    /// ignored (the same filter as `shift_filter`).
    pub fn altgr_filter() -> (ret: Self)
        ensures
            ret == shift_only(),
    {
        Self::new().shift()
    }

    /// Whether every modifier satisfies its part of the filter.
    pub fn matches(&self, modifiers: Modifiers) -> (ret: bool)
        ensures
            ret == self.accepts(modifiers),
    {
        self.shift.matches(modifiers.shift) && self.control.matches(modifiers.control)
            && self.alt.matches(modifiers.alt) && self.altgr.matches(modifiers.altgr)
            && self.meta.matches(modifiers.meta)
    }
}

/// One layout entry: under this modifier filter, the key types this character.
#[derive(Clone, Copy)]
pub struct Transformation {
    pub modifier_filter: ModifierFilter,
    pub result: char,
}

impl Transformation {
    pub fn new(modifier_filter: ModifierFilter, result: char) -> (ret: Self)
        ensures
            ret == (Transformation { modifier_filter, result }),
    {
        Transformation { modifier_filter, result }
    }
}

/// The character that the first slot whose filter accepts the modifiers gives.
pub open spec fn transform_slots(slots: Seq<Option<Transformation>>, modifiers: Modifiers) -> Option<char>
    decreases slots.len(),
{
    if slots.len() == 0 {
        None
    } else {
        match slots[0] {
            Some(t) => if t.modifier_filter.accepts(modifiers) {
                Some(t.result)
            } else {
                transform_slots(slots.drop_first(), modifiers)
            },
            None => transform_slots(slots.drop_first(), modifiers),
        }
    }
}

/// The first empty slot of key number `key`, or `4` when all four are taken.
pub open spec fn first_free_slot(slots: Seq<Option<Transformation>>, key: int) -> int {
    if slots[key * 4] is None {
        0
    } else if slots[key * 4 + 1] is None {
        1
    } else if slots[key * 4 + 2] is None {
        2
    } else if slots[key * 4 + 3] is None {
        3
    } else {
        4
    }
}

/// The four slots of key number `key`.
pub open spec fn key_slots(slots: Seq<Option<Transformation>>, key: int) -> Seq<Option<Transformation>> {
    slots.subrange(key * 4, key * 4 + 4)
}

/// The slots that a list of at most four entries fills, in order, the rest empty.
pub open spec fn filled_slots(entries: Seq<Transformation>) -> Seq<Option<Transformation>> {
    Seq::new(4, |j: int| if j < entries.len() { Some(entries[j]) } else { None })
}

/// An entry typed without modifiers.
pub open spec fn plain(c: char) -> Transformation {
    Transformation { modifier_filter: no_modifiers(), result: c }
}

/// An entry typed with shift.
pub open spec fn shifted(c: char) -> Transformation {
    Transformation { modifier_filter: shift_only(), result: c }
}

/// An entry of the altgr group of the layout (its filter asks for shift).
pub open spec fn altgr(c: char) -> Transformation {
    Transformation { modifier_filter: shift_only(), result: c }
}

/// The characters of the Swedish layout, per key, in the order in which they are tried.
pub open spec fn swedish_entries(key: KeyCode) -> Seq<Transformation> {
    match key {
        KeyCode::Backtick => seq![plain('\u{a7}'), shifted('\u{bd}')],
        KeyCode::Digit1 => seq![plain('1'), shifted('!'), altgr('@')],
        KeyCode::Digit2 => seq![plain('2'), shifted('"'), altgr('\u{a3}')],
        KeyCode::Digit3 => seq![plain('3'), shifted('#'), altgr('$')],
        KeyCode::Digit4 => seq![plain('4'), shifted('\u{a4}')],
        KeyCode::Digit5 => seq![plain('5'), shifted('%')],
        KeyCode::Digit6 => seq![plain('6'), shifted('&')],
        KeyCode::Digit7 => seq![plain('7'), shifted('/'), altgr('{')],
        KeyCode::Digit8 => seq![plain('8'), shifted('('), altgr('[')],
        KeyCode::Digit9 => seq![plain('9'), shifted(')'), altgr(']')],
        KeyCode::Digit0 => seq![plain('0'), shifted('='), altgr('}')],
        KeyCode::Minus => seq![plain('+'), shifted('?'), altgr('\\')],
        KeyCode::Equal => seq![plain('\u{b4}'), shifted('`')],
        KeyCode::Q => seq![plain('q'), shifted('Q')],
        KeyCode::W => seq![plain('w'), shifted('W')],
        KeyCode::E => seq![plain('e'), shifted('E'), altgr('\u{20ac}')],
        KeyCode::R => seq![plain('r'), shifted('R')],
        KeyCode::T => seq![plain('t'), shifted('T')],
        KeyCode::Y => seq![plain('y'), shifted('Y')],
        KeyCode::U => seq![plain('u'), shifted('U')],
        KeyCode::I => seq![plain('i'), shifted('I')],
        KeyCode::O => seq![plain('o'), shifted('O')],
        KeyCode::P => seq![plain('p'), shifted('P')],
        KeyCode::LBracket => seq![plain('\u{e5}'), shifted('\u{c5}')],
        KeyCode::RBracket => seq![plain('\u{a8}'), shifted('^'), altgr('~')],
        KeyCode::A => seq![plain('a'), shifted('A')],
        KeyCode::S => seq![plain('s'), shifted('S')],
        KeyCode::D => seq![plain('d'), shifted('D')],
        KeyCode::F => seq![plain('f'), shifted('F')],
        KeyCode::G => seq![plain('g'), shifted('G')],
        KeyCode::H => seq![plain('h'), shifted('H')],
        KeyCode::J => seq![plain('j'), shifted('J')],
        KeyCode::K => seq![plain('k'), shifted('K')],
        KeyCode::L => seq![plain('l'), shifted('L')],
        KeyCode::Semicolon => seq![plain('\u{f6}'), shifted('\u{d6}')],
        KeyCode::Quote => seq![plain('\u{e4}'), shifted('\u{c4}')],
        KeyCode::Backslash => seq![plain('\''), shifted('*')],
        KeyCode::Pipe => seq![plain('<'), shifted('>'), altgr('|')],
        KeyCode::Z => seq![plain('z'), shifted('Z')],
        KeyCode::X => seq![plain('x'), shifted('X')],
        KeyCode::C => seq![plain('c'), shifted('C')],
        KeyCode::V => seq![plain('v'), shifted('V')],
        KeyCode::B => seq![plain('b'), shifted('B')],
        KeyCode::N => seq![plain('n'), shifted('N')],
        KeyCode::M => seq![plain('m'), shifted('M')],
        KeyCode::Comma => seq![plain(','), shifted(';')],
        KeyCode::Period => seq![plain('.'), shifted(':')],
        KeyCode::Slash => seq![plain('-'), shifted('_')],
        KeyCode::Space => seq![plain(' ')],
        _ => seq![],
    }
}

/// A keyboard layout: for every key code four slots, tried in order.
pub struct KeyboardLayout {
    pub transformations: Vec<Option<Transformation>>,
}

impl KeyboardLayout {
    pub open spec fn wf(&self) -> bool {
        self.transformations@.len() == LAYOUT_SLOTS
    }

    pub open spec fn is_empty_layout(&self) -> bool {
        &&& self.wf()
        &&& forall|i: int| 0 <= i < LAYOUT_SLOTS ==> #[trigger] self.transformations@[i] is None
    }

    /// A layout in which no key types anything.
    pub fn empty() -> (ret: Self)
        ensures
            ret.is_empty_layout(),
    {
        let mut transformations: Vec<Option<Transformation>> = Vec::new();
        let mut i: usize = 0;
        while i < LAYOUT_SLOTS
            invariant
                i <= LAYOUT_SLOTS,
                transformations@.len() == i,
                forall|j: int| 0 <= j < i ==> #[trigger] transformations@[j] is None,
            decreases LAYOUT_SLOTS - i,
        {
            transformations.push(None);
            i = i + 1;
        }
        KeyboardLayout { transformations }
    }

    /// Puts an entry in the first free slot of the key; fails when its four slots are taken.
    pub fn add_transform(&mut self, keycode: KeyCode, modifier_filter: ModifierFilter, result: char) -> (ret: Result<(), ()>)
        requires
            old(self).wf(),
        ensures
            final(self).wf(),
            ret is Ok <==> first_free_slot(old(self).transformations@, key_index(keycode) as int) < 4,
            ret is Ok ==> final(self).transformations@ == old(self).transformations@.update(
                key_index(keycode) * 4 + first_free_slot(old(self).transformations@, key_index(keycode) as int),
                Some(Transformation { modifier_filter, result }),
            ),
            ret is Err ==> final(self).transformations@ == old(self).transformations@,
    {
        let base = keycode.index() * 4;
        let entry = Some(Transformation::new(modifier_filter, result));
        if self.transformations[base].is_none() {
            self.transformations.set(base, entry);
            return Ok(());
        }
        if self.transformations[base + 1].is_none() {
            self.transformations.set(base + 1, entry);
            return Ok(());
        }
        if self.transformations[base + 2].is_none() {
            self.transformations.set(base + 2, entry);
            return Ok(());
        }
        if self.transformations[base + 3].is_none() {
            self.transformations.set(base + 3, entry);
            return Ok(());
        }
        Err(())
    }

    /// The character of the first slot of the key whose filter accepts the modifiers.
    pub fn transform(&self, keycode: KeyCode, modifiers: Modifiers) -> (ret: Option<char>)
        requires
            self.wf(),
        ensures
            ret == transform_slots(key_slots(self.transformations@, key_index(keycode) as int), modifiers),
    {
        let base = keycode.index() * 4;
        let ghost slots = key_slots(self.transformations@, key_index(keycode) as int);
        assert(slots.subrange(0, 4) =~= slots);
        let mut j: usize = 0;
        while j < MAX_KEYCODE_TRANSFORMATION_COUNT
            invariant
                j <= 4,
                base == key_index(keycode) * 4,
                self.wf(),
                slots == key_slots(self.transformations@, key_index(keycode) as int),
                transform_slots(slots, modifiers) == transform_slots(slots.subrange(j as int, 4), modifiers),
            decreases 4 - j,
        {
            let ghost rest = slots.subrange(j as int, 4);
            assert(rest.drop_first() =~= slots.subrange(j + 1, 4));
            assert(rest[0] == self.transformations@[base + j]);
            match self.transformations[base + j] {
                Some(t) => {
                    if t.modifier_filter.matches(modifiers) {
                        return Some(t.result);
                    }
                },
                None => {},
            }
            j = j + 1;
        }
        assert(slots.subrange(4, 4).len() == 0);
        None
    }
}

/// Fills an empty layout with the Swedish layout: per key, the unmodified
/// character, the shifted one, and the one of the altgr group.
pub fn generate_swedish_layout(layout: &mut KeyboardLayout)
    requires
        old(layout).is_empty_layout(),
    ensures
        final(layout).wf(),
        forall|key: KeyCode| #[trigger] key_slots(final(layout).transformations@, key_index(key) as int)
            == filled_slots(swedish_entries(key)),
{
    let mut index: usize = 0;
    while index < KEY_TABLE_SIZE
        invariant
            index <= KEY_TABLE_SIZE,
            layout.wf(),
            forall|key: KeyCode| key_index(key) < index ==> #[trigger] key_slots(layout.transformations@, key_index(key) as int)
                == filled_slots(swedish_entries(key)),
            forall|x: int| index * 4 <= x < LAYOUT_SLOTS ==> #[trigger] layout.transformations@[x] is None,
        decreases KEY_TABLE_SIZE - index,
    {
        let ghost before = layout.transformations@;
        match key_with_index(index) {
            Some(key) => {
                let entries = swedish_entries_of(key);
                proof { lemma_swedish_entries_short(key); }
                let mut j: usize = 0;
                while j < entries.len()
                    invariant
                        j <= entries.len(),
                        entries.len() <= 3,
                        entries@ == swedish_entries(key),
                        key_index(key) == index,
                        forall|x: int| index * 4 <= x < LAYOUT_SLOTS ==> #[trigger] before[x] is None,
                        index < KEY_TABLE_SIZE,
                        layout.wf(),
                        before.len() == LAYOUT_SLOTS,
                        forall|x: int| 0 <= x < LAYOUT_SLOTS && (x < index * 4 || x >= index * 4 + 4)
                            ==> #[trigger] layout.transformations@[x] == before[x],
                        forall|k: int| 0 <= k < 4 ==> #[trigger] layout.transformations@[index * 4 + k]
                            == (if k < j { Some(entries@[k]) } else { None::<Transformation> }),
                    decreases entries.len() - j,
                {
                    let entry = entries[j];
                    assert(layout.transformations@[index * 4 + j] is None);
                    unwrap(layout.add_transform(key, entry.modifier_filter, entry.result));
                    j = j + 1;
                }
                assert forall|k: int| 0 <= k < 4 implies #[trigger] key_slots(layout.transformations@, index as int)[k]
                    == filled_slots(swedish_entries(key))[k] by {
                    assert(layout.transformations@[index * 4 + k] == (if k < j { Some(entries@[k]) } else { None::<Transformation> }));
                }
                assert(key_slots(layout.transformations@, index as int) =~= filled_slots(swedish_entries(key)));
                assert forall|x: int| (index + 1) * 4 <= x < LAYOUT_SLOTS implies #[trigger] layout.transformations@[x] is None by {
                    assert(layout.transformations@[x] == before[x]);
                }
            },
            None => {},
        }
        assert forall|key: KeyCode| key_index(key) < index + 1 implies #[trigger] key_slots(layout.transformations@, key_index(key) as int)
            == filled_slots(swedish_entries(key)) by {
            if key_index(key) < index {
                assert(key_slots(layout.transformations@, key_index(key) as int) =~= key_slots(before, key_index(key) as int));
            }
        }
        index = index + 1;
    }
}

/// Each key has at most three entries in the Swedish layout.
proof fn lemma_swedish_entries_short(key: KeyCode)
    ensures
        swedish_entries(key).len() <= 3,
{
}

/// The key code whose number is `index`, if there is one.
pub fn key_with_index(index: usize) -> (ret: Option<KeyCode>)
    ensures
        ret matches Some(k) ==> key_index(k) == index,
        ret matches Some(k) ==> forall|other: KeyCode| key_index(other) == index ==> other == k,
        ret is None ==> forall|other: KeyCode| key_index(other) != index,
{
    match index {
        0x00 => Some(KeyCode::Escape),
        0x01 => Some(KeyCode::F1),
        0x02 => Some(KeyCode::F2),
        0x03 => Some(KeyCode::F3),
        0x04 => Some(KeyCode::F4),
        0x05 => Some(KeyCode::F5),
        0x06 => Some(KeyCode::F6),
        0x07 => Some(KeyCode::F7),
        0x08 => Some(KeyCode::F8),
        0x09 => Some(KeyCode::F9),
        0x0A => Some(KeyCode::F10),
        0x0B => Some(KeyCode::F11),
        0x0C => Some(KeyCode::F12),
        0x0D => Some(KeyCode::PrintScrn),
        0x0E => Some(KeyCode::ScrollLock),
        0x0F => Some(KeyCode::Break),
        0x20 => Some(KeyCode::Backtick),
        0x21 => Some(KeyCode::Digit1),
        0x22 => Some(KeyCode::Digit2),
        0x23 => Some(KeyCode::Digit3),
        0x24 => Some(KeyCode::Digit4),
        0x25 => Some(KeyCode::Digit5),
        0x26 => Some(KeyCode::Digit6),
        0x27 => Some(KeyCode::Digit7),
        0x28 => Some(KeyCode::Digit8),
        0x29 => Some(KeyCode::Digit9),
        0x2A => Some(KeyCode::Digit0),
        0x2B => Some(KeyCode::Minus),
        0x2C => Some(KeyCode::Equal),
        0x2D => Some(KeyCode::Backspace),
        0x2E => Some(KeyCode::Insert),
        0x2F => Some(KeyCode::Home),
        0x30 => Some(KeyCode::PageUp),
        0x31 => Some(KeyCode::NumLock),
        0x32 => Some(KeyCode::NumpadDivide),
        0x33 => Some(KeyCode::NumpadMultiply),
        0x34 => Some(KeyCode::NumpadSubtract),
        0x40 => Some(KeyCode::Tab),
        0x41 => Some(KeyCode::Q),
        0x42 => Some(KeyCode::W),
        0x43 => Some(KeyCode::E),
        0x44 => Some(KeyCode::R),
        0x45 => Some(KeyCode::T),
        0x46 => Some(KeyCode::Y),
        0x47 => Some(KeyCode::U),
        0x48 => Some(KeyCode::I),
        0x49 => Some(KeyCode::O),
        0x4A => Some(KeyCode::P),
        0x4B => Some(KeyCode::LBracket),
        0x4C => Some(KeyCode::RBracket),
        0x4D => Some(KeyCode::Enter),
        0x4E => Some(KeyCode::Delete),
        0x4F => Some(KeyCode::End),
        0x50 => Some(KeyCode::PageDown),
        0x51 => Some(KeyCode::Numpad7),
        0x52 => Some(KeyCode::Numpad8),
        0x53 => Some(KeyCode::Numpad9),
        0x54 => Some(KeyCode::NumpadAdd),
        0x60 => Some(KeyCode::CapsLock),
        0x61 => Some(KeyCode::A),
        0x62 => Some(KeyCode::S),
        0x63 => Some(KeyCode::D),
        0x64 => Some(KeyCode::F),
        0x65 => Some(KeyCode::G),
        0x66 => Some(KeyCode::H),
        0x67 => Some(KeyCode::J),
        0x68 => Some(KeyCode::K),
        0x69 => Some(KeyCode::L),
        0x6A => Some(KeyCode::Semicolon),
        0x6B => Some(KeyCode::Quote),
        0x6C => Some(KeyCode::Backslash),
        0x6D => Some(KeyCode::Numpad4),
        0x6E => Some(KeyCode::Numpad5),
        0x6F => Some(KeyCode::Numpad6),
        0x80 => Some(KeyCode::LShift),
        0x81 => Some(KeyCode::Pipe),
        0x82 => Some(KeyCode::Z),
        0x83 => Some(KeyCode::X),
        0x84 => Some(KeyCode::C),
        0x85 => Some(KeyCode::V),
        0x86 => Some(KeyCode::B),
        0x87 => Some(KeyCode::N),
        0x88 => Some(KeyCode::M),
        0x89 => Some(KeyCode::Comma),
        0x8A => Some(KeyCode::Period),
        0x8B => Some(KeyCode::Slash),
        0x8C => Some(KeyCode::RShift),
        0x8D => Some(KeyCode::Up),
        0x8E => Some(KeyCode::Numpad1),
        0x8F => Some(KeyCode::Numpad2),
        0x90 => Some(KeyCode::Numpad3),
        0x91 => Some(KeyCode::NumpadEnter),
        0xA0 => Some(KeyCode::LControl),
        0xA1 => Some(KeyCode::LMeta),
        0xA2 => Some(KeyCode::LAlt),
        0xA3 => Some(KeyCode::Space),
        0xA4 => Some(KeyCode::RAlt),
        0xA5 => Some(KeyCode::RMeta),
        0xA6 => Some(KeyCode::Menu),
        0xA7 => Some(KeyCode::RControl),
        0xA8 => Some(KeyCode::Left),
        0xA9 => Some(KeyCode::Down),
        0xAA => Some(KeyCode::Right),
        0xAB => Some(KeyCode::Numpad0),
        0xAC => Some(KeyCode::NumpadDecimal),
        0xFF => Some(KeyCode::Unknown),
        _ => None,
    }
}

/// The Swedish layout's entries of one key, in the order in which they are tried.
fn swedish_entries_of(key: KeyCode) -> (ret: Vec<Transformation>)
    ensures
        ret@ == swedish_entries(key),
{
    let none = ModifierFilter::new();
    let shift = ModifierFilter::shift_filter();
    let altgr = ModifierFilter::altgr_filter();
    match key {
        KeyCode::Backtick => vec![Transformation::new(none, '\u{a7}'), Transformation::new(shift, '\u{bd}')],
        KeyCode::Digit1 => vec![Transformation::new(none, '1'), Transformation::new(shift, '!'), Transformation::new(altgr, '@')],
        KeyCode::Digit2 => vec![Transformation::new(none, '2'), Transformation::new(shift, '"'), Transformation::new(altgr, '\u{a3}')],
        KeyCode::Digit3 => vec![Transformation::new(none, '3'), Transformation::new(shift, '#'), Transformation::new(altgr, '$')],
        KeyCode::Digit4 => vec![Transformation::new(none, '4'), Transformation::new(shift, '\u{a4}')],
        KeyCode::Digit5 => vec![Transformation::new(none, '5'), Transformation::new(shift, '%')],
        KeyCode::Digit6 => vec![Transformation::new(none, '6'), Transformation::new(shift, '&')],
        KeyCode::Digit7 => vec![Transformation::new(none, '7'), Transformation::new(shift, '/'), Transformation::new(altgr, '{')],
        KeyCode::Digit8 => vec![Transformation::new(none, '8'), Transformation::new(shift, '('), Transformation::new(altgr, '[')],
        KeyCode::Digit9 => vec![Transformation::new(none, '9'), Transformation::new(shift, ')'), Transformation::new(altgr, ']')],
        KeyCode::Digit0 => vec![Transformation::new(none, '0'), Transformation::new(shift, '='), Transformation::new(altgr, '}')],
        KeyCode::Minus => vec![Transformation::new(none, '+'), Transformation::new(shift, '?'), Transformation::new(altgr, '\\')],
        KeyCode::Equal => vec![Transformation::new(none, '\u{b4}'), Transformation::new(shift, '`')],
        KeyCode::Q => vec![Transformation::new(none, 'q'), Transformation::new(shift, 'Q')],
        KeyCode::W => vec![Transformation::new(none, 'w'), Transformation::new(shift, 'W')],
        KeyCode::E => vec![Transformation::new(none, 'e'), Transformation::new(shift, 'E'), Transformation::new(altgr, '\u{20ac}')],
        KeyCode::R => vec![Transformation::new(none, 'r'), Transformation::new(shift, 'R')],
        KeyCode::T => vec![Transformation::new(none, 't'), Transformation::new(shift, 'T')],
        KeyCode::Y => vec![Transformation::new(none, 'y'), Transformation::new(shift, 'Y')],
        KeyCode::U => vec![Transformation::new(none, 'u'), Transformation::new(shift, 'U')],
        KeyCode::I => vec![Transformation::new(none, 'i'), Transformation::new(shift, 'I')],
        KeyCode::O => vec![Transformation::new(none, 'o'), Transformation::new(shift, 'O')],
        KeyCode::P => vec![Transformation::new(none, 'p'), Transformation::new(shift, 'P')],
        KeyCode::LBracket => vec![Transformation::new(none, '\u{e5}'), Transformation::new(shift, '\u{c5}')],
        KeyCode::RBracket => vec![Transformation::new(none, '\u{a8}'), Transformation::new(shift, '^'), Transformation::new(altgr, '~')],
        KeyCode::A => vec![Transformation::new(none, 'a'), Transformation::new(shift, 'A')],
        KeyCode::S => vec![Transformation::new(none, 's'), Transformation::new(shift, 'S')],
        KeyCode::D => vec![Transformation::new(none, 'd'), Transformation::new(shift, 'D')],
        KeyCode::F => vec![Transformation::new(none, 'f'), Transformation::new(shift, 'F')],
        KeyCode::G => vec![Transformation::new(none, 'g'), Transformation::new(shift, 'G')],
        KeyCode::H => vec![Transformation::new(none, 'h'), Transformation::new(shift, 'H')],
        KeyCode::J => vec![Transformation::new(none, 'j'), Transformation::new(shift, 'J')],
        KeyCode::K => vec![Transformation::new(none, 'k'), Transformation::new(shift, 'K')],
        KeyCode::L => vec![Transformation::new(none, 'l'), Transformation::new(shift, 'L')],
        KeyCode::Semicolon => vec![Transformation::new(none, '\u{f6}'), Transformation::new(shift, '\u{d6}')],
        KeyCode::Quote => vec![Transformation::new(none, '\u{e4}'), Transformation::new(shift, '\u{c4}')],
        KeyCode::Backslash => vec![Transformation::new(none, '\''), Transformation::new(shift, '*')],
        KeyCode::Pipe => vec![Transformation::new(none, '<'), Transformation::new(shift, '>'), Transformation::new(altgr, '|')],
        KeyCode::Z => vec![Transformation::new(none, 'z'), Transformation::new(shift, 'Z')],
        KeyCode::X => vec![Transformation::new(none, 'x'), Transformation::new(shift, 'X')],
        KeyCode::C => vec![Transformation::new(none, 'c'), Transformation::new(shift, 'C')],
        KeyCode::V => vec![Transformation::new(none, 'v'), Transformation::new(shift, 'V')],
        KeyCode::B => vec![Transformation::new(none, 'b'), Transformation::new(shift, 'B')],
        KeyCode::N => vec![Transformation::new(none, 'n'), Transformation::new(shift, 'N')],
        KeyCode::M => vec![Transformation::new(none, 'm'), Transformation::new(shift, 'M')],
        KeyCode::Comma => vec![Transformation::new(none, ','), Transformation::new(shift, ';')],
        KeyCode::Period => vec![Transformation::new(none, '.'), Transformation::new(shift, ':')],
        KeyCode::Slash => vec![Transformation::new(none, '-'), Transformation::new(shift, '_')],
        KeyCode::Space => vec![Transformation::new(none, ' ')],
        _ => Vec::new(),
    }
}


/// The key that a make code (the bytes of a scan code without the release prefix) stands for.
pub open spec fn scancode_key(code: Seq<u8>) -> KeyCode {
    if code.len() == 1 {
        single_byte_key(code[0])
    } else if code.len() == 2 && code[0] == 0xE0 {
        extended_key(code[1])
    } else {
        KeyCode::Unknown
    }
}

/// The print screen release sequence.
pub open spec fn print_screen_release() -> Seq<u8> {
    seq![0xE0u8, 0xF0, 0x7C, 0xE0, 0xF0, 0x12]
}

/// The print screen make code, as the release sequence reduces to it.
pub open spec fn print_screen_make() -> Seq<u8> {
    seq![0xE0u8, 0x12, 0xE0, 0x7C]
}

/// The pause sequence; pause has no release.
pub open spec fn pause_sequence() -> Seq<u8> {
    seq![0xE1u8, 0x14, 0x77, 0xE1, 0xF0, 0x14, 0xF0, 0x77]
}

/// Whether a complete scan code has one of the shapes that the driver decodes.
pub open spec fn scancode_recognized(code: Seq<u8>) -> bool {
    ||| code.len() == 1
    ||| code.len() == 2 && code[0] == 0xF0
    ||| code.len() == 2 && code[0] == 0xE0
    ||| code.len() == 3 && code[0] == 0xE0 && code[1] == 0xF0
    ||| code == print_screen_release()
    ||| code == pause_sequence()
}

/// Whether a recognized scan code reports a release.
pub open spec fn scancode_released(code: Seq<u8>) -> bool {
    if code.len() == 1 {
        false
    } else if code.len() == 2 && code[0] == 0xF0 {
        true
    } else if code.len() == 2 && code[0] == 0xE0 {
        false
    } else if code.len() == 3 && code[0] == 0xE0 && code[1] == 0xF0 {
        true
    } else {
        code == print_screen_release()
    }
}

/// The make code of a recognized scan code: the scan code without its release prefix.
pub open spec fn scancode_make_code(code: Seq<u8>) -> Seq<u8> {
    if code.len() == 1 {
        code
    } else if code.len() == 2 && code[0] == 0xF0 {
        seq![code[1]]
    } else if code.len() == 2 && code[0] == 0xE0 {
        code
    } else if code.len() == 3 && code[0] == 0xE0 && code[1] == 0xF0 {
        seq![0xE0u8, code[2]]
    } else if code == print_screen_release() {
        print_screen_make()
    } else {
        code
    }
}

/// The modifiers that the table of pressed keys shows.
pub open spec fn modifiers_of(pressed: Seq<bool>) -> Modifiers {
    Modifiers {
        shift: pressed[key_index(KeyCode::LShift) as int] || pressed[key_index(KeyCode::RShift) as int],
        alt: pressed[key_index(KeyCode::LAlt) as int],
        control: pressed[key_index(KeyCode::LControl) as int] || pressed[key_index(KeyCode::RControl) as int],
        meta: pressed[key_index(KeyCode::LMeta) as int] || pressed[key_index(KeyCode::RMeta) as int],
        altgr: pressed[key_index(KeyCode::RAlt) as int],
    }
}

/// The table of pressed keys after a complete scan code.
pub open spec fn pressed_after(code: Seq<u8>, pressed: Seq<bool>) -> Seq<bool> {
    pressed.update(key_index(scancode_key(scancode_make_code(code))) as int, !scancode_released(code))
}

/// The event that a complete scan code produces, given the keys pressed before it.
pub open spec fn scancode_event(code: Seq<u8>, pressed: Seq<bool>, slots: Seq<Option<Transformation>>) -> KeyEvent {
    let key = scancode_key(scancode_make_code(code));
    let released = scancode_released(code);
    let modifiers = modifiers_of(pressed_after(code, pressed));
    KeyEvent {
        key_code: key,
        key_state: if released {
            KeyState::Released
        } else if pressed[key_index(key) as int] {
            KeyState::Held
        } else {
            KeyState::Pressed
        },
        modifiers,
        char: if released {
            None
        } else {
            transform_slots(key_slots(slots, key_index(key) as int), modifiers)
        },
    }
}

/// What the driver is doing between bytes of a scan code.
#[derive(Clone, Copy, PartialEq, Eq, Structural)]
pub enum DriverState {
    Idle,
    WaitingForExtended(usize),
}

/// Whether, after the bytes already collected, this byte is one that a longer
/// sequence (print screen or pause) continues with instead of ending the code.
pub open spec fn continues_long_sequence(collected: Seq<u8>, message: u8) -> bool {
    ||| collected == seq![0xE0u8] && message == 0x12
    ||| collected == seq![0xE0u8, 0xF0] && message == 0x7C
    ||| collected == seq![0xE1u8] && message == 0x14
    ||| collected == seq![0xE1u8, 0x14] && message == 0x77
    ||| collected == seq![0xE1u8, 0x14, 0x77, 0xE1, 0xF0] && message == 0x14
}

/// The number of bytes collected before this message (the position where it is stored).
pub open spec fn collected_len(state: DriverState) -> int {
    match state {
        DriverState::Idle => 0,
        DriverState::WaitingForExtended(s) => s as int,
    }
}

/// Whether this message completes a scan code (and so produces an event).
pub open spec fn message_completes(state: DriverState, buffer: Seq<u8>, message: u8) -> bool {
    match state {
        DriverState::Idle => message < 0xA0,
        DriverState::WaitingForExtended(s) => message < 0xA0 && !continues_long_sequence(buffer.subrange(0, s as int), message),
    }
}

/// The scan code buffer after this message.
pub open spec fn buffer_after(state: DriverState, buffer: Seq<u8>, message: u8) -> Seq<u8> {
    buffer.update(collected_len(state), message)
}

/// The driver state after this message.
pub open spec fn state_after(state: DriverState, buffer: Seq<u8>, message: u8) -> DriverState {
    if message_completes(state, buffer, message) {
        DriverState::Idle
    } else {
        DriverState::WaitingForExtended((collected_len(state) + 1) as usize)
    }
}

/// Whether the driver can take this message: the scan code buffer has room for it, and a
/// scan code that it completes has a shape the driver decodes.
pub open spec fn message_accepted(state: DriverState, buffer: Seq<u8>, message: u8) -> bool {
    &&& collected_len(state) < SCANCODE_BUFFER_LEN
    &&& message_completes(state, buffer, message) ==> scancode_recognized(
        buffer_after(state, buffer, message).subrange(0, collected_len(state) + 1),
    )
}

/// The key that the next call of `get_key` hands out, and the events that stay queued.
/// Events are taken from the back of the queue; released events are dropped on the way.
pub open spec fn next_key(events: Seq<KeyEvent>) -> (Option<KeyEvent>, Seq<KeyEvent>)
    decreases events.len(),
{
    if events.len() == 0 {
        (None, events)
    } else if events.last().key_state != KeyState::Released {
        (Some(events.last()), events.drop_last())
    } else {
        next_key(events.drop_last())
    }
}

/// The PS/2 keyboard driver: it collects scan code set 2 bytes, decodes complete
/// scan codes into key events and queues them.
pub struct KeyboardDriver {
    keycode_buffer: Vec<u8>,
    keypress_buffer: Vec<KeyEvent>,
    driver_state: DriverState,
    key_state: Vec<bool>,
    active_layout: KeyboardLayout,
}

impl KeyboardDriver {
    /// The bytes of the scan code being collected (the buffer has eight).
    pub closed spec fn scancode_buffer(&self) -> Seq<u8> {
        self.keycode_buffer@
    }

    /// The queued key events, oldest first.
    pub closed spec fn events(&self) -> Seq<KeyEvent> {
        self.keypress_buffer@
    }

    /// Where the driver is in a scan code.
    pub closed spec fn state(&self) -> DriverState {
        self.driver_state
    }

    /// For every key number, whether the key is down.
    pub closed spec fn pressed(&self) -> Seq<bool> {
        self.key_state@
    }

    /// The slots of the active layout.
    pub closed spec fn layout(&self) -> Seq<Option<Transformation>> {
        self.active_layout.transformations@
    }

    /// The driver's invariant.
    pub closed spec fn wf(&self) -> bool {
        &&& self.keycode_buffer@.len() == SCANCODE_BUFFER_LEN
        &&& self.key_state@.len() == KEY_TABLE_SIZE
        &&& self.active_layout.wf()
        &&& match self.driver_state {
            DriverState::Idle => true,
            DriverState::WaitingForExtended(s) => 1 <= s <= SCANCODE_BUFFER_LEN,
        }
    }

    /// A driver with nothing collected, no key down, no event queued and the Swedish layout.
    pub fn new() -> (ret: Self)
        ensures
            ret.wf(),
            ret.scancode_buffer() == Seq::new(8, |i: int| 0u8),
            ret.events() == Seq::<KeyEvent>::empty(),
            ret.state() == DriverState::Idle,
            ret.pressed() == Seq::new(256, |i: int| false),
            forall|key: KeyCode| #[trigger] key_slots(ret.layout(), key_index(key) as int)
                == filled_slots(swedish_entries(key)),
    {
        let mut keycode_buffer: Vec<u8> = Vec::new();
        let mut i: usize = 0;
        while i < SCANCODE_BUFFER_LEN
            invariant
                i <= SCANCODE_BUFFER_LEN,
                keycode_buffer@ == Seq::new(i as nat, |k: int| 0u8),
            decreases SCANCODE_BUFFER_LEN - i,
        {
            keycode_buffer.push(0);
            i = i + 1;
        }
        let mut key_state: Vec<bool> = Vec::new();
        let mut i: usize = 0;
        while i < KEY_TABLE_SIZE
            invariant
                i <= KEY_TABLE_SIZE,
                key_state@ == Seq::new(i as nat, |k: int| false),
            decreases KEY_TABLE_SIZE - i,
        {
            key_state.push(false);
            i = i + 1;
        }
        let mut active_layout = KeyboardLayout::empty();
        generate_swedish_layout(&mut active_layout);
        KeyboardDriver {
            keycode_buffer,
            keypress_buffer: Vec::new(),
            driver_state: DriverState::Idle,
            key_state,
            active_layout,
        }
    }

    /// Whether `handle_message` can take this byte now (see `message_accepted`).
    pub fn accepts(&self, message: u8) -> (ret: bool)
        requires
            self.wf(),
        ensures
            ret == message_accepted(self.state(), self.scancode_buffer(), message),
    {
        let s = match self.driver_state {
            DriverState::Idle => 0,
            DriverState::WaitingForExtended(s) => s,
        };
        if s >= SCANCODE_BUFFER_LEN {
            return false;
        }
        let completes = message < 0xA0 && !self.continues_long_sequence(s, message);
        if !completes {
            return true;
        }
        let mut code: Vec<u8> = Vec::new();
        let mut i: usize = 0;
        while i < s
            invariant
                i <= s,
                s < SCANCODE_BUFFER_LEN,
                self.wf(),
                code@ == self.keycode_buffer@.subrange(0, i as int),
            decreases s - i,
        {
            code.push(self.keycode_buffer[i]);
            i = i + 1;
        }
        code.push(message);
        assert(code@ =~= buffer_after(self.state(), self.scancode_buffer(), message).subrange(0, s + 1));
        scancode_recognized_exec(&code)
    }

    /// Whether the `s` collected bytes and this byte continue print screen or pause.
    fn continues_long_sequence(&self, s: usize, message: u8) -> (ret: bool)
        requires
            self.wf(),
            s < SCANCODE_BUFFER_LEN,
        ensures
            ret == continues_long_sequence(self.keycode_buffer@.subrange(0, s as int), message),
    {
        let b = &self.keycode_buffer;
        let ghost c = self.keycode_buffer@.subrange(0, s as int);
        proof {
            if s == 1 && b@[0] == 0xE0 { assert(c =~= seq![0xE0u8]); }
            if s == 2 && b@[0] == 0xE0 && b@[1] == 0xF0 { assert(c =~= seq![0xE0u8, 0xF0]); }
            if s == 1 && b@[0] == 0xE1 { assert(c =~= seq![0xE1u8]); }
            if s == 2 && b@[0] == 0xE1 && b@[1] == 0x14 { assert(c =~= seq![0xE1u8, 0x14]); }
            if s == 5 && b@[0] == 0xE1 && b@[1] == 0x14 && b@[2] == 0x77 && b@[3] == 0xE1 && b@[4] == 0xF0 {
                assert(c =~= seq![0xE1u8, 0x14, 0x77, 0xE1, 0xF0]);
            }
            let p1 = seq![0xE0u8];
            let p2 = seq![0xE0u8, 0xF0];
            let p3 = seq![0xE1u8];
            let p4 = seq![0xE1u8, 0x14];
            let p5 = seq![0xE1u8, 0x14, 0x77, 0xE1, 0xF0];
            assert(p1.len() == 1 && p1[0] == 0xE0);
            assert(p2.len() == 2 && p2[0] == 0xE0 && p2[1] == 0xF0);
            assert(p3.len() == 1 && p3[0] == 0xE1);
            assert(p4.len() == 2 && p4[0] == 0xE1 && p4[1] == 0x14);
            assert(p5.len() == 5 && p5[0] == 0xE1 && p5[1] == 0x14 && p5[2] == 0x77 && p5[3] == 0xE1 && p5[4] == 0xF0);
        }
        (s == 1 && b[0] == 0xE0 && message == 0x12)
            || (s == 2 && b[0] == 0xE0 && b[1] == 0xF0 && message == 0x7C)
            || (s == 1 && b[0] == 0xE1 && message == 0x14)
            || (s == 2 && b[0] == 0xE1 && b[1] == 0x14 && message == 0x77)
            || (s == 5 && b[0] == 0xE1 && b[1] == 0x14 && b[2] == 0x77 && b[3] == 0xE1 && b[4] == 0xF0
                && message == 0x14)
    }

    /// Takes one byte from the keyboard. A byte that ends a scan code queues the
    /// event that the scan code stands for; other bytes are collected.
    pub fn handle_message(&mut self, message: u8)
        requires
            old(self).wf(),
            message_accepted(old(self).state(), old(self).scancode_buffer(), message),
        ensures
            final(self).wf(),
            final(self).scancode_buffer() == buffer_after(old(self).state(), old(self).scancode_buffer(), message),
            final(self).state() == state_after(old(self).state(), old(self).scancode_buffer(), message),
            final(self).layout() == old(self).layout(),
            message_completes(old(self).state(), old(self).scancode_buffer(), message) ==> {
                let code = final(self).scancode_buffer().subrange(0, collected_len(old(self).state()) + 1);
                &&& final(self).events() == old(self).events().push(
                    scancode_event(code, old(self).pressed(), old(self).layout()))
                &&& final(self).pressed() == pressed_after(code, old(self).pressed())
            },
            !message_completes(old(self).state(), old(self).scancode_buffer(), message) ==> {
                &&& final(self).events() == old(self).events()
                &&& final(self).pressed() == old(self).pressed()
            },
    {
        match self.driver_state {
            DriverState::Idle => {
                self.keycode_buffer.set(0, message);
                if message >= 0xA0 {
                    self.driver_state = DriverState::WaitingForExtended(1);
                } else {
                    let key_press = self.handle_scancode(1);
                    self.keypress_buffer.push(key_press);
                }
            },
            DriverState::WaitingForExtended(s) => {
                if message < 0xA0 {
                    if self.continues_long_sequence(s, message) {
                        self.keycode_buffer.set(s, message);
                        self.driver_state = DriverState::WaitingForExtended(s + 1);
                    } else {
                        self.keycode_buffer.set(s, message);
                        let key_press = self.handle_scancode(s + 1);
                        self.keypress_buffer.push(key_press);
                        self.driver_state = DriverState::Idle;
                    }
                } else {
                    self.keycode_buffer.set(s, message);
                    self.driver_state = DriverState::WaitingForExtended(s + 1);
                }
            },
        }
    }

    /// Decodes the first `len` collected bytes, records the key as down or up and
    /// returns the event.
    fn handle_scancode(&mut self, len: usize) -> (ret: KeyEvent)
        requires
            old(self).wf(),
            1 <= len <= SCANCODE_BUFFER_LEN,
            scancode_recognized(old(self).keycode_buffer@.subrange(0, len as int)),
        ensures
            final(self).wf(),
            final(self).keycode_buffer@ == old(self).keycode_buffer@,
            final(self).keypress_buffer@ == old(self).keypress_buffer@,
            final(self).driver_state == old(self).driver_state,
            final(self).active_layout == old(self).active_layout,
            ret == scancode_event(old(self).keycode_buffer@.subrange(0, len as int), old(self).key_state@, old(self).layout()),
            final(self).key_state@ == pressed_after(old(self).keycode_buffer@.subrange(0, len as int), old(self).key_state@),
    {
        let ghost code = self.keycode_buffer@.subrange(0, len as int);
        let b = &self.keycode_buffer;
        let mut make: Vec<u8> = Vec::new();
        let released: bool;
        if len == 1 {
            make.push(b[0]);
            released = false;
        } else if len == 2 && b[0] == 0xF0 {
            make.push(b[1]);
            released = true;
        } else if len == 2 && b[0] == 0xE0 {
            make.push(b[0]);
            make.push(b[1]);
            released = false;
        } else if len == 3 && b[0] == 0xE0 && b[1] == 0xF0 {
            make.push(0xE0);
            make.push(b[2]);
            released = true;
        } else if len == 6 && b[0] == 0xE0 && b[1] == 0xF0 && b[2] == 0x7C && b[3] == 0xE0 && b[4] == 0xF0 && b[5] == 0x12 {
            assert(code =~= print_screen_release());
            make.push(0xE0);
            make.push(0x12);
            make.push(0xE0);
            make.push(0x7C);
            released = true;
        } else {
            proof {
                if code =~= print_screen_release() {
                    assert(code[0] == 0xE0 && code[5] == 0x12);
                }
                if code.len() == 3 && code[0] == 0xE0 && code[1] == 0xF0 {
                    assert(false);
                }
                assert(code =~= pause_sequence());
            }
            let mut i: usize = 0;
            while i < len
                invariant
                    i <= len,
                    len == 8,
                    b@.len() == 8,
                    make@ == b@.subrange(0, i as int),
                decreases len - i,
            {
                make.push(b[i]);
                i = i + 1;
            }
            released = false;
        }
        assert(make@ =~= scancode_make_code(code));
        assert(released == scancode_released(code));
        let keycode = self.translate_scancode(make.as_slice());
        let k = keycode.index();
        let state = if released {
            KeyState::Released
        } else if self.key_state[k] {
            KeyState::Held
        } else {
            KeyState::Pressed
        };
        self.key_state.set(k, !released);
        let shift = self.key_state[KeyCode::LShift.index()] || self.key_state[KeyCode::RShift.index()];
        let control = self.key_state[KeyCode::LControl.index()] || self.key_state[KeyCode::RControl.index()];
        let alt = self.key_state[KeyCode::LAlt.index()];
        let altgr = self.key_state[KeyCode::RAlt.index()];
        let meta = self.key_state[KeyCode::LMeta.index()] || self.key_state[KeyCode::RMeta.index()];
        let modifiers = Modifiers { shift, alt, altgr, control, meta };
        let char = if !released {
            self.active_layout.transform(keycode, modifiers)
        } else {
            None
        };
        KeyEvent { key_code: keycode, key_state: state, modifiers, char }
    }

    /// The key that a make code stands for; `Unknown` for codes without a key.
    fn translate_scancode(&self, codes: &[u8]) -> (ret: KeyCode)
        ensures
            ret == scancode_key(codes@),
    {
        if codes.len() == 1 {
            match codes[0] {
                0x01 => KeyCode::F9,
                0x03 => KeyCode::F5,
                0x04 => KeyCode::F3,
                0x05 => KeyCode::F1,
                0x06 => KeyCode::F2,
                0x07 => KeyCode::F12,
                0x09 => KeyCode::F10,
                0x0A => KeyCode::F8,
                0x0B => KeyCode::F6,
                0x0C => KeyCode::F4,
                0x0D => KeyCode::Tab,
                0x0E => KeyCode::Backtick,
                0x11 => KeyCode::LAlt,
                0x12 => KeyCode::LShift,
                0x14 => KeyCode::LControl,
                0x15 => KeyCode::Q,
                0x16 => KeyCode::Digit1,
                0x1A => KeyCode::Z,
                0x1B => KeyCode::S,
                0x1C => KeyCode::A,
                0x1D => KeyCode::W,
                0x1E => KeyCode::Digit2,
                0x21 => KeyCode::C,
                0x22 => KeyCode::X,
                0x23 => KeyCode::D,
                0x24 => KeyCode::E,
                0x25 => KeyCode::Digit4,
                0x26 => KeyCode::Digit3,
                0x29 => KeyCode::Space,
                0x2A => KeyCode::V,
                0x2B => KeyCode::F,
                0x2C => KeyCode::T,
                0x2D => KeyCode::R,
                0x2E => KeyCode::Digit5,
                0x31 => KeyCode::N,
                0x32 => KeyCode::B,
                0x33 => KeyCode::H,
                0x34 => KeyCode::G,
                0x35 => KeyCode::Y,
                0x36 => KeyCode::Digit6,
                0x3A => KeyCode::M,
                0x3B => KeyCode::J,
                0x3C => KeyCode::U,
                0x3D => KeyCode::Digit7,
                0x3E => KeyCode::Digit8,
                0x41 => KeyCode::Comma,
                0x42 => KeyCode::K,
                0x43 => KeyCode::I,
                0x44 => KeyCode::O,
                0x45 => KeyCode::Digit0,
                0x46 => KeyCode::Digit9,
                0x49 => KeyCode::Period,
                0x4A => KeyCode::Slash,
                0x4B => KeyCode::L,
                0x4C => KeyCode::Semicolon,
                0x4D => KeyCode::P,
                0x4E => KeyCode::Minus,
                0x52 => KeyCode::Quote,
                0x54 => KeyCode::LBracket,
                0x55 => KeyCode::Equal,
                0x58 => KeyCode::CapsLock,
                0x59 => KeyCode::RShift,
                0x5A => KeyCode::Enter,
                0x5B => KeyCode::RBracket,
                0x5D => KeyCode::Backslash,
                0x61 => KeyCode::Pipe,
                0x66 => KeyCode::Backspace,
                0x76 => KeyCode::Escape,
                0x78 => KeyCode::F11,
                0x83 => KeyCode::F7,
                _ => KeyCode::Unknown,
            }
        } else if codes.len() == 2 && codes[0] == 0xE0 {
            match codes[1] {
                0x11 => KeyCode::RAlt,
                0x14 => KeyCode::RControl,
                0x1F => KeyCode::LMeta,
                0x6B => KeyCode::Left,
                0x6C => KeyCode::Home,
                0x69 => KeyCode::End,
                0x70 => KeyCode::Insert,
                0x71 => KeyCode::Delete,
                0x72 => KeyCode::Down,
                0x74 => KeyCode::Right,
                0x75 => KeyCode::Up,
                0x7A => KeyCode::PageDown,
                0x7D => KeyCode::PageUp,
                _ => KeyCode::Unknown,
            }
        } else {
            KeyCode::Unknown
        }
    }
}

/// Whether a complete scan code has one of the shapes that the driver decodes.
fn scancode_recognized_exec(code: &Vec<u8>) -> (ret: bool)
    ensures
        ret == scancode_recognized(code@),
{
    let n = code.len();
    proof {
        assert(code@ =~= print_screen_release() <==> (n == 6 && code@[0] == 0xE0 && code@[1] == 0xF0
            && code@[2] == 0x7C && code@[3] == 0xE0 && code@[4] == 0xF0 && code@[5] == 0x12));
        assert(code@ =~= pause_sequence() <==> (n == 8 && code@[0] == 0xE1 && code@[1] == 0x14
            && code@[2] == 0x77 && code@[3] == 0xE1 && code@[4] == 0xF0 && code@[5] == 0x14
            && code@[6] == 0xF0 && code@[7] == 0x77));
    }
    n == 1 || (n == 2 && code[0] == 0xF0) || (n == 2 && code[0] == 0xE0)
        || (n == 3 && code[0] == 0xE0 && code[1] == 0xF0)
        || (n == 6 && code[0] == 0xE0 && code[1] == 0xF0 && code[2] == 0x7C && code[3] == 0xE0
            && code[4] == 0xF0 && code[5] == 0x12)
        || (n == 8 && code[0] == 0xE1 && code[1] == 0x14 && code[2] == 0x77 && code[3] == 0xE1
            && code[4] == 0xF0 && code[5] == 0x14 && code[6] == 0xF0 && code[7] == 0x77)
}

/// Hands out the next key that went down or repeats, taking it from the back of the queue;
/// release events that come first are dropped. `None` when the queue runs out.
pub fn get_key(driver: &mut KeyboardDriver) -> (ret: Option<KeyEvent>)
    requires
        old(driver).wf(),
    ensures
        final(driver).wf(),
        (ret, final(driver).events()) == next_key(old(driver).events()),
        ret matches Some(event) ==> event.key_state != KeyState::Released,
        final(driver).state() == old(driver).state(),
        final(driver).scancode_buffer() == old(driver).scancode_buffer(),
        final(driver).pressed() == old(driver).pressed(),
        final(driver).layout() == old(driver).layout(),
{
    loop
        invariant
            driver.wf(),
            next_key(driver.events()) == next_key(old(driver).events()),
            driver.state() == old(driver).state(),
            driver.scancode_buffer() == old(driver).scancode_buffer(),
            driver.pressed() == old(driver).pressed(),
            driver.layout() == old(driver).layout(),
        decreases driver.events().len(),
    {
        match driver.keypress_buffer.pop() {
            None => {
                return None;
            },
            Some(event) => {
                if event.key_state != KeyState::Released {
                    return Some(event);
                }
            },
        }
    }
}

/// Takes the value out of a result that must be `Ok`.
pub fn unwrap<T, E: core::fmt::Debug>(result: Result<T, E>) -> (ret: T)
    requires
        result is Ok,
    ensures
        result == Ok::<T, E>(ret),
{
    result.unwrap()
}


/// The one-byte make code `[b]`.
pub open spec fn one_byte_code(b: u8) -> Seq<u8> {
    seq![b]
}

/// The `0xE0`-prefixed make code `[0xE0, b]`.
pub open spec fn extended_code(b: u8) -> Seq<u8> {
    seq![0xE0u8, b]
}

/// Scan code set 2, as the standard table gives it: the key of each one-byte make code
/// and of each `0xE0`-prefixed one; every other code is an unknown key.
pub proof fn lemma_scan_code_set_2()
    ensures
        scancode_key(seq![0x01u8]) == KeyCode::F9,
        scancode_key(seq![0x03u8]) == KeyCode::F5,
        scancode_key(seq![0x04u8]) == KeyCode::F3,
        scancode_key(seq![0x05u8]) == KeyCode::F1,
        scancode_key(seq![0x06u8]) == KeyCode::F2,
        scancode_key(seq![0x07u8]) == KeyCode::F12,
        scancode_key(seq![0x09u8]) == KeyCode::F10,
        scancode_key(seq![0x0Au8]) == KeyCode::F8,
        scancode_key(seq![0x0Bu8]) == KeyCode::F6,
        scancode_key(seq![0x0Cu8]) == KeyCode::F4,
        scancode_key(seq![0x0Du8]) == KeyCode::Tab,
        scancode_key(seq![0x0Eu8]) == KeyCode::Backtick,
        scancode_key(seq![0x11u8]) == KeyCode::LAlt,
        scancode_key(seq![0x12u8]) == KeyCode::LShift,
        scancode_key(seq![0x14u8]) == KeyCode::LControl,
        scancode_key(seq![0x15u8]) == KeyCode::Q,
        scancode_key(seq![0x16u8]) == KeyCode::Digit1,
        scancode_key(seq![0x1Au8]) == KeyCode::Z,
        scancode_key(seq![0x1Bu8]) == KeyCode::S,
        scancode_key(seq![0x1Cu8]) == KeyCode::A,
        scancode_key(seq![0x1Du8]) == KeyCode::W,
        scancode_key(seq![0x1Eu8]) == KeyCode::Digit2,
        scancode_key(seq![0x21u8]) == KeyCode::C,
        scancode_key(seq![0x22u8]) == KeyCode::X,
        scancode_key(seq![0x23u8]) == KeyCode::D,
        scancode_key(seq![0x24u8]) == KeyCode::E,
        scancode_key(seq![0x25u8]) == KeyCode::Digit4,
        scancode_key(seq![0x26u8]) == KeyCode::Digit3,
        scancode_key(seq![0x29u8]) == KeyCode::Space,
        scancode_key(seq![0x2Au8]) == KeyCode::V,
        scancode_key(seq![0x2Bu8]) == KeyCode::F,
        scancode_key(seq![0x2Cu8]) == KeyCode::T,
        scancode_key(seq![0x2Du8]) == KeyCode::R,
        scancode_key(seq![0x2Eu8]) == KeyCode::Digit5,
        scancode_key(seq![0x31u8]) == KeyCode::N,
        scancode_key(seq![0x32u8]) == KeyCode::B,
        scancode_key(seq![0x33u8]) == KeyCode::H,
        scancode_key(seq![0x34u8]) == KeyCode::G,
        scancode_key(seq![0x35u8]) == KeyCode::Y,
        scancode_key(seq![0x36u8]) == KeyCode::Digit6,
        scancode_key(seq![0x3Au8]) == KeyCode::M,
        scancode_key(seq![0x3Bu8]) == KeyCode::J,
        scancode_key(seq![0x3Cu8]) == KeyCode::U,
        scancode_key(seq![0x3Du8]) == KeyCode::Digit7,
        scancode_key(seq![0x3Eu8]) == KeyCode::Digit8,
        scancode_key(seq![0x41u8]) == KeyCode::Comma,
        scancode_key(seq![0x42u8]) == KeyCode::K,
        scancode_key(seq![0x43u8]) == KeyCode::I,
        scancode_key(seq![0x44u8]) == KeyCode::O,
        scancode_key(seq![0x45u8]) == KeyCode::Digit0,
        scancode_key(seq![0x46u8]) == KeyCode::Digit9,
        scancode_key(seq![0x49u8]) == KeyCode::Period,
        scancode_key(seq![0x4Au8]) == KeyCode::Slash,
        scancode_key(seq![0x4Bu8]) == KeyCode::L,
        scancode_key(seq![0x4Cu8]) == KeyCode::Semicolon,
        scancode_key(seq![0x4Du8]) == KeyCode::P,
        scancode_key(seq![0x4Eu8]) == KeyCode::Minus,
        scancode_key(seq![0x52u8]) == KeyCode::Quote,
        scancode_key(seq![0x54u8]) == KeyCode::LBracket,
        scancode_key(seq![0x55u8]) == KeyCode::Equal,
        scancode_key(seq![0x58u8]) == KeyCode::CapsLock,
        scancode_key(seq![0x59u8]) == KeyCode::RShift,
        scancode_key(seq![0x5Au8]) == KeyCode::Enter,
        scancode_key(seq![0x5Bu8]) == KeyCode::RBracket,
        scancode_key(seq![0x5Du8]) == KeyCode::Backslash,
        scancode_key(seq![0x61u8]) == KeyCode::Pipe,
        scancode_key(seq![0x66u8]) == KeyCode::Backspace,
        scancode_key(seq![0x76u8]) == KeyCode::Escape,
        scancode_key(seq![0x78u8]) == KeyCode::F11,
        scancode_key(seq![0x83u8]) == KeyCode::F7,
        scancode_key(seq![0xE0u8, 0x11u8]) == KeyCode::RAlt,
        scancode_key(seq![0xE0u8, 0x14u8]) == KeyCode::RControl,
        scancode_key(seq![0xE0u8, 0x1Fu8]) == KeyCode::LMeta,
        scancode_key(seq![0xE0u8, 0x6Bu8]) == KeyCode::Left,
        scancode_key(seq![0xE0u8, 0x6Cu8]) == KeyCode::Home,
        scancode_key(seq![0xE0u8, 0x69u8]) == KeyCode::End,
        scancode_key(seq![0xE0u8, 0x70u8]) == KeyCode::Insert,
        scancode_key(seq![0xE0u8, 0x71u8]) == KeyCode::Delete,
        scancode_key(seq![0xE0u8, 0x72u8]) == KeyCode::Down,
        scancode_key(seq![0xE0u8, 0x74u8]) == KeyCode::Right,
        scancode_key(seq![0xE0u8, 0x75u8]) == KeyCode::Up,
        scancode_key(seq![0xE0u8, 0x7Au8]) == KeyCode::PageDown,
        scancode_key(seq![0xE0u8, 0x7Du8]) == KeyCode::PageUp,
        forall|b: u8| !(b == 0x01 || b == 0x03 || b == 0x04 || b == 0x05 || b == 0x06 || b == 0x07 || b == 0x09 || b == 0x0A || b == 0x0B || b == 0x0C || b == 0x0D || b == 0x0E || b == 0x11 || b == 0x12 || b == 0x14 || b == 0x15 || b == 0x16 || b == 0x1A || b == 0x1B || b == 0x1C || b == 0x1D || b == 0x1E || b == 0x21 || b == 0x22 || b == 0x23 || b == 0x24 || b == 0x25 || b == 0x26 || b == 0x29 || b == 0x2A || b == 0x2B || b == 0x2C || b == 0x2D || b == 0x2E || b == 0x31 || b == 0x32 || b == 0x33 || b == 0x34 || b == 0x35 || b == 0x36 || b == 0x3A || b == 0x3B || b == 0x3C || b == 0x3D || b == 0x3E || b == 0x41 || b == 0x42 || b == 0x43 || b == 0x44 || b == 0x45 || b == 0x46 || b == 0x49 || b == 0x4A || b == 0x4B || b == 0x4C || b == 0x4D || b == 0x4E || b == 0x52 || b == 0x54 || b == 0x55 || b == 0x58 || b == 0x59 || b == 0x5A || b == 0x5B || b == 0x5D || b == 0x61 || b == 0x66 || b == 0x76 || b == 0x78 || b == 0x83) ==> #[trigger] scancode_key(one_byte_code(b)) == KeyCode::Unknown,
        forall|b: u8| !(b == 0x11 || b == 0x14 || b == 0x1F || b == 0x6B || b == 0x6C || b == 0x69 || b == 0x70 || b == 0x71 || b == 0x72 || b == 0x74 || b == 0x75 || b == 0x7A || b == 0x7D) ==> #[trigger] scancode_key(extended_code(b)) == KeyCode::Unknown,
{
    assert forall|b: u8| !(b == 0x01 || b == 0x03 || b == 0x04 || b == 0x05 || b == 0x06 || b == 0x07 || b == 0x09 || b == 0x0A || b == 0x0B || b == 0x0C || b == 0x0D || b == 0x0E || b == 0x11 || b == 0x12 || b == 0x14 || b == 0x15 || b == 0x16 || b == 0x1A || b == 0x1B || b == 0x1C || b == 0x1D || b == 0x1E || b == 0x21 || b == 0x22 || b == 0x23 || b == 0x24 || b == 0x25 || b == 0x26 || b == 0x29 || b == 0x2A || b == 0x2B || b == 0x2C || b == 0x2D || b == 0x2E || b == 0x31 || b == 0x32 || b == 0x33 || b == 0x34 || b == 0x35 || b == 0x36 || b == 0x3A || b == 0x3B || b == 0x3C || b == 0x3D || b == 0x3E || b == 0x41 || b == 0x42 || b == 0x43 || b == 0x44 || b == 0x45 || b == 0x46 || b == 0x49 || b == 0x4A || b == 0x4B || b == 0x4C || b == 0x4D || b == 0x4E || b == 0x52 || b == 0x54 || b == 0x55 || b == 0x58 || b == 0x59 || b == 0x5A || b == 0x5B || b == 0x5D || b == 0x61 || b == 0x66 || b == 0x76 || b == 0x78 || b == 0x83) implies #[trigger] scancode_key(one_byte_code(b)) == KeyCode::Unknown by {
        assert(one_byte_code(b).len() == 1 && one_byte_code(b)[0] == b);
    }
    assert forall|b: u8| !(b == 0x11 || b == 0x14 || b == 0x1F || b == 0x6B || b == 0x6C || b == 0x69 || b == 0x70 || b == 0x71 || b == 0x72 || b == 0x74 || b == 0x75 || b == 0x7A || b == 0x7D) implies #[trigger] scancode_key(extended_code(b)) == KeyCode::Unknown by {
        assert(extended_code(b).len() == 2 && extended_code(b)[0] == 0xE0 && extended_code(b)[1] == b);
    }
    assert(seq![0x01u8].len() == 1 && seq![0x01u8][0] == 0x01u8);
    assert(seq![0x03u8].len() == 1 && seq![0x03u8][0] == 0x03u8);
    assert(seq![0x04u8].len() == 1 && seq![0x04u8][0] == 0x04u8);
    assert(seq![0x05u8].len() == 1 && seq![0x05u8][0] == 0x05u8);
    assert(seq![0x06u8].len() == 1 && seq![0x06u8][0] == 0x06u8);
    assert(seq![0x07u8].len() == 1 && seq![0x07u8][0] == 0x07u8);
    assert(seq![0x09u8].len() == 1 && seq![0x09u8][0] == 0x09u8);
    assert(seq![0x0Au8].len() == 1 && seq![0x0Au8][0] == 0x0Au8);
    assert(seq![0x0Bu8].len() == 1 && seq![0x0Bu8][0] == 0x0Bu8);
    assert(seq![0x0Cu8].len() == 1 && seq![0x0Cu8][0] == 0x0Cu8);
    assert(seq![0x0Du8].len() == 1 && seq![0x0Du8][0] == 0x0Du8);
    assert(seq![0x0Eu8].len() == 1 && seq![0x0Eu8][0] == 0x0Eu8);
    assert(seq![0x11u8].len() == 1 && seq![0x11u8][0] == 0x11u8);
    assert(seq![0x12u8].len() == 1 && seq![0x12u8][0] == 0x12u8);
    assert(seq![0x14u8].len() == 1 && seq![0x14u8][0] == 0x14u8);
    assert(seq![0x15u8].len() == 1 && seq![0x15u8][0] == 0x15u8);
    assert(seq![0x16u8].len() == 1 && seq![0x16u8][0] == 0x16u8);
    assert(seq![0x1Au8].len() == 1 && seq![0x1Au8][0] == 0x1Au8);
    assert(seq![0x1Bu8].len() == 1 && seq![0x1Bu8][0] == 0x1Bu8);
    assert(seq![0x1Cu8].len() == 1 && seq![0x1Cu8][0] == 0x1Cu8);
    assert(seq![0x1Du8].len() == 1 && seq![0x1Du8][0] == 0x1Du8);
    assert(seq![0x1Eu8].len() == 1 && seq![0x1Eu8][0] == 0x1Eu8);
    assert(seq![0x21u8].len() == 1 && seq![0x21u8][0] == 0x21u8);
    assert(seq![0x22u8].len() == 1 && seq![0x22u8][0] == 0x22u8);
    assert(seq![0x23u8].len() == 1 && seq![0x23u8][0] == 0x23u8);
    assert(seq![0x24u8].len() == 1 && seq![0x24u8][0] == 0x24u8);
    assert(seq![0x25u8].len() == 1 && seq![0x25u8][0] == 0x25u8);
    assert(seq![0x26u8].len() == 1 && seq![0x26u8][0] == 0x26u8);
    assert(seq![0x29u8].len() == 1 && seq![0x29u8][0] == 0x29u8);
    assert(seq![0x2Au8].len() == 1 && seq![0x2Au8][0] == 0x2Au8);
    assert(seq![0x2Bu8].len() == 1 && seq![0x2Bu8][0] == 0x2Bu8);
    assert(seq![0x2Cu8].len() == 1 && seq![0x2Cu8][0] == 0x2Cu8);
    assert(seq![0x2Du8].len() == 1 && seq![0x2Du8][0] == 0x2Du8);
    assert(seq![0x2Eu8].len() == 1 && seq![0x2Eu8][0] == 0x2Eu8);
    assert(seq![0x31u8].len() == 1 && seq![0x31u8][0] == 0x31u8);
    assert(seq![0x32u8].len() == 1 && seq![0x32u8][0] == 0x32u8);
    assert(seq![0x33u8].len() == 1 && seq![0x33u8][0] == 0x33u8);
    assert(seq![0x34u8].len() == 1 && seq![0x34u8][0] == 0x34u8);
    assert(seq![0x35u8].len() == 1 && seq![0x35u8][0] == 0x35u8);
    assert(seq![0x36u8].len() == 1 && seq![0x36u8][0] == 0x36u8);
    assert(seq![0x3Au8].len() == 1 && seq![0x3Au8][0] == 0x3Au8);
    assert(seq![0x3Bu8].len() == 1 && seq![0x3Bu8][0] == 0x3Bu8);
    assert(seq![0x3Cu8].len() == 1 && seq![0x3Cu8][0] == 0x3Cu8);
    assert(seq![0x3Du8].len() == 1 && seq![0x3Du8][0] == 0x3Du8);
    assert(seq![0x3Eu8].len() == 1 && seq![0x3Eu8][0] == 0x3Eu8);
    assert(seq![0x41u8].len() == 1 && seq![0x41u8][0] == 0x41u8);
    assert(seq![0x42u8].len() == 1 && seq![0x42u8][0] == 0x42u8);
    assert(seq![0x43u8].len() == 1 && seq![0x43u8][0] == 0x43u8);
    assert(seq![0x44u8].len() == 1 && seq![0x44u8][0] == 0x44u8);
    assert(seq![0x45u8].len() == 1 && seq![0x45u8][0] == 0x45u8);
    assert(seq![0x46u8].len() == 1 && seq![0x46u8][0] == 0x46u8);
    assert(seq![0x49u8].len() == 1 && seq![0x49u8][0] == 0x49u8);
    assert(seq![0x4Au8].len() == 1 && seq![0x4Au8][0] == 0x4Au8);
    assert(seq![0x4Bu8].len() == 1 && seq![0x4Bu8][0] == 0x4Bu8);
    assert(seq![0x4Cu8].len() == 1 && seq![0x4Cu8][0] == 0x4Cu8);
    assert(seq![0x4Du8].len() == 1 && seq![0x4Du8][0] == 0x4Du8);
    assert(seq![0x4Eu8].len() == 1 && seq![0x4Eu8][0] == 0x4Eu8);
    assert(seq![0x52u8].len() == 1 && seq![0x52u8][0] == 0x52u8);
    assert(seq![0x54u8].len() == 1 && seq![0x54u8][0] == 0x54u8);
    assert(seq![0x55u8].len() == 1 && seq![0x55u8][0] == 0x55u8);
    assert(seq![0x58u8].len() == 1 && seq![0x58u8][0] == 0x58u8);
    assert(seq![0x59u8].len() == 1 && seq![0x59u8][0] == 0x59u8);
    assert(seq![0x5Au8].len() == 1 && seq![0x5Au8][0] == 0x5Au8);
    assert(seq![0x5Bu8].len() == 1 && seq![0x5Bu8][0] == 0x5Bu8);
    assert(seq![0x5Du8].len() == 1 && seq![0x5Du8][0] == 0x5Du8);
    assert(seq![0x61u8].len() == 1 && seq![0x61u8][0] == 0x61u8);
    assert(seq![0x66u8].len() == 1 && seq![0x66u8][0] == 0x66u8);
    assert(seq![0x76u8].len() == 1 && seq![0x76u8][0] == 0x76u8);
    assert(seq![0x78u8].len() == 1 && seq![0x78u8][0] == 0x78u8);
    assert(seq![0x83u8].len() == 1 && seq![0x83u8][0] == 0x83u8);
    assert(seq![0xE0u8, 0x11u8].len() == 2 && seq![0xE0u8, 0x11u8][0] == 0xE0u8 && seq![0xE0u8, 0x11u8][1] == 0x11u8);
    assert(seq![0xE0u8, 0x14u8].len() == 2 && seq![0xE0u8, 0x14u8][0] == 0xE0u8 && seq![0xE0u8, 0x14u8][1] == 0x14u8);
    assert(seq![0xE0u8, 0x1Fu8].len() == 2 && seq![0xE0u8, 0x1Fu8][0] == 0xE0u8 && seq![0xE0u8, 0x1Fu8][1] == 0x1Fu8);
    assert(seq![0xE0u8, 0x6Bu8].len() == 2 && seq![0xE0u8, 0x6Bu8][0] == 0xE0u8 && seq![0xE0u8, 0x6Bu8][1] == 0x6Bu8);
    assert(seq![0xE0u8, 0x6Cu8].len() == 2 && seq![0xE0u8, 0x6Cu8][0] == 0xE0u8 && seq![0xE0u8, 0x6Cu8][1] == 0x6Cu8);
    assert(seq![0xE0u8, 0x69u8].len() == 2 && seq![0xE0u8, 0x69u8][0] == 0xE0u8 && seq![0xE0u8, 0x69u8][1] == 0x69u8);
    assert(seq![0xE0u8, 0x70u8].len() == 2 && seq![0xE0u8, 0x70u8][0] == 0xE0u8 && seq![0xE0u8, 0x70u8][1] == 0x70u8);
    assert(seq![0xE0u8, 0x71u8].len() == 2 && seq![0xE0u8, 0x71u8][0] == 0xE0u8 && seq![0xE0u8, 0x71u8][1] == 0x71u8);
    assert(seq![0xE0u8, 0x72u8].len() == 2 && seq![0xE0u8, 0x72u8][0] == 0xE0u8 && seq![0xE0u8, 0x72u8][1] == 0x72u8);
    assert(seq![0xE0u8, 0x74u8].len() == 2 && seq![0xE0u8, 0x74u8][0] == 0xE0u8 && seq![0xE0u8, 0x74u8][1] == 0x74u8);
    assert(seq![0xE0u8, 0x75u8].len() == 2 && seq![0xE0u8, 0x75u8][0] == 0xE0u8 && seq![0xE0u8, 0x75u8][1] == 0x75u8);
    assert(seq![0xE0u8, 0x7Au8].len() == 2 && seq![0xE0u8, 0x7Au8][0] == 0xE0u8 && seq![0xE0u8, 0x7Au8][1] == 0x7Au8);
    assert(seq![0xE0u8, 0x7Du8].len() == 2 && seq![0xE0u8, 0x7Du8][0] == 0xE0u8 && seq![0xE0u8, 0x7Du8][1] == 0x7Du8);
}

/// No modifier key is down.
pub open spec fn no_modifier_keys() -> Modifiers {
    Modifiers { shift: false, alt: false, control: false, meta: false, altgr: false }
}

/// Shift is down and no other modifier key.
pub open spec fn shift_key_only() -> Modifiers {
    Modifiers { shift: true, alt: false, control: false, meta: false, altgr: false }
}

proof fn lemma_swedish_part_0(slots: Seq<Option<Transformation>>)
    requires
        forall|key: KeyCode| #[trigger] key_slots(slots, key_index(key) as int) == filled_slots(swedish_entries(key)),
    ensures
        transform_slots(key_slots(slots, key_index(KeyCode::Backtick) as int), no_modifier_keys()) == Some('\u{a7}'),
        transform_slots(key_slots(slots, key_index(KeyCode::Backtick) as int), shift_key_only()) == Some('\u{bd}'),
        transform_slots(key_slots(slots, key_index(KeyCode::Digit1) as int), no_modifier_keys()) == Some('1'),
        transform_slots(key_slots(slots, key_index(KeyCode::Digit1) as int), shift_key_only()) == Some('!'),
        transform_slots(key_slots(slots, key_index(KeyCode::Digit2) as int), no_modifier_keys()) == Some('2'),
        transform_slots(key_slots(slots, key_index(KeyCode::Digit2) as int), shift_key_only()) == Some('"'),
        transform_slots(key_slots(slots, key_index(KeyCode::Digit3) as int), no_modifier_keys()) == Some('3'),
        transform_slots(key_slots(slots, key_index(KeyCode::Digit3) as int), shift_key_only()) == Some('#'),
        transform_slots(key_slots(slots, key_index(KeyCode::Digit4) as int), no_modifier_keys()) == Some('4'),
        transform_slots(key_slots(slots, key_index(KeyCode::Digit4) as int), shift_key_only()) == Some('\u{a4}'),
        transform_slots(key_slots(slots, key_index(KeyCode::Digit5) as int), no_modifier_keys()) == Some('5'),
        transform_slots(key_slots(slots, key_index(KeyCode::Digit5) as int), shift_key_only()) == Some('%'),
        transform_slots(key_slots(slots, key_index(KeyCode::Digit6) as int), no_modifier_keys()) == Some('6'),
        transform_slots(key_slots(slots, key_index(KeyCode::Digit6) as int), shift_key_only()) == Some('&'),
        transform_slots(key_slots(slots, key_index(KeyCode::Digit7) as int), no_modifier_keys()) == Some('7'),
        transform_slots(key_slots(slots, key_index(KeyCode::Digit7) as int), shift_key_only()) == Some('/'),
{
    reveal_with_fuel(transform_slots, 4);
    assert(key_slots(slots, key_index(KeyCode::Backtick) as int) == filled_slots(swedish_entries(KeyCode::Backtick)));
    assert(key_slots(slots, key_index(KeyCode::Digit1) as int) == filled_slots(swedish_entries(KeyCode::Digit1)));
    assert(key_slots(slots, key_index(KeyCode::Digit2) as int) == filled_slots(swedish_entries(KeyCode::Digit2)));
    assert(key_slots(slots, key_index(KeyCode::Digit3) as int) == filled_slots(swedish_entries(KeyCode::Digit3)));
    assert(key_slots(slots, key_index(KeyCode::Digit4) as int) == filled_slots(swedish_entries(KeyCode::Digit4)));
    assert(key_slots(slots, key_index(KeyCode::Digit5) as int) == filled_slots(swedish_entries(KeyCode::Digit5)));
    assert(key_slots(slots, key_index(KeyCode::Digit6) as int) == filled_slots(swedish_entries(KeyCode::Digit6)));
    assert(key_slots(slots, key_index(KeyCode::Digit7) as int) == filled_slots(swedish_entries(KeyCode::Digit7)));
}

proof fn lemma_swedish_part_1(slots: Seq<Option<Transformation>>)
    requires
        forall|key: KeyCode| #[trigger] key_slots(slots, key_index(key) as int) == filled_slots(swedish_entries(key)),
    ensures
        transform_slots(key_slots(slots, key_index(KeyCode::Digit8) as int), no_modifier_keys()) == Some('8'),
        transform_slots(key_slots(slots, key_index(KeyCode::Digit8) as int), shift_key_only()) == Some('('),
        transform_slots(key_slots(slots, key_index(KeyCode::Digit9) as int), no_modifier_keys()) == Some('9'),
        transform_slots(key_slots(slots, key_index(KeyCode::Digit9) as int), shift_key_only()) == Some(')'),
        transform_slots(key_slots(slots, key_index(KeyCode::Digit0) as int), no_modifier_keys()) == Some('0'),
        transform_slots(key_slots(slots, key_index(KeyCode::Digit0) as int), shift_key_only()) == Some('='),
        transform_slots(key_slots(slots, key_index(KeyCode::Minus) as int), no_modifier_keys()) == Some('+'),
        transform_slots(key_slots(slots, key_index(KeyCode::Minus) as int), shift_key_only()) == Some('?'),
        transform_slots(key_slots(slots, key_index(KeyCode::Equal) as int), no_modifier_keys()) == Some('\u{b4}'),
        transform_slots(key_slots(slots, key_index(KeyCode::Equal) as int), shift_key_only()) == Some('`'),
        transform_slots(key_slots(slots, key_index(KeyCode::Q) as int), no_modifier_keys()) == Some('q'),
        transform_slots(key_slots(slots, key_index(KeyCode::Q) as int), shift_key_only()) == Some('Q'),
        transform_slots(key_slots(slots, key_index(KeyCode::W) as int), no_modifier_keys()) == Some('w'),
        transform_slots(key_slots(slots, key_index(KeyCode::W) as int), shift_key_only()) == Some('W'),
        transform_slots(key_slots(slots, key_index(KeyCode::E) as int), no_modifier_keys()) == Some('e'),
        transform_slots(key_slots(slots, key_index(KeyCode::E) as int), shift_key_only()) == Some('E'),
{
    reveal_with_fuel(transform_slots, 4);
    assert(key_slots(slots, key_index(KeyCode::Digit8) as int) == filled_slots(swedish_entries(KeyCode::Digit8)));
    assert(key_slots(slots, key_index(KeyCode::Digit9) as int) == filled_slots(swedish_entries(KeyCode::Digit9)));
    assert(key_slots(slots, key_index(KeyCode::Digit0) as int) == filled_slots(swedish_entries(KeyCode::Digit0)));
    assert(key_slots(slots, key_index(KeyCode::Minus) as int) == filled_slots(swedish_entries(KeyCode::Minus)));
    assert(key_slots(slots, key_index(KeyCode::Equal) as int) == filled_slots(swedish_entries(KeyCode::Equal)));
    assert(key_slots(slots, key_index(KeyCode::Q) as int) == filled_slots(swedish_entries(KeyCode::Q)));
    assert(key_slots(slots, key_index(KeyCode::W) as int) == filled_slots(swedish_entries(KeyCode::W)));
    assert(key_slots(slots, key_index(KeyCode::E) as int) == filled_slots(swedish_entries(KeyCode::E)));
}

proof fn lemma_swedish_part_2(slots: Seq<Option<Transformation>>)
    requires
        forall|key: KeyCode| #[trigger] key_slots(slots, key_index(key) as int) == filled_slots(swedish_entries(key)),
    ensures
        transform_slots(key_slots(slots, key_index(KeyCode::R) as int), no_modifier_keys()) == Some('r'),
        transform_slots(key_slots(slots, key_index(KeyCode::R) as int), shift_key_only()) == Some('R'),
        transform_slots(key_slots(slots, key_index(KeyCode::T) as int), no_modifier_keys()) == Some('t'),
        transform_slots(key_slots(slots, key_index(KeyCode::T) as int), shift_key_only()) == Some('T'),
        transform_slots(key_slots(slots, key_index(KeyCode::Y) as int), no_modifier_keys()) == Some('y'),
        transform_slots(key_slots(slots, key_index(KeyCode::Y) as int), shift_key_only()) == Some('Y'),
        transform_slots(key_slots(slots, key_index(KeyCode::U) as int), no_modifier_keys()) == Some('u'),
        transform_slots(key_slots(slots, key_index(KeyCode::U) as int), shift_key_only()) == Some('U'),
        transform_slots(key_slots(slots, key_index(KeyCode::I) as int), no_modifier_keys()) == Some('i'),
        transform_slots(key_slots(slots, key_index(KeyCode::I) as int), shift_key_only()) == Some('I'),
        transform_slots(key_slots(slots, key_index(KeyCode::O) as int), no_modifier_keys()) == Some('o'),
        transform_slots(key_slots(slots, key_index(KeyCode::O) as int), shift_key_only()) == Some('O'),
        transform_slots(key_slots(slots, key_index(KeyCode::P) as int), no_modifier_keys()) == Some('p'),
        transform_slots(key_slots(slots, key_index(KeyCode::P) as int), shift_key_only()) == Some('P'),
        transform_slots(key_slots(slots, key_index(KeyCode::LBracket) as int), no_modifier_keys()) == Some('\u{e5}'),
        transform_slots(key_slots(slots, key_index(KeyCode::LBracket) as int), shift_key_only()) == Some('\u{c5}'),
{
    reveal_with_fuel(transform_slots, 4);
    assert(key_slots(slots, key_index(KeyCode::R) as int) == filled_slots(swedish_entries(KeyCode::R)));
    assert(key_slots(slots, key_index(KeyCode::T) as int) == filled_slots(swedish_entries(KeyCode::T)));
    assert(key_slots(slots, key_index(KeyCode::Y) as int) == filled_slots(swedish_entries(KeyCode::Y)));
    assert(key_slots(slots, key_index(KeyCode::U) as int) == filled_slots(swedish_entries(KeyCode::U)));
    assert(key_slots(slots, key_index(KeyCode::I) as int) == filled_slots(swedish_entries(KeyCode::I)));
    assert(key_slots(slots, key_index(KeyCode::O) as int) == filled_slots(swedish_entries(KeyCode::O)));
    assert(key_slots(slots, key_index(KeyCode::P) as int) == filled_slots(swedish_entries(KeyCode::P)));
    assert(key_slots(slots, key_index(KeyCode::LBracket) as int) == filled_slots(swedish_entries(KeyCode::LBracket)));
}

proof fn lemma_swedish_part_3(slots: Seq<Option<Transformation>>)
    requires
        forall|key: KeyCode| #[trigger] key_slots(slots, key_index(key) as int) == filled_slots(swedish_entries(key)),
    ensures
        transform_slots(key_slots(slots, key_index(KeyCode::RBracket) as int), no_modifier_keys()) == Some('\u{a8}'),
        transform_slots(key_slots(slots, key_index(KeyCode::RBracket) as int), shift_key_only()) == Some('^'),
        transform_slots(key_slots(slots, key_index(KeyCode::A) as int), no_modifier_keys()) == Some('a'),
        transform_slots(key_slots(slots, key_index(KeyCode::A) as int), shift_key_only()) == Some('A'),
        transform_slots(key_slots(slots, key_index(KeyCode::S) as int), no_modifier_keys()) == Some('s'),
        transform_slots(key_slots(slots, key_index(KeyCode::S) as int), shift_key_only()) == Some('S'),
        transform_slots(key_slots(slots, key_index(KeyCode::D) as int), no_modifier_keys()) == Some('d'),
        transform_slots(key_slots(slots, key_index(KeyCode::D) as int), shift_key_only()) == Some('D'),
        transform_slots(key_slots(slots, key_index(KeyCode::F) as int), no_modifier_keys()) == Some('f'),
        transform_slots(key_slots(slots, key_index(KeyCode::F) as int), shift_key_only()) == Some('F'),
        transform_slots(key_slots(slots, key_index(KeyCode::G) as int), no_modifier_keys()) == Some('g'),
        transform_slots(key_slots(slots, key_index(KeyCode::G) as int), shift_key_only()) == Some('G'),
        transform_slots(key_slots(slots, key_index(KeyCode::H) as int), no_modifier_keys()) == Some('h'),
        transform_slots(key_slots(slots, key_index(KeyCode::H) as int), shift_key_only()) == Some('H'),
        transform_slots(key_slots(slots, key_index(KeyCode::J) as int), no_modifier_keys()) == Some('j'),
        transform_slots(key_slots(slots, key_index(KeyCode::J) as int), shift_key_only()) == Some('J'),
{
    reveal_with_fuel(transform_slots, 4);
    assert(key_slots(slots, key_index(KeyCode::RBracket) as int) == filled_slots(swedish_entries(KeyCode::RBracket)));
    assert(key_slots(slots, key_index(KeyCode::A) as int) == filled_slots(swedish_entries(KeyCode::A)));
    assert(key_slots(slots, key_index(KeyCode::S) as int) == filled_slots(swedish_entries(KeyCode::S)));
    assert(key_slots(slots, key_index(KeyCode::D) as int) == filled_slots(swedish_entries(KeyCode::D)));
    assert(key_slots(slots, key_index(KeyCode::F) as int) == filled_slots(swedish_entries(KeyCode::F)));
    assert(key_slots(slots, key_index(KeyCode::G) as int) == filled_slots(swedish_entries(KeyCode::G)));
    assert(key_slots(slots, key_index(KeyCode::H) as int) == filled_slots(swedish_entries(KeyCode::H)));
    assert(key_slots(slots, key_index(KeyCode::J) as int) == filled_slots(swedish_entries(KeyCode::J)));
}

proof fn lemma_swedish_part_4(slots: Seq<Option<Transformation>>)
    requires
        forall|key: KeyCode| #[trigger] key_slots(slots, key_index(key) as int) == filled_slots(swedish_entries(key)),
    ensures
        transform_slots(key_slots(slots, key_index(KeyCode::K) as int), no_modifier_keys()) == Some('k'),
        transform_slots(key_slots(slots, key_index(KeyCode::K) as int), shift_key_only()) == Some('K'),
        transform_slots(key_slots(slots, key_index(KeyCode::L) as int), no_modifier_keys()) == Some('l'),
        transform_slots(key_slots(slots, key_index(KeyCode::L) as int), shift_key_only()) == Some('L'),
        transform_slots(key_slots(slots, key_index(KeyCode::Semicolon) as int), no_modifier_keys()) == Some('\u{f6}'),
        transform_slots(key_slots(slots, key_index(KeyCode::Semicolon) as int), shift_key_only()) == Some('\u{d6}'),
        transform_slots(key_slots(slots, key_index(KeyCode::Quote) as int), no_modifier_keys()) == Some('\u{e4}'),
        transform_slots(key_slots(slots, key_index(KeyCode::Quote) as int), shift_key_only()) == Some('\u{c4}'),
        transform_slots(key_slots(slots, key_index(KeyCode::Backslash) as int), no_modifier_keys()) == Some('\''),
        transform_slots(key_slots(slots, key_index(KeyCode::Backslash) as int), shift_key_only()) == Some('*'),
        transform_slots(key_slots(slots, key_index(KeyCode::Pipe) as int), no_modifier_keys()) == Some('<'),
        transform_slots(key_slots(slots, key_index(KeyCode::Pipe) as int), shift_key_only()) == Some('>'),
        transform_slots(key_slots(slots, key_index(KeyCode::Z) as int), no_modifier_keys()) == Some('z'),
        transform_slots(key_slots(slots, key_index(KeyCode::Z) as int), shift_key_only()) == Some('Z'),
        transform_slots(key_slots(slots, key_index(KeyCode::X) as int), no_modifier_keys()) == Some('x'),
        transform_slots(key_slots(slots, key_index(KeyCode::X) as int), shift_key_only()) == Some('X'),
{
    reveal_with_fuel(transform_slots, 4);
    assert(key_slots(slots, key_index(KeyCode::K) as int) == filled_slots(swedish_entries(KeyCode::K)));
    assert(key_slots(slots, key_index(KeyCode::L) as int) == filled_slots(swedish_entries(KeyCode::L)));
    assert(key_slots(slots, key_index(KeyCode::Semicolon) as int) == filled_slots(swedish_entries(KeyCode::Semicolon)));
    assert(key_slots(slots, key_index(KeyCode::Quote) as int) == filled_slots(swedish_entries(KeyCode::Quote)));
    assert(key_slots(slots, key_index(KeyCode::Backslash) as int) == filled_slots(swedish_entries(KeyCode::Backslash)));
    assert(key_slots(slots, key_index(KeyCode::Pipe) as int) == filled_slots(swedish_entries(KeyCode::Pipe)));
    assert(key_slots(slots, key_index(KeyCode::Z) as int) == filled_slots(swedish_entries(KeyCode::Z)));
    assert(key_slots(slots, key_index(KeyCode::X) as int) == filled_slots(swedish_entries(KeyCode::X)));
}

proof fn lemma_swedish_part_5(slots: Seq<Option<Transformation>>)
    requires
        forall|key: KeyCode| #[trigger] key_slots(slots, key_index(key) as int) == filled_slots(swedish_entries(key)),
    ensures
        transform_slots(key_slots(slots, key_index(KeyCode::C) as int), no_modifier_keys()) == Some('c'),
        transform_slots(key_slots(slots, key_index(KeyCode::C) as int), shift_key_only()) == Some('C'),
        transform_slots(key_slots(slots, key_index(KeyCode::V) as int), no_modifier_keys()) == Some('v'),
        transform_slots(key_slots(slots, key_index(KeyCode::V) as int), shift_key_only()) == Some('V'),
        transform_slots(key_slots(slots, key_index(KeyCode::B) as int), no_modifier_keys()) == Some('b'),
        transform_slots(key_slots(slots, key_index(KeyCode::B) as int), shift_key_only()) == Some('B'),
        transform_slots(key_slots(slots, key_index(KeyCode::N) as int), no_modifier_keys()) == Some('n'),
        transform_slots(key_slots(slots, key_index(KeyCode::N) as int), shift_key_only()) == Some('N'),
        transform_slots(key_slots(slots, key_index(KeyCode::M) as int), no_modifier_keys()) == Some('m'),
        transform_slots(key_slots(slots, key_index(KeyCode::M) as int), shift_key_only()) == Some('M'),
        transform_slots(key_slots(slots, key_index(KeyCode::Comma) as int), no_modifier_keys()) == Some(','),
        transform_slots(key_slots(slots, key_index(KeyCode::Comma) as int), shift_key_only()) == Some(';'),
        transform_slots(key_slots(slots, key_index(KeyCode::Period) as int), no_modifier_keys()) == Some('.'),
        transform_slots(key_slots(slots, key_index(KeyCode::Period) as int), shift_key_only()) == Some(':'),
        transform_slots(key_slots(slots, key_index(KeyCode::Slash) as int), no_modifier_keys()) == Some('-'),
        transform_slots(key_slots(slots, key_index(KeyCode::Slash) as int), shift_key_only()) == Some('_'),
{
    reveal_with_fuel(transform_slots, 4);
    assert(key_slots(slots, key_index(KeyCode::C) as int) == filled_slots(swedish_entries(KeyCode::C)));
    assert(key_slots(slots, key_index(KeyCode::V) as int) == filled_slots(swedish_entries(KeyCode::V)));
    assert(key_slots(slots, key_index(KeyCode::B) as int) == filled_slots(swedish_entries(KeyCode::B)));
    assert(key_slots(slots, key_index(KeyCode::N) as int) == filled_slots(swedish_entries(KeyCode::N)));
    assert(key_slots(slots, key_index(KeyCode::M) as int) == filled_slots(swedish_entries(KeyCode::M)));
    assert(key_slots(slots, key_index(KeyCode::Comma) as int) == filled_slots(swedish_entries(KeyCode::Comma)));
    assert(key_slots(slots, key_index(KeyCode::Period) as int) == filled_slots(swedish_entries(KeyCode::Period)));
    assert(key_slots(slots, key_index(KeyCode::Slash) as int) == filled_slots(swedish_entries(KeyCode::Slash)));
}

proof fn lemma_swedish_part_6(slots: Seq<Option<Transformation>>)
    requires
        forall|key: KeyCode| #[trigger] key_slots(slots, key_index(key) as int) == filled_slots(swedish_entries(key)),
    ensures
        transform_slots(key_slots(slots, key_index(KeyCode::Space) as int), no_modifier_keys()) == Some(' '),
{
    reveal_with_fuel(transform_slots, 4);
    assert(key_slots(slots, key_index(KeyCode::Space) as int) == filled_slots(swedish_entries(KeyCode::Space)));
}

/// In the Swedish layout that `generate_swedish_layout` fills in, each letter key types
/// its own lower-case letter without modifiers and its upper-case letter with shift
/// (the keys right of P, L and the one after it type å, ö and ä), each digit key its
/// digit, and every other key of the layout the character printed on a Swedish
/// keyboard, without modifiers and with shift.
pub proof fn lemma_swedish_letters(slots: Seq<Option<Transformation>>)
    requires
        forall|key: KeyCode| #[trigger] key_slots(slots, key_index(key) as int) == filled_slots(swedish_entries(key)),
    ensures
        transform_slots(key_slots(slots, key_index(KeyCode::Backtick) as int), no_modifier_keys()) == Some('\u{a7}'),
        transform_slots(key_slots(slots, key_index(KeyCode::Backtick) as int), shift_key_only()) == Some('\u{bd}'),
        transform_slots(key_slots(slots, key_index(KeyCode::Digit1) as int), no_modifier_keys()) == Some('1'),
        transform_slots(key_slots(slots, key_index(KeyCode::Digit1) as int), shift_key_only()) == Some('!'),
        transform_slots(key_slots(slots, key_index(KeyCode::Digit2) as int), no_modifier_keys()) == Some('2'),
        transform_slots(key_slots(slots, key_index(KeyCode::Digit2) as int), shift_key_only()) == Some('"'),
        transform_slots(key_slots(slots, key_index(KeyCode::Digit3) as int), no_modifier_keys()) == Some('3'),
        transform_slots(key_slots(slots, key_index(KeyCode::Digit3) as int), shift_key_only()) == Some('#'),
        transform_slots(key_slots(slots, key_index(KeyCode::Digit4) as int), no_modifier_keys()) == Some('4'),
        transform_slots(key_slots(slots, key_index(KeyCode::Digit4) as int), shift_key_only()) == Some('\u{a4}'),
        transform_slots(key_slots(slots, key_index(KeyCode::Digit5) as int), no_modifier_keys()) == Some('5'),
        transform_slots(key_slots(slots, key_index(KeyCode::Digit5) as int), shift_key_only()) == Some('%'),
        transform_slots(key_slots(slots, key_index(KeyCode::Digit6) as int), no_modifier_keys()) == Some('6'),
        transform_slots(key_slots(slots, key_index(KeyCode::Digit6) as int), shift_key_only()) == Some('&'),
        transform_slots(key_slots(slots, key_index(KeyCode::Digit7) as int), no_modifier_keys()) == Some('7'),
        transform_slots(key_slots(slots, key_index(KeyCode::Digit7) as int), shift_key_only()) == Some('/'),
        transform_slots(key_slots(slots, key_index(KeyCode::Digit8) as int), no_modifier_keys()) == Some('8'),
        transform_slots(key_slots(slots, key_index(KeyCode::Digit8) as int), shift_key_only()) == Some('('),
        transform_slots(key_slots(slots, key_index(KeyCode::Digit9) as int), no_modifier_keys()) == Some('9'),
        transform_slots(key_slots(slots, key_index(KeyCode::Digit9) as int), shift_key_only()) == Some(')'),
        transform_slots(key_slots(slots, key_index(KeyCode::Digit0) as int), no_modifier_keys()) == Some('0'),
        transform_slots(key_slots(slots, key_index(KeyCode::Digit0) as int), shift_key_only()) == Some('='),
        transform_slots(key_slots(slots, key_index(KeyCode::Minus) as int), no_modifier_keys()) == Some('+'),
        transform_slots(key_slots(slots, key_index(KeyCode::Minus) as int), shift_key_only()) == Some('?'),
        transform_slots(key_slots(slots, key_index(KeyCode::Equal) as int), no_modifier_keys()) == Some('\u{b4}'),
        transform_slots(key_slots(slots, key_index(KeyCode::Equal) as int), shift_key_only()) == Some('`'),
        transform_slots(key_slots(slots, key_index(KeyCode::Q) as int), no_modifier_keys()) == Some('q'),
        transform_slots(key_slots(slots, key_index(KeyCode::Q) as int), shift_key_only()) == Some('Q'),
        transform_slots(key_slots(slots, key_index(KeyCode::W) as int), no_modifier_keys()) == Some('w'),
        transform_slots(key_slots(slots, key_index(KeyCode::W) as int), shift_key_only()) == Some('W'),
        transform_slots(key_slots(slots, key_index(KeyCode::E) as int), no_modifier_keys()) == Some('e'),
        transform_slots(key_slots(slots, key_index(KeyCode::E) as int), shift_key_only()) == Some('E'),
        transform_slots(key_slots(slots, key_index(KeyCode::R) as int), no_modifier_keys()) == Some('r'),
        transform_slots(key_slots(slots, key_index(KeyCode::R) as int), shift_key_only()) == Some('R'),
        transform_slots(key_slots(slots, key_index(KeyCode::T) as int), no_modifier_keys()) == Some('t'),
        transform_slots(key_slots(slots, key_index(KeyCode::T) as int), shift_key_only()) == Some('T'),
        transform_slots(key_slots(slots, key_index(KeyCode::Y) as int), no_modifier_keys()) == Some('y'),
        transform_slots(key_slots(slots, key_index(KeyCode::Y) as int), shift_key_only()) == Some('Y'),
        transform_slots(key_slots(slots, key_index(KeyCode::U) as int), no_modifier_keys()) == Some('u'),
        transform_slots(key_slots(slots, key_index(KeyCode::U) as int), shift_key_only()) == Some('U'),
        transform_slots(key_slots(slots, key_index(KeyCode::I) as int), no_modifier_keys()) == Some('i'),
        transform_slots(key_slots(slots, key_index(KeyCode::I) as int), shift_key_only()) == Some('I'),
        transform_slots(key_slots(slots, key_index(KeyCode::O) as int), no_modifier_keys()) == Some('o'),
        transform_slots(key_slots(slots, key_index(KeyCode::O) as int), shift_key_only()) == Some('O'),
        transform_slots(key_slots(slots, key_index(KeyCode::P) as int), no_modifier_keys()) == Some('p'),
        transform_slots(key_slots(slots, key_index(KeyCode::P) as int), shift_key_only()) == Some('P'),
        transform_slots(key_slots(slots, key_index(KeyCode::LBracket) as int), no_modifier_keys()) == Some('\u{e5}'),
        transform_slots(key_slots(slots, key_index(KeyCode::LBracket) as int), shift_key_only()) == Some('\u{c5}'),
        transform_slots(key_slots(slots, key_index(KeyCode::RBracket) as int), no_modifier_keys()) == Some('\u{a8}'),
        transform_slots(key_slots(slots, key_index(KeyCode::RBracket) as int), shift_key_only()) == Some('^'),
        transform_slots(key_slots(slots, key_index(KeyCode::A) as int), no_modifier_keys()) == Some('a'),
        transform_slots(key_slots(slots, key_index(KeyCode::A) as int), shift_key_only()) == Some('A'),
        transform_slots(key_slots(slots, key_index(KeyCode::S) as int), no_modifier_keys()) == Some('s'),
        transform_slots(key_slots(slots, key_index(KeyCode::S) as int), shift_key_only()) == Some('S'),
        transform_slots(key_slots(slots, key_index(KeyCode::D) as int), no_modifier_keys()) == Some('d'),
        transform_slots(key_slots(slots, key_index(KeyCode::D) as int), shift_key_only()) == Some('D'),
        transform_slots(key_slots(slots, key_index(KeyCode::F) as int), no_modifier_keys()) == Some('f'),
        transform_slots(key_slots(slots, key_index(KeyCode::F) as int), shift_key_only()) == Some('F'),
        transform_slots(key_slots(slots, key_index(KeyCode::G) as int), no_modifier_keys()) == Some('g'),
        transform_slots(key_slots(slots, key_index(KeyCode::G) as int), shift_key_only()) == Some('G'),
        transform_slots(key_slots(slots, key_index(KeyCode::H) as int), no_modifier_keys()) == Some('h'),
        transform_slots(key_slots(slots, key_index(KeyCode::H) as int), shift_key_only()) == Some('H'),
        transform_slots(key_slots(slots, key_index(KeyCode::J) as int), no_modifier_keys()) == Some('j'),
        transform_slots(key_slots(slots, key_index(KeyCode::J) as int), shift_key_only()) == Some('J'),
        transform_slots(key_slots(slots, key_index(KeyCode::K) as int), no_modifier_keys()) == Some('k'),
        transform_slots(key_slots(slots, key_index(KeyCode::K) as int), shift_key_only()) == Some('K'),
        transform_slots(key_slots(slots, key_index(KeyCode::L) as int), no_modifier_keys()) == Some('l'),
        transform_slots(key_slots(slots, key_index(KeyCode::L) as int), shift_key_only()) == Some('L'),
        transform_slots(key_slots(slots, key_index(KeyCode::Semicolon) as int), no_modifier_keys()) == Some('\u{f6}'),
        transform_slots(key_slots(slots, key_index(KeyCode::Semicolon) as int), shift_key_only()) == Some('\u{d6}'),
        transform_slots(key_slots(slots, key_index(KeyCode::Quote) as int), no_modifier_keys()) == Some('\u{e4}'),
        transform_slots(key_slots(slots, key_index(KeyCode::Quote) as int), shift_key_only()) == Some('\u{c4}'),
        transform_slots(key_slots(slots, key_index(KeyCode::Backslash) as int), no_modifier_keys()) == Some('\''),
        transform_slots(key_slots(slots, key_index(KeyCode::Backslash) as int), shift_key_only()) == Some('*'),
        transform_slots(key_slots(slots, key_index(KeyCode::Pipe) as int), no_modifier_keys()) == Some('<'),
        transform_slots(key_slots(slots, key_index(KeyCode::Pipe) as int), shift_key_only()) == Some('>'),
        transform_slots(key_slots(slots, key_index(KeyCode::Z) as int), no_modifier_keys()) == Some('z'),
        transform_slots(key_slots(slots, key_index(KeyCode::Z) as int), shift_key_only()) == Some('Z'),
        transform_slots(key_slots(slots, key_index(KeyCode::X) as int), no_modifier_keys()) == Some('x'),
        transform_slots(key_slots(slots, key_index(KeyCode::X) as int), shift_key_only()) == Some('X'),
        transform_slots(key_slots(slots, key_index(KeyCode::C) as int), no_modifier_keys()) == Some('c'),
        transform_slots(key_slots(slots, key_index(KeyCode::C) as int), shift_key_only()) == Some('C'),
        transform_slots(key_slots(slots, key_index(KeyCode::V) as int), no_modifier_keys()) == Some('v'),
        transform_slots(key_slots(slots, key_index(KeyCode::V) as int), shift_key_only()) == Some('V'),
        transform_slots(key_slots(slots, key_index(KeyCode::B) as int), no_modifier_keys()) == Some('b'),
        transform_slots(key_slots(slots, key_index(KeyCode::B) as int), shift_key_only()) == Some('B'),
        transform_slots(key_slots(slots, key_index(KeyCode::N) as int), no_modifier_keys()) == Some('n'),
        transform_slots(key_slots(slots, key_index(KeyCode::N) as int), shift_key_only()) == Some('N'),
        transform_slots(key_slots(slots, key_index(KeyCode::M) as int), no_modifier_keys()) == Some('m'),
        transform_slots(key_slots(slots, key_index(KeyCode::M) as int), shift_key_only()) == Some('M'),
        transform_slots(key_slots(slots, key_index(KeyCode::Comma) as int), no_modifier_keys()) == Some(','),
        transform_slots(key_slots(slots, key_index(KeyCode::Comma) as int), shift_key_only()) == Some(';'),
        transform_slots(key_slots(slots, key_index(KeyCode::Period) as int), no_modifier_keys()) == Some('.'),
        transform_slots(key_slots(slots, key_index(KeyCode::Period) as int), shift_key_only()) == Some(':'),
        transform_slots(key_slots(slots, key_index(KeyCode::Slash) as int), no_modifier_keys()) == Some('-'),
        transform_slots(key_slots(slots, key_index(KeyCode::Slash) as int), shift_key_only()) == Some('_'),
        transform_slots(key_slots(slots, key_index(KeyCode::Space) as int), no_modifier_keys()) == Some(' '),
{
    lemma_swedish_part_0(slots);
    lemma_swedish_part_1(slots);
    lemma_swedish_part_2(slots);
    lemma_swedish_part_3(slots);
    lemma_swedish_part_4(slots);
    lemma_swedish_part_5(slots);
    lemma_swedish_part_6(slots);
}

/// The scan code of byte `b`: the make code `[b]` or `[0xE0, b]` (`extended`), or the
/// break code `[0xF0, b]` or `[0xE0, 0xF0, b]` (`release`).
pub open spec fn scancode_of(b: u8, extended: bool, release: bool) -> Seq<u8> {
    if release {
        if extended {
            seq![0xE0u8, 0xF0u8, b]
        } else {
            seq![0xF0u8, b]
        }
    } else if extended {
        seq![0xE0u8, b]
    } else {
        seq![b]
    }
}

/// The key of a scan code is its make part's key. A make code reports the key as held
/// when it was down and as pressed when it was up, and leaves it down; a break code
/// reports it released, with no character, and leaves it up. No other key changes.
pub proof fn lemma_scancode_per_key(b: u8, extended: bool, release: bool, pressed: Seq<bool>, slots: Seq<
    Option<Transformation>,
>)
    requires
        pressed.len() == KEY_TABLE_SIZE,
    ensures
        ({
            let code = scancode_of(b, extended, release);
            let make = scancode_of(b, extended, false);
            let k = key_index(scancode_key(make)) as int;
            let event = scancode_event(code, pressed, slots);
            let after = pressed_after(code, pressed);
            &&& event.key_code == scancode_key(make)
            &&& !release ==> event.key_state == (if pressed[k] { KeyState::Held } else { KeyState::Pressed }) && after[k]
            &&& release ==> event.key_state == KeyState::Released && event.char is None && !after[k]
            &&& after.len() == pressed.len()
            &&& forall|j: int| 0 <= j < pressed.len() && j != k ==> #[trigger] after[j] == pressed[j]
        }),
{
    let code = scancode_of(b, extended, release);
    let make = scancode_of(b, extended, false);
    if release {
        if extended {
            assert(scancode_make_code(code) =~= make);
        } else {
            assert(scancode_make_code(code) =~= make);
        }
    } else {
        assert(scancode_make_code(code) =~= make);
    }
}

/// Pressing a one-byte key and releasing it again leaves the table of pressed keys as
/// it was, except that the key is up.
pub proof fn lemma_press_release(m: u8, pressed: Seq<bool>)
    requires
        m < 0xA0,
        pressed.len() == KEY_TABLE_SIZE,
    ensures
        pressed_after(seq![0xF0u8, m], pressed_after(seq![m], pressed)) == pressed.update(
            key_index(single_byte_key(m)) as int,
            false,
        ),
        !pressed[key_index(single_byte_key(m)) as int] ==> pressed_after(seq![0xF0u8, m], pressed_after(seq![m], pressed))
            == pressed,
{
    let press = seq![m];
    let release = seq![0xF0u8, m];
    assert(scancode_make_code(release) =~= seq![m]);
    assert(scancode_make_code(press) =~= seq![m]);
    let k = key_index(single_byte_key(m)) as int;
    assert(pressed_after(release, pressed_after(press, pressed)) =~= pressed.update(k, false));
    if !pressed[k] {
        assert(pressed.update(k, false) =~= pressed);
    }
}

/// A key that is pressed again while it is down is reported as held, and a key that
/// goes down while up is reported as pressed.
pub proof fn lemma_repeat_is_held(m: u8, pressed: Seq<bool>, slots: Seq<Option<Transformation>>)
    requires
        m < 0xA0,
        pressed.len() == KEY_TABLE_SIZE,
    ensures
        !pressed[key_index(single_byte_key(m)) as int] ==> scancode_event(seq![m], pressed, slots).key_state
            == KeyState::Pressed,
        scancode_event(seq![m], pressed_after(seq![m], pressed), slots).key_state == KeyState::Held,
{
    let press = seq![m];
    assert(scancode_make_code(press) =~= seq![m]);
    assert(scancode_key(seq![m]) == single_byte_key(m));
}

/// A release never carries a character, and a release of any key is reported as a
/// release.
pub proof fn lemma_release_has_no_char(code: Seq<u8>, pressed: Seq<bool>, slots: Seq<Option<Transformation>>)
    requires
        scancode_released(code),
    ensures
        scancode_event(code, pressed, slots).key_state == KeyState::Released,
        scancode_event(code, pressed, slots).char is None,
{
}

/// With no scan code under way, a byte completes a scan code exactly when it is below
/// 0xA0, and every byte is accepted.
pub proof fn lemma_idle_single_bytes(buffer: Seq<u8>, message: u8)
    requires
        buffer.len() == SCANCODE_BUFFER_LEN,
    ensures
        message_completes(DriverState::Idle, buffer, message) <==> message < 0xA0,
        message_accepted(DriverState::Idle, buffer, message),
{
    assert(buffer_after(DriverState::Idle, buffer, message).subrange(0, 1).len() == 1);
}

} // verus!
