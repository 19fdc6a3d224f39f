//! Keys and modifiers, and their names for the `ydotool` program.

use vstd::prelude::*;

verus! {

/// A modifier key.
#[derive(Debug, Clone, Copy, PartialEq, Eq, Structural)]
pub enum Modifier {
    /// Control.
    Ctrl,
    /// Alt.
    Alt,
    /// Shift.
    Shift,
    /// The logo key.
    Super,
}

impl Modifier {
    /// The name of the modifier for `ydotool`.
    pub open spec fn ydotool_name(self) -> Seq<char> {
        match self {
            Modifier::Ctrl => "LEFTCTRL"@,
            Modifier::Alt => "LEFTALT"@,
            Modifier::Shift => "LEFTSHIFT"@,
            Modifier::Super => "LEFTMETA"@,
        }
    }

    /// The name of the modifier for `ydotool`.
    pub fn to_ydotool(self) -> (name: &'static str)
        ensures
            name@ == self.ydotool_name(),
    {
        match self {
            Modifier::Ctrl => "LEFTCTRL",
            Modifier::Alt => "LEFTALT",
            Modifier::Shift => "LEFTSHIFT",
            Modifier::Super => "LEFTMETA",
        }
    }
}

/// A key that can be pressed.
#[derive(Debug, Clone, Copy, PartialEq, Eq, Structural)]
pub enum Key {
    A,
    B,
    C,
    D,
    E,
    F,
    G,
    H,
    I,
    J,
    K,
    L,
    M,
    N,
    O,
    P,
    Q,
    R,
    S,
    T,
    U,
    V,
    W,
    X,
    Y,
    Z,
    Enter,
    Backspace,
    Tab,
    Escape,
    Space,
    Delete,
    Home,
    End,
    PageUp,
    PageDown,
    Left,
    Right,
    Up,
    Down,
    F1,
    F2,
    F3,
    F4,
    F5,
    F6,
    F7,
    F8,
    F9,
    F10,
    F11,
    F12,
}

impl Key {
    /// The name of the key for `ydotool`.
    pub open spec fn ydotool_name(self) -> Seq<char> {
        match self {
            Key::A => "A"@,
            Key::B => "B"@,
            Key::C => "C"@,
            Key::D => "D"@,
            Key::E => "E"@,
            Key::F => "F"@,
            Key::G => "G"@,
            Key::H => "H"@,
            Key::I => "I"@,
            Key::J => "J"@,
            Key::K => "K"@,
            Key::L => "L"@,
            Key::M => "M"@,
            Key::N => "N"@,
            Key::O => "O"@,
            Key::P => "P"@,
            Key::Q => "Q"@,
            Key::R => "R"@,
            Key::S => "S"@,
            Key::T => "T"@,
            Key::U => "U"@,
            Key::V => "V"@,
            Key::W => "W"@,
            Key::X => "X"@,
            Key::Y => "Y"@,
            Key::Z => "Z"@,
            Key::Enter => "ENTER"@,
            Key::Backspace => "BACKSPACE"@,
            Key::Tab => "TAB"@,
            Key::Escape => "ESC"@,
            Key::Space => "SPACE"@,
            Key::Delete => "DELETE"@,
            Key::Home => "HOME"@,
            Key::End => "END"@,
            Key::PageUp => "PAGEUP"@,
            Key::PageDown => "PAGEDOWN"@,
            Key::Left => "LEFT"@,
            Key::Right => "RIGHT"@,
            Key::Up => "UP"@,
            Key::Down => "DOWN"@,
            Key::F1 => "F1"@,
            Key::F2 => "F2"@,
            Key::F3 => "F3"@,
            Key::F4 => "F4"@,
            Key::F5 => "F5"@,
            Key::F6 => "F6"@,
            Key::F7 => "F7"@,
            Key::F8 => "F8"@,
            Key::F9 => "F9"@,
            Key::F10 => "F10"@,
            Key::F11 => "F11"@,
            Key::F12 => "F12"@,
        }
    }

    /// The name of the key for `ydotool`.
    pub fn to_ydotool(self) -> (name: &'static str)
        ensures
            name@ == self.ydotool_name(),
    {
        match self {
            Key::A => "A",
            Key::B => "B",
            Key::C => "C",
            Key::D => "D",
            Key::E => "E",
            Key::F => "F",
            Key::G => "G",
            Key::H => "H",
            Key::I => "I",
            Key::J => "J",
            Key::K => "K",
            Key::L => "L",
            Key::M => "M",
            Key::N => "N",
            Key::O => "O",
            Key::P => "P",
            Key::Q => "Q",
            Key::R => "R",
            Key::S => "S",
            Key::T => "T",
            Key::U => "U",
            Key::V => "V",
            Key::W => "W",
            Key::X => "X",
            Key::Y => "Y",
            Key::Z => "Z",
            Key::Enter => "ENTER",
            Key::Backspace => "BACKSPACE",
            Key::Tab => "TAB",
            Key::Escape => "ESC",
            Key::Space => "SPACE",
            Key::Delete => "DELETE",
            Key::Home => "HOME",
            Key::End => "END",
            Key::PageUp => "PAGEUP",
            Key::PageDown => "PAGEDOWN",
            Key::Left => "LEFT",
            Key::Right => "RIGHT",
            Key::Up => "UP",
            Key::Down => "DOWN",
            Key::F1 => "F1",
            Key::F2 => "F2",
            Key::F3 => "F3",
            Key::F4 => "F4",
            Key::F5 => "F5",
            Key::F6 => "F6",
            Key::F7 => "F7",
            Key::F8 => "F8",
            Key::F9 => "F9",
            Key::F10 => "F10",
            Key::F11 => "F11",
            Key::F12 => "F12",
        }
    }
}

/// The names of the modifiers, each followed by `+`.
pub open spec fn modifier_prefix(modifiers: Seq<Modifier>) -> Seq<char>
    decreases modifiers.len(),
{
    if modifiers.len() == 0 {
        Seq::empty()
    } else {
        modifier_prefix(modifiers.drop_last()) + modifiers.last().ydotool_name() + seq!['+']
    }
}

/// A key with modifiers as `ydotool` takes it: the names joined by `+`,
/// the key last.
pub open spec fn combo_name(modifiers: Seq<Modifier>, key: Key) -> Seq<char> {
    modifier_prefix(modifiers) + key.ydotool_name()
}

/// A key with modifiers as `ydotool` takes it, such as `LEFTCTRL+A`.
pub fn key_combo_name(modifiers: &[Modifier], key: Key) -> (name: String)
    ensures
        name@ == combo_name(modifiers@, key),
{
    let mut name = String::new();
    let mut i: usize = 0;
    assert(modifiers@.take(0) =~= Seq::<Modifier>::empty());
    while i < modifiers.len()
        invariant
            i <= modifiers@.len(),
            name@ == modifier_prefix(modifiers@.take(i as int)),
        decreases modifiers@.len() - i,
    {
        name.append(modifiers[i].to_ydotool());
        name.push('+');
        proof {
            let next = modifiers@.take(i + 1);
            assert(next.drop_last() =~= modifiers@.take(i as int));
            assert(next.last() == modifiers@[i as int]);
            assert(name@ =~= modifier_prefix(next.drop_last()) + next.last().ydotool_name() + seq![
                '+',
            ]);
        }
        i += 1;
    }
    assert(modifiers@.take(i as int) =~= modifiers@);
    name.append(key.to_ydotool());
    name
}

} // verus!
