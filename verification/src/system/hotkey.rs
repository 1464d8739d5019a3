//! Keyboard shortcuts: their notation, the rules by which two shortcuts collide,
//! and the table that binds shortcuts to actions.

use crate::text::{
    chars_of, has_prefix, join, joined, lowercase, lowercase_of, owned, same, split, split_on,
    starts_with, string_of, texts, trim, trimmed, uppercase, uppercase_of,
};
use vstd::prelude::*;
use vstd::string::*;

verus! {

/// Why a shortcut was refused.
#[derive(Debug)]
pub enum HotkeyError {
    InvalidFormat(String),
    RegistrationFailed(String),
    UnregistrationFailed(String),
    Conflict(String),
    UnsupportedModifier(String),
    UnsupportedKey(String),
}

impl HotkeyError {
    /// The message of the error.
    pub fn to_string(&self) -> (r: String)
        ensures
            r@ == match *self {
                HotkeyError::InvalidFormat(m) => "Invalid shortcut format: "@ + m@,
                HotkeyError::RegistrationFailed(m) => "Failed to register hotkey: "@ + m@,
                HotkeyError::UnregistrationFailed(m) => "Failed to unregister hotkey: "@ + m@,
                HotkeyError::Conflict(m) => "Hotkey conflict: "@ + m@,
                HotkeyError::UnsupportedModifier(m) => "Unsupported modifier: "@ + m@,
                HotkeyError::UnsupportedKey(m) => "Unsupported key: "@ + m@,
            },
    {
        match self {
            HotkeyError::InvalidFormat(m) => owned("Invalid shortcut format: ").concat(m.as_str()),
            HotkeyError::RegistrationFailed(m) => owned("Failed to register hotkey: ").concat(
                m.as_str(),
            ),
            HotkeyError::UnregistrationFailed(m) => owned("Failed to unregister hotkey: ").concat(
                m.as_str(),
            ),
            HotkeyError::Conflict(m) => owned("Hotkey conflict: ").concat(m.as_str()),
            HotkeyError::UnsupportedModifier(m) => owned("Unsupported modifier: ").concat(
                m.as_str(),
            ),
            HotkeyError::UnsupportedKey(m) => owned("Unsupported key: ").concat(m.as_str()),
        }
    }
}

/// A modifier key.
#[derive(Debug, Clone, Copy, PartialEq, Eq, Hash, Structural)]
pub enum Modifier {
    Alt,
    Ctrl,
    Shift,
    /// The command key of Apple keyboards, the Windows key elsewhere.
    Meta,
}

impl Modifier {
    /// The modifier that a lower-case name stands for.
    pub open spec fn from_lower(lower: Seq<char>) -> Option<Modifier> {
        if lower == "alt"@ || lower == "option"@ || lower == "opt"@ {
            Some(Modifier::Alt)
        } else if lower == "ctrl"@ || lower == "control"@ {
            Some(Modifier::Ctrl)
        } else if lower == "shift"@ {
            Some(Modifier::Shift)
        } else if lower == "meta"@ || lower == "cmd"@ || lower == "command"@ || lower == "win"@
            || lower == "super"@ {
            Some(Modifier::Meta)
        } else {
            None
        }
    }

    /// The name shown to the user.
    pub open spec fn display_name(self) -> Seq<char> {
        match self {
            Modifier::Alt => "Alt"@,
            Modifier::Ctrl => "Ctrl"@,
            Modifier::Shift => "Shift"@,
            Modifier::Meta => "Win"@,
        }
    }

    /// The name in accelerator notation.
    pub open spec fn accelerator_name(self) -> Seq<char> {
        match self {
            Modifier::Alt => "Alt"@,
            Modifier::Ctrl => "Ctrl"@,
            Modifier::Shift => "Shift"@,
            Modifier::Meta => "Super"@,
        }
    }

    /// The modifier that a name in lower case stands for.
    pub fn from_lowercase(lower: &str) -> (r: Option<Modifier>)
        ensures
            r == Self::from_lower(lower@),
    {
        if same(lower, "alt") || same(lower, "option") || same(lower, "opt") {
            Some(Modifier::Alt)
        } else if same(lower, "ctrl") || same(lower, "control") {
            Some(Modifier::Ctrl)
        } else if same(lower, "shift") {
            Some(Modifier::Shift)
        } else if same(lower, "meta") || same(lower, "cmd") || same(lower, "command") || same(
            lower,
            "win",
        ) || same(lower, "super") {
            Some(Modifier::Meta)
        } else {
            None
        }
    }

    /// The modifier that a name stands for, whatever its case.
    pub fn from_str_case_insensitive(s: &str) -> (r: Option<Self>)
        ensures
            r == Self::from_lower(lowercase_of(s@)),
    {
        let lower = lowercase(s);
        Self::from_lowercase(lower.as_str())
    }

    /// The name shown to the user. `Meta` is shown under its Windows name.
    pub fn as_str(&self) -> (r: &'static str)
        ensures
            r@ == self.display_name(),
    {
        match self {
            Modifier::Alt => "Alt",
            Modifier::Ctrl => "Ctrl",
            Modifier::Shift => "Shift",
            Modifier::Meta => "Win",
        }
    }

    /// The name in accelerator notation.
    pub fn to_accelerator(&self) -> (r: &'static str)
        ensures
            r@ == self.accelerator_name(),
    {
        match self {
            Modifier::Alt => "Alt",
            Modifier::Ctrl => "Ctrl",
            Modifier::Shift => "Shift",
            Modifier::Meta => "Super",
        }
    }

    /// The name shown to the user.
    pub fn to_string(&self) -> (r: String)
        ensures
            r@ == self.display_name(),
    {
        owned(self.as_str())
    }
}

/// How often `m` occurs in `mods`.
pub open spec fn count_of(mods: Seq<Modifier>, m: Modifier) -> nat
    decreases mods.len(),
{
    if mods.len() == 0 {
        0
    } else {
        count_of(mods.drop_last(), m) + if mods.last() == m {
            1nat
        } else {
            0nat
        }
    }
}

/// Whether two lists hold the same modifiers the same number of times, in any order.
pub open spec fn same_modifiers(a: Seq<Modifier>, b: Seq<Modifier>) -> bool {
    &&& count_of(a, Modifier::Alt) == count_of(b, Modifier::Alt)
    &&& count_of(a, Modifier::Ctrl) == count_of(b, Modifier::Ctrl)
    &&& count_of(a, Modifier::Shift) == count_of(b, Modifier::Shift)
    &&& count_of(a, Modifier::Meta) == count_of(b, Modifier::Meta)
}

/// Whether a character is an ASCII letter or digit.
pub open spec fn is_ascii_alphanumeric(c: char) -> bool {
    ('a' <= c && c <= 'z') || ('A' <= c && c <= 'Z') || ('0' <= c && c <= '9')
}

/// Whether a character is in the ASCII range.
pub open spec fn is_ascii_char(c: char) -> bool {
    c <= '\u{7f}'
}

/// The canonical name of a key, given its name in lower case; `None` for a name
/// that stands for no key. Named keys come first; a single ASCII letter or digit
/// stands for itself in upper case; a name that begins with `digit` or `key`
/// stands for its last character in upper case, where that character is ASCII.
pub open spec fn normalized_key(lower: Seq<char>) -> Option<Seq<char>> {
    if lower == "space"@ || lower == " "@ {
        Some("Space"@)
    } else if lower == "enter"@ || lower == "return"@ {
        Some("Enter"@)
    } else if lower == "escape"@ || lower == "esc"@ {
        Some("Escape"@)
    } else if lower == "tab"@ {
        Some("Tab"@)
    } else if lower == "backspace"@ {
        Some("Backspace"@)
    } else if lower == "delete"@ || lower == "del"@ {
        Some("Delete"@)
    } else if lower == "up"@ || lower == "arrowup"@ {
        Some("ArrowUp"@)
    } else if lower == "down"@ || lower == "arrowdown"@ {
        Some("ArrowDown"@)
    } else if lower == "left"@ || lower == "arrowleft"@ {
        Some("ArrowLeft"@)
    } else if lower == "right"@ || lower == "arrowright"@ {
        Some("ArrowRight"@)
    } else if lower == "home"@ {
        Some("Home"@)
    } else if lower == "end"@ {
        Some("End"@)
    } else if lower == "pageup"@ {
        Some("PageUp"@)
    } else if lower == "pagedown"@ {
        Some("PageDown"@)
    } else if lower == "f1"@ {
        Some("F1"@)
    } else if lower == "f2"@ {
        Some("F2"@)
    } else if lower == "f3"@ {
        Some("F3"@)
    } else if lower == "f4"@ {
        Some("F4"@)
    } else if lower == "f5"@ {
        Some("F5"@)
    } else if lower == "f6"@ {
        Some("F6"@)
    } else if lower == "f7"@ {
        Some("F7"@)
    } else if lower == "f8"@ {
        Some("F8"@)
    } else if lower == "f9"@ {
        Some("F9"@)
    } else if lower == "f10"@ {
        Some("F10"@)
    } else if lower == "f11"@ {
        Some("F11"@)
    } else if lower == "f12"@ {
        Some("F12"@)
    } else if lower.len() == 1 && is_ascii_alphanumeric(lower[0]) {
        Some(uppercase_of(lower))
    } else if has_prefix(lower, "digit"@) || has_prefix(lower, "key"@) {
        if lower.len() > 0 && is_ascii_char(lower.last()) {
            Some(uppercase_of(seq![lower.last()]))
        } else {
            None
        }
    } else {
        None
    }
}

/// The name of a key among the named keys, given its name in lower case.
fn named_key(lower: &str) -> (r: Option<&'static str>)
    ensures
        match r {
            Some(k) => normalized_key(lower@) == Some(k@),
            None => normalized_key(lower@) == if lower@.len() == 1 && is_ascii_alphanumeric(
                lower@[0],
            ) {
                Some(uppercase_of(lower@))
            } else if has_prefix(lower@, "digit"@) || has_prefix(lower@, "key"@) {
                if lower@.len() > 0 && is_ascii_char(lower@.last()) {
                    Some(uppercase_of(seq![lower@.last()]))
                } else {
                    None
                }
            } else {
                None
            },
        },
{
    if same(lower, "space") || same(lower, " ") {
        Some("Space")
    } else if same(lower, "enter") || same(lower, "return") {
        Some("Enter")
    } else if same(lower, "escape") || same(lower, "esc") {
        Some("Escape")
    } else if same(lower, "tab") {
        Some("Tab")
    } else if same(lower, "backspace") {
        Some("Backspace")
    } else if same(lower, "delete") || same(lower, "del") {
        Some("Delete")
    } else if same(lower, "up") || same(lower, "arrowup") {
        Some("ArrowUp")
    } else if same(lower, "down") || same(lower, "arrowdown") {
        Some("ArrowDown")
    } else if same(lower, "left") || same(lower, "arrowleft") {
        Some("ArrowLeft")
    } else if same(lower, "right") || same(lower, "arrowright") {
        Some("ArrowRight")
    } else if same(lower, "home") {
        Some("Home")
    } else if same(lower, "end") {
        Some("End")
    } else if same(lower, "pageup") {
        Some("PageUp")
    } else if same(lower, "pagedown") {
        Some("PageDown")
    } else if same(lower, "f1") {
        Some("F1")
    } else if same(lower, "f2") {
        Some("F2")
    } else if same(lower, "f3") {
        Some("F3")
    } else if same(lower, "f4") {
        Some("F4")
    } else if same(lower, "f5") {
        Some("F5")
    } else if same(lower, "f6") {
        Some("F6")
    } else if same(lower, "f7") {
        Some("F7")
    } else if same(lower, "f8") {
        Some("F8")
    } else if same(lower, "f9") {
        Some("F9")
    } else if same(lower, "f10") {
        Some("F10")
    } else if same(lower, "f11") {
        Some("F11")
    } else if same(lower, "f12") {
        Some("F12")
    } else {
        None
    }
}

/// A combination of modifier keys and one main key.
#[derive(Debug, PartialEq, Eq, Hash)]
pub struct Shortcut {
    pub modifiers: Vec<Modifier>,
    /// The main key, such as `Space`, `A` or `F1`.
    pub key: String,
}

/// What a text says as a shortcut.
pub enum ParsedShortcut {
    /// A shortcut with these modifiers and this key.
    Parsed { modifiers: Seq<Modifier>, key: Seq<char> },
    /// The text names a key without a modifier.
    MissingModifier,
    /// This part names no modifier.
    UnsupportedModifier(Seq<char>),
    /// This part names no key.
    UnsupportedKey(Seq<char>),
}

/// The parts of a text between `+` signs, each without surrounding white space.
pub open spec fn shortcut_parts(s: Seq<char>) -> Seq<Seq<char>> {
    let raw = split_on(s, '+');
    Seq::new(raw.len(), |i: int| trimmed(raw[i]))
}

/// The modifiers that the parts name, each listed once, in the order of first
/// mention; or the first part that names none.
pub open spec fn parsed_modifiers(parts: Seq<Seq<char>>) -> Result<Seq<Modifier>, Seq<char>>
    decreases parts.len(),
{
    if parts.len() == 0 {
        Ok(Seq::empty())
    } else {
        match parsed_modifiers(parts.drop_last()) {
            Err(part) => Err(part),
            Ok(mods) => match Modifier::from_lower(lowercase_of(parts.last())) {
                None => Err(parts.last()),
                Some(m) => Ok(
                    if mods.contains(m) {
                        mods
                    } else {
                        mods.push(m)
                    },
                ),
            },
        }
    }
}

/// What a text says as a shortcut: the last part names the key, every part
/// before it a modifier. A bad modifier is reported before a bad key.
pub open spec fn parsed_shortcut(s: Seq<char>) -> ParsedShortcut {
    let parts = shortcut_parts(s);
    if parts.len() <= 1 {
        ParsedShortcut::MissingModifier
    } else {
        match parsed_modifiers(parts.drop_last()) {
            Err(part) => ParsedShortcut::UnsupportedModifier(part),
            Ok(mods) => match normalized_key(lowercase_of(parts.last())) {
                None => ParsedShortcut::UnsupportedKey(parts.last()),
                Some(key) => ParsedShortcut::Parsed { modifiers: mods, key },
            },
        }
    }
}

/// Whether a lower-case accelerator is one that the operating system keeps for itself.
pub open spec fn is_system_accelerator(lower: Seq<char>) -> bool {
    lower == "ctrl+c"@ || lower == "ctrl+v"@ || lower == "ctrl+x"@ || lower == "ctrl+z"@ || lower
        == "ctrl+a"@ || lower == "ctrl+s"@ || lower == "ctrl+q"@ || lower == "ctrl+w"@ || lower
        == "super+space"@ || lower == "alt+f4"@ || lower == "alt+tab"@
}

fn has_modifier(mods: &Vec<Modifier>, m: Modifier) -> (r: bool)
    ensures
        r == mods@.contains(m),
{
    let mut i: usize = 0;
    while i < mods.len()
        invariant
            i <= mods.len(),
            forall|k: int| 0 <= k < i ==> mods@[k] != m,
        decreases mods.len() - i,
    {
        if mods[i] == m {
            return true;
        }
        i = i + 1;
    }
    false
}

fn count_modifier(mods: &Vec<Modifier>, m: Modifier) -> (r: usize)
    ensures
        r == count_of(mods@, m),
{
    let mut count: usize = 0;
    let mut i: usize = 0;
    assert(mods@.subrange(0, 0) =~= Seq::<Modifier>::empty());
    while i < mods.len()
        invariant
            i <= mods.len(),
            count <= i,
            count == count_of(mods@.subrange(0, i as int), m),
        decreases mods.len() - i,
    {
        assert(mods@.subrange(0, i + 1).drop_last() =~= mods@.subrange(0, i as int));
        if mods[i] == m {
            count = count + 1;
        }
        i = i + 1;
    }
    assert(mods@.subrange(0, mods.len() as int) =~= mods@);
    count
}

impl Clone for Shortcut {
    fn clone(&self) -> (r: Self)
        ensures
            r.modifiers@ == self.modifiers@,
            r.key@ == self.key@,
    {
        let mut modifiers: Vec<Modifier> = Vec::new();
        let mut i: usize = 0;
        while i < self.modifiers.len()
            invariant
                i <= self.modifiers.len(),
                modifiers@ == self.modifiers@.subrange(0, i as int),
            decreases self.modifiers.len() - i,
        {
            modifiers.push(self.modifiers[i]);
            i = i + 1;
            assert(modifiers@ =~= self.modifiers@.subrange(0, i as int));
        }
        assert(modifiers@ =~= self.modifiers@);
        Shortcut { modifiers, key: self.key.clone() }
    }
}

impl Shortcut {
    /// The parts of the accelerator notation: the modifiers, then the key.
    pub open spec fn accelerator_parts(&self) -> Seq<Seq<char>> {
        Seq::new(self.modifiers@.len(), |i: int| self.modifiers@[i].accelerator_name()).push(
            self.key@,
        )
    }

    /// The shortcut in accelerator notation, such as `Ctrl+Shift+A`.
    pub open spec fn accelerator_text(&self) -> Seq<char> {
        joined(self.accelerator_parts(), "+"@)
    }

    /// The parts of the notation shown to the user: the modifiers, then the key.
    pub open spec fn display_parts(&self) -> Seq<Seq<char>> {
        Seq::new(self.modifiers@.len(), |i: int| self.modifiers@[i].display_name()).push(self.key@)
    }

    /// The shortcut as shown to the user.
    pub open spec fn display_text(&self) -> Seq<char> {
        joined(self.display_parts(), "+"@)
    }

    /// Whether the operating system keeps this combination for itself.
    pub open spec fn is_system(&self) -> bool {
        is_system_accelerator(lowercase_of(self.accelerator_text()))
    }

    /// Whether two shortcuts are the same combination: the keys agree apart from
    /// case and the modifiers agree apart from order.
    pub open spec fn conflicts(&self, other: &Shortcut) -> bool {
        lowercase_of(self.key@) == lowercase_of(other.key@) && same_modifiers(
            self.modifiers@,
            other.modifiers@,
        )
    }

    /// Whether `r` is what the text `s` says as a shortcut.
    pub open spec fn agrees(r: Result<Shortcut, HotkeyError>, s: Seq<char>) -> bool {
        match parsed_shortcut(s) {
            ParsedShortcut::Parsed { modifiers, key } => r matches Ok(shortcut)
                && shortcut.modifiers@ == modifiers && shortcut.key@ == key,
            ParsedShortcut::MissingModifier => r matches Err(HotkeyError::InvalidFormat(m)) && m@
                == "Shortcut must have at least one modifier"@,
            ParsedShortcut::UnsupportedModifier(part) => r matches Err(
                HotkeyError::UnsupportedModifier(m),
            ) && m@ == part,
            ParsedShortcut::UnsupportedKey(part) => r matches Err(HotkeyError::UnsupportedKey(m))
                && m@ == part,
        }
    }

    pub fn new(modifiers: Vec<Modifier>, key: &str) -> (r: Self)
        ensures
            r.modifiers == modifiers,
            r.key@ == key@,
    {
        Shortcut { modifiers, key: owned(key) }
    }

    /// A shortcut with one modifier.
    pub fn with_modifier(modifier: Modifier, key: &str) -> (r: Self)
        ensures
            r.modifiers@ == seq![modifier],
            r.key@ == key@,
    {
        let mut modifiers: Vec<Modifier> = Vec::new();
        modifiers.push(modifier);
        assert(modifiers@ =~= seq![modifier]);
        Shortcut { modifiers, key: owned(key) }
    }

    /// Reads a shortcut from a text such as `Alt+Space` or `Ctrl+Shift+A`.
    pub fn parse(s: &str) -> (r: Result<Self, HotkeyError>)
        ensures
            Self::agrees(r, s@),
    {
        let raw = split(s, '+');
        let mut parts: Vec<String> = Vec::new();
        let mut i: usize = 0;
        while i < raw.len()
            invariant
                i <= raw.len(),
                parts@.len() == i,
                forall|k: int| 0 <= k < i ==> parts@[k]@ == trimmed(#[trigger] raw@[k]@),
            decreases raw.len() - i,
        {
            parts.push(trim(raw[i].as_str()));
            i = i + 1;
        }
        assert(texts(parts@) =~= shortcut_parts(s@));
        if parts.len() <= 1 {
            return Err(
                HotkeyError::InvalidFormat(owned("Shortcut must have at least one modifier")),
            );
        }
        let last = parts.len() - 1;
        let ghost names = texts(parts@).drop_last();
        let mut modifiers: Vec<Modifier> = Vec::new();
        let mut j: usize = 0;
        assert(names.subrange(0, 0) =~= Seq::<Seq<char>>::empty());
        while j < last
            invariant
                j <= last,
                last == parts.len() - 1,
                names == texts(parts@).drop_last(),
                texts(parts@) == shortcut_parts(s@),
                parsed_modifiers(names.subrange(0, j as int)) == Ok::<Seq<Modifier>, Seq<char>>(
                    modifiers@,
                ),
            decreases last - j,
        {
            assert(names.subrange(0, j + 1).drop_last() =~= names.subrange(0, j as int));
            assert(names.subrange(0, j + 1).last() == parts@[j as int]@);
            match Modifier::from_str_case_insensitive(parts[j].as_str()) {
                Some(modifier) => {
                    if !has_modifier(&modifiers, modifier) {
                        modifiers.push(modifier);
                    }
                },
                None => {
                    proof {
                        assert(parsed_modifiers(names.subrange(0, j + 1)) == Err::<
                            Seq<Modifier>,
                            Seq<char>,
                        >(parts@[j as int]@));
                        lemma_modifiers_fail_stays(names, j + 1);
                        assert(shortcut_parts(s@).drop_last() == names);
                    }
                    return Err(HotkeyError::UnsupportedModifier(parts[j].clone()));
                },
            }
            j = j + 1;
        }
        assert(names.subrange(0, last as int) =~= names);
        assert(texts(parts@).last() == parts@[last as int]@);
        match Self::normalize_key(parts[last].as_str()) {
            Ok(key) => Ok(Shortcut { modifiers, key }),
            Err(e) => Err(e),
        }
    }

    /// The canonical name of a key, given its name in lower case.
    pub fn normalize_lowercase(lower: &str) -> (r: Option<String>)
        ensures
            match r {
                Some(key) => normalized_key(lower@) == Some(key@),
                None => normalized_key(lower@) is None,
            },
    {
        match named_key(lower) {
            Some(name) => Some(owned(name)),
            None => {
                let v = chars_of(lower);
                if v.len() == 1 && Self::is_letter_or_digit(v[0]) {
                    Some(uppercase(lower))
                } else if starts_with(lower, "digit") || starts_with(lower, "key") {
                    if v.len() > 0 && v[v.len() - 1] <= '\u{7f}' {
                        let mut tail: Vec<char> = Vec::new();
                        tail.push(v[v.len() - 1]);
                        assert(tail@ =~= seq![lower@.last()]);
                        let text = string_of(&tail);
                        Some(uppercase(text.as_str()))
                    } else {
                        None
                    }
                } else {
                    None
                }
            },
        }
    }

    fn is_letter_or_digit(c: char) -> (r: bool)
        ensures
            r == is_ascii_alphanumeric(c),
    {
        ('a' <= c && c <= 'z') || ('A' <= c && c <= 'Z') || ('0' <= c && c <= '9')
    }

    /// The canonical name of a key, whatever the case of its name; a name that
    /// stands for no key is refused.
    pub fn normalize_key(key: &str) -> (r: Result<String, HotkeyError>)
        ensures
            match r {
                Ok(name) => normalized_key(lowercase_of(key@)) == Some(name@),
                Err(e) => normalized_key(lowercase_of(key@)) is None && (e matches
                    HotkeyError::UnsupportedKey(m) && m@ == key@),
            },
    {
        let lower = lowercase(key);
        match Self::normalize_lowercase(lower.as_str()) {
            Some(name) => Ok(name),
            None => Err(HotkeyError::UnsupportedKey(owned(key))),
        }
    }

    /// The shortcut in accelerator notation.
    pub fn to_accelerator(&self) -> (r: String)
        ensures
            r@ == self.accelerator_text(),
    {
        let mut parts: Vec<String> = Vec::new();
        let mut i: usize = 0;
        while i < self.modifiers.len()
            invariant
                i <= self.modifiers.len(),
                parts@.len() == i,
                forall|k: int|
                    0 <= k < i ==> parts@[k]@ == (#[trigger] self.modifiers@[k]).accelerator_name(),
            decreases self.modifiers.len() - i,
        {
            parts.push(owned(self.modifiers[i].to_accelerator()));
            i = i + 1;
        }
        parts.push(self.key.clone());
        assert(texts(parts@) =~= self.accelerator_parts());
        join(&parts, "+")
    }

    /// The shortcut as shown to the user.
    pub fn to_string(&self) -> (r: String)
        ensures
            r@ == self.display_text(),
    {
        let mut parts: Vec<String> = Vec::new();
        let mut i: usize = 0;
        while i < self.modifiers.len()
            invariant
                i <= self.modifiers.len(),
                parts@.len() == i,
                forall|k: int|
                    0 <= k < i ==> parts@[k]@ == (#[trigger] self.modifiers@[k]).display_name(),
            decreases self.modifiers.len() - i,
        {
            parts.push(owned(self.modifiers[i].as_str()));
            i = i + 1;
        }
        parts.push(self.key.clone());
        assert(texts(parts@) =~= self.display_parts());
        join(&parts, "+")
    }

    /// Whether a lower-case accelerator is kept by the operating system.
    pub fn is_system_shortcut(lower: &str) -> (r: bool)
        ensures
            r == is_system_accelerator(lower@),
    {
        same(lower, "ctrl+c") || same(lower, "ctrl+v") || same(lower, "ctrl+x") || same(
            lower,
            "ctrl+z",
        ) || same(lower, "ctrl+a") || same(lower, "ctrl+s") || same(lower, "ctrl+q") || same(
            lower,
            "ctrl+w",
        ) || same(lower, "super+space") || same(lower, "alt+f4") || same(lower, "alt+tab")
    }

    /// Whether the operating system keeps this combination for itself.
    pub fn conflicts_with_system(&self) -> (r: bool)
        ensures
            r == self.is_system(),
    {
        let accelerator = self.to_accelerator();
        let lower = lowercase(accelerator.as_str());
        Self::is_system_shortcut(lower.as_str())
    }

    /// Whether two shortcuts are the same combination.
    pub fn conflicts_with(&self, other: &Shortcut) -> (r: bool)
        ensures
            r == self.conflicts(other),
    {
        let mine = lowercase(self.key.as_str());
        let theirs = lowercase(other.key.as_str());
        if !(mine == theirs) {
            return false;
        }
        count_modifier(&self.modifiers, Modifier::Alt) == count_modifier(
            &other.modifiers,
            Modifier::Alt,
        ) && count_modifier(&self.modifiers, Modifier::Ctrl) == count_modifier(
            &other.modifiers,
            Modifier::Ctrl,
        ) && count_modifier(&self.modifiers, Modifier::Shift) == count_modifier(
            &other.modifiers,
            Modifier::Shift,
        ) && count_modifier(&self.modifiers, Modifier::Meta) == count_modifier(
            &other.modifiers,
            Modifier::Meta,
        )
    }
}

impl std::str::FromStr for Shortcut {
    type Err = HotkeyError;

    fn from_str(s: &str) -> (r: Result<Self, HotkeyError>)
        ensures
            Shortcut::agrees(r, s@),
    {
        Shortcut::parse(s)
    }
}

proof fn lemma_modifiers_fail_stays(names: Seq<Seq<char>>, k: int)
    requires
        0 <= k <= names.len(),
        parsed_modifiers(names.subrange(0, k)) is Err,
    ensures
        parsed_modifiers(names) == parsed_modifiers(names.subrange(0, k)),
    decreases names.len() - k,
{
    if k == names.len() {
        assert(names.subrange(0, k) =~= names);
    } else {
        assert(names.subrange(0, k + 1).drop_last() =~= names.subrange(0, k));
        lemma_modifiers_fail_stays(names, k + 1);
    }
}

/// Colliding is an equivalence: every shortcut collides with itself, and the
/// relation is symmetric and transitive.
pub proof fn lemma_conflicts_is_equivalence(a: Shortcut, b: Shortcut, c: Shortcut)
    ensures
        a.conflicts(&a),
        a.conflicts(&b) == b.conflicts(&a),
        a.conflicts(&b) && b.conflicts(&c) ==> a.conflicts(&c),
{
}

/// A parsed shortcut lists no modifier twice.
pub proof fn lemma_parsed_modifiers_distinct(parts: Seq<Seq<char>>)
    ensures
        parsed_modifiers(parts) matches Ok(mods) ==> mods.no_duplicates(),
    decreases parts.len(),
{
    if parts.len() > 0 {
        lemma_parsed_modifiers_distinct(parts.drop_last());
    }
}

/// What a shortcut can be bound to.
#[derive(Debug, PartialEq, Eq, Hash)]
pub enum HotkeyAction {
    OpenFlightConsole,
    OpenRadarPanel,
    OpenIncidentRadar,
    OpenSpecScanner,
    OpenHangar,
    /// An action of the application's own, under its name.
    Custom(String),
}

impl Clone for HotkeyAction {
    fn clone(&self) -> (r: Self)
        ensures
            r == *self,
    {
        match self {
            HotkeyAction::OpenFlightConsole => HotkeyAction::OpenFlightConsole,
            HotkeyAction::OpenRadarPanel => HotkeyAction::OpenRadarPanel,
            HotkeyAction::OpenIncidentRadar => HotkeyAction::OpenIncidentRadar,
            HotkeyAction::OpenSpecScanner => HotkeyAction::OpenSpecScanner,
            HotkeyAction::OpenHangar => HotkeyAction::OpenHangar,
            HotkeyAction::Custom(name) => HotkeyAction::Custom(name.clone()),
        }
    }
}

/// The action of the first binding that collides with `target`.
pub open spec fn action_for(
    entries: Seq<(Shortcut, HotkeyAction)>,
    target: Shortcut,
) -> Option<HotkeyAction>
    decreases entries.len(),
{
    if entries.len() == 0 {
        None
    } else if entries[0].0.conflicts(&target) {
        Some(entries[0].1)
    } else {
        action_for(entries.drop_first(), target)
    }
}

/// The bindings that do not collide with `target`, in their order.
pub open spec fn without_conflicts(
    entries: Seq<(Shortcut, HotkeyAction)>,
    target: Shortcut,
) -> Seq<(Shortcut, HotkeyAction)>
    decreases entries.len(),
{
    if entries.len() == 0 {
        Seq::empty()
    } else if entries.last().0.conflicts(&target) {
        without_conflicts(entries.drop_last(), target)
    } else {
        without_conflicts(entries.drop_last(), target).push(entries.last())
    }
}

/// Whether no two bindings collide and none is kept by the operating system.
pub open spec fn bindings_consistent(entries: Seq<(Shortcut, HotkeyAction)>) -> bool {
    &&& forall|i: int, j: int|
        0 <= i < j < entries.len() ==> !(#[trigger] entries[i]).0.conflicts(
            &(#[trigger] entries[j]).0,
        )
    &&& forall|i: int| 0 <= i < entries.len() ==> !(#[trigger] entries[i]).0.is_system()
}

proof fn lemma_without_conflicts_members(entries: Seq<(Shortcut, HotkeyAction)>, target: Shortcut)
    ensures
        without_conflicts(entries, target).len() <= entries.len(),
        forall|k: int|
            0 <= k < without_conflicts(entries, target).len() ==> entries.contains(
                #[trigger] without_conflicts(entries, target)[k],
            ) && !without_conflicts(entries, target)[k].0.conflicts(&target),
        without_conflicts(entries, target).len() == entries.len() <==> (forall|i: int|
            0 <= i < entries.len() ==> !(#[trigger] entries[i]).0.conflicts(&target)),
        without_conflicts(entries, target).len() == entries.len() ==> without_conflicts(
            entries,
            target,
        ) == entries,
        without_conflicts(entries, target).len() != entries.len() ==> exists|i: int|
            0 <= i < entries.len() && (#[trigger] entries[i]).0.conflicts(&target),
    decreases entries.len(),
{
    if entries.len() > 0 {
        let front = entries.drop_last();
        lemma_without_conflicts_members(front, target);
        let kept = without_conflicts(front, target);
        assert forall|k: int| 0 <= k < kept.len() implies entries.contains(#[trigger] kept[k]) by {
            let j = choose|j: int| 0 <= j < front.len() && front[j] == kept[k];
            assert(entries[j] == kept[k]);
        }
        if entries.last().0.conflicts(&target) {
            assert(without_conflicts(entries, target).len() < entries.len());
            assert(entries[entries.len() - 1].0.conflicts(&target));
        } else {
            assert(entries.contains(entries.last())) by {
                assert(entries[entries.len() - 1] == entries.last());
            }
            if kept.len() == front.len() {
                assert(kept.push(entries.last()) =~= entries);
                assert forall|i: int| 0 <= i < entries.len() implies !(
                #[trigger] entries[i]).0.conflicts(&target) by {
                    if i < front.len() {
                        assert(front[i] == entries[i]);
                    }
                }
            } else {
                let i = choose|i: int|
                    0 <= i < front.len() && (#[trigger] front[i]).0.conflicts(&target);
                assert(entries[i] == front[i]);
                assert(entries[i].0.conflicts(&target));
            }
        }
    }
}

proof fn lemma_without_conflicts_consistent(
    entries: Seq<(Shortcut, HotkeyAction)>,
    target: Shortcut,
)
    requires
        bindings_consistent(entries),
    ensures
        bindings_consistent(without_conflicts(entries, target)),
    decreases entries.len(),
{
    if entries.len() > 0 {
        let front = entries.drop_last();
        assert(bindings_consistent(front)) by {
            assert forall|i: int, j: int| 0 <= i < j < front.len() implies !(
            #[trigger] front[i]).0.conflicts(&(#[trigger] front[j]).0) by {
                assert(front[i] == entries[i] && front[j] == entries[j]);
            }
            assert forall|i: int| 0 <= i < front.len() implies !(#[trigger] front[i]).0.is_system() by {
                assert(front[i] == entries[i]);
            }
        }
        lemma_without_conflicts_consistent(front, target);
        lemma_without_conflicts_members(front, target);
        let kept = without_conflicts(front, target);
        if !entries.last().0.conflicts(&target) {
            let all = kept.push(entries.last());
            assert forall|i: int, j: int| 0 <= i < j < all.len() implies !(
            #[trigger] all[i]).0.conflicts(&(#[trigger] all[j]).0) by {
                if j < kept.len() {
                    assert(all[i] == kept[i] && all[j] == kept[j]);
                } else {
                    assert(all[i] == kept[i]);
                    let k = choose|k: int| 0 <= k < front.len() && front[k] == kept[i];
                    assert(entries[k] == front[k]);
                    assert(entries[entries.len() - 1] == all[j]);
                }
            }
            assert forall|i: int| 0 <= i < all.len() implies !(#[trigger] all[i]).0.is_system() by {
                if i < kept.len() {
                    assert(all[i] == kept[i]);
                } else {
                    assert(all[i] == entries[entries.len() - 1]);
                }
            }
        }
    }
}

/// The table that binds shortcuts to actions.
pub struct HotkeyManager {
    registered: Vec<(Shortcut, HotkeyAction)>,
    active: bool,
}

impl HotkeyManager {
    /// The bindings, in the order of their registration.
    pub closed spec fn entries(&self) -> Seq<(Shortcut, HotkeyAction)> {
        self.registered@
    }

    /// Whether the table is switched on.
    pub closed spec fn active(&self) -> bool {
        self.active
    }

    /// Whether some binding collides with `shortcut`.
    pub open spec fn holds(&self, shortcut: &Shortcut) -> bool {
        exists|i: int|
            0 <= i < self.entries().len() && (#[trigger] self.entries()[i]).0.conflicts(shortcut)
    }

    /// Whether no two bindings collide and none is kept by the operating system.
    pub open spec fn consistent(&self) -> bool {
        bindings_consistent(self.entries())
    }

    pub fn new() -> (r: Self)
        ensures
            r.entries() == Seq::<(Shortcut, HotkeyAction)>::empty(),
            !r.active(),
            r.consistent(),
    {
        HotkeyManager { registered: Vec::new(), active: false }
    }

    fn find(&self, shortcut: &Shortcut) -> (r: Option<usize>)
        ensures
            match r {
                Some(i) => i < self.entries().len() && self.entries()[i as int].0.conflicts(
                    shortcut,
                ) && (forall|k: int| 0 <= k < i ==> !(#[trigger] self.entries()[k]).0.conflicts(
                    shortcut,
                )) && action_for(self.entries(), *shortcut) == Some(self.entries()[i as int].1),
                None => !self.holds(shortcut) && action_for(self.entries(), *shortcut) is None,
            },
    {
        let mut i: usize = 0;
        assert(self.registered@.subrange(0, self.registered@.len() as int) =~= self.registered@);
        while i < self.registered.len()
            invariant
                i <= self.registered.len(),
                forall|k: int| 0 <= k < i ==> !(#[trigger] self.registered@[k]).0.conflicts(shortcut),
                action_for(self.registered@, *shortcut) == action_for(
                    self.registered@.subrange(i as int, self.registered@.len() as int),
                    *shortcut,
                ),
            decreases self.registered.len() - i,
        {
            let ghost rest = self.registered@.subrange(i as int, self.registered@.len() as int);
            assert(rest[0] == self.registered@[i as int]);
            assert(rest.drop_first() =~= self.registered@.subrange(
                i + 1,
                self.registered@.len() as int,
            ));
            if self.registered[i].0.conflicts_with(shortcut) {
                return Some(i);
            }
            i = i + 1;
        }
        None
    }

    /// Binds `shortcut` to `action`. A combination that the operating system
    /// keeps, or that collides with a binding of the table, is refused and the
    /// table stays as it is; the first check decides the message.
    pub fn register(&mut self, shortcut: Shortcut, action: HotkeyAction) -> (r: Result<
        (),
        HotkeyError,
    >)
        ensures
            final(self).active() == old(self).active(),
            shortcut.is_system() ==> (r matches Err(HotkeyError::Conflict(m)) && m@ == "Shortcut "@
                + shortcut.display_text() + " conflicts with system shortcuts"@),
            !shortcut.is_system() && old(self).holds(&shortcut) ==> (r matches Err(
                HotkeyError::Conflict(m),
            ) && m@ == "Shortcut "@ + shortcut.display_text() + " is already registered"@),
            r is Err ==> final(self).entries() == old(self).entries(),
            r is Ok <==> !shortcut.is_system() && !old(self).holds(&shortcut),
            r is Ok ==> final(self).entries() == old(self).entries().push((shortcut, action)),
            old(self).consistent() ==> final(self).consistent(),
    {
        if shortcut.conflicts_with_system() {
            let message = owned("Shortcut ").concat(shortcut.to_string().as_str()).concat(
                " conflicts with system shortcuts",
            );
            return Err(HotkeyError::Conflict(message));
        }
        match self.find(&shortcut) {
            Some(_) => {
                let message = owned("Shortcut ").concat(shortcut.to_string().as_str()).concat(
                    " is already registered",
                );
                Err(HotkeyError::Conflict(message))
            },
            None => {
                let ghost before = self.registered@;
                self.registered.push((shortcut, action));
                proof {
                    let after = self.registered@;
                    if bindings_consistent(before) {
                        assert forall|i: int, j: int| 0 <= i < j < after.len() implies !(
                        #[trigger] after[i]).0.conflicts(&(#[trigger] after[j]).0) by {
                            assert(after[i] == before[i]);
                            if j < before.len() {
                                assert(after[j] == before[j]);
                            }
                        }
                        assert forall|i: int| 0 <= i < after.len() implies !(
                        #[trigger] after[i]).0.is_system() by {
                            if i < before.len() {
                                assert(after[i] == before[i]);
                            }
                        }
                    }
                }
                Ok(())
            },
        }
    }

    /// Removes every binding that collides with `shortcut`. Where there is none,
    /// the call fails and the table stays as it is.
    pub fn unregister(&mut self, shortcut: &Shortcut) -> (r: Result<(), HotkeyError>)
        ensures
            final(self).active() == old(self).active(),
            final(self).entries() == without_conflicts(old(self).entries(), *shortcut),
            r is Ok <==> old(self).holds(shortcut),
            r is Err ==> final(self).entries() == old(self).entries(),
            r matches Err(e) ==> (e matches HotkeyError::UnregistrationFailed(m) && m@
                == "Shortcut "@ + shortcut.display_text() + " was not registered"@),
            !final(self).holds(shortcut),
            old(self).consistent() ==> final(self).consistent(),
    {
        let ghost before = self.registered@;
        let mut previous: Vec<(Shortcut, HotkeyAction)> = Vec::new();
        std::mem::swap(&mut self.registered, &mut previous);
        let original_len = previous.len();
        assert(before.subrange(0, 0) =~= Seq::<(Shortcut, HotkeyAction)>::empty());
        for entry in it: previous
            invariant
                it.seq() == before,
                self.registered@ == without_conflicts(before.subrange(0, it.index() as int), *shortcut),
                self.active == old(self).active,
        {
            assert(before.subrange(0, it.index() + 1).drop_last() =~= before.subrange(
                0,
                it.index() as int,
            ));
            if !entry.0.conflicts_with(shortcut) {
                self.registered.push(entry);
            }
        }
        assert(before.subrange(0, before.len() as int) =~= before);
        proof {
            lemma_without_conflicts_members(before, *shortcut);
            if bindings_consistent(before) {
                lemma_without_conflicts_consistent(before, *shortcut);
            }
            let kept = without_conflicts(before, *shortcut);
            if kept.len() == before.len() {
                assert(!old(self).holds(shortcut)) by {
                    if old(self).holds(shortcut) {
                        let i = choose|i: int|
                            0 <= i < before.len() && (#[trigger] before[i]).0.conflicts(shortcut);
                        assert(!before[i].0.conflicts(shortcut));
                    }
                }
            } else {
                let i = choose|i: int|
                    0 <= i < before.len() && (#[trigger] before[i]).0.conflicts(shortcut);
                assert(old(self).entries()[i].0.conflicts(shortcut));
                assert(old(self).holds(shortcut));
            }
            assert(!final(self).holds(shortcut)) by {
                if final(self).holds(shortcut) {
                    let i = choose|i: int|
                        0 <= i < kept.len() && (#[trigger] kept[i]).0.conflicts(shortcut);
                    assert(!kept[i].0.conflicts(shortcut));
                }
            }
        }
        if self.registered.len() == original_len {
            let message = owned("Shortcut ").concat(shortcut.to_string().as_str()).concat(
                " was not registered",
            );
            return Err(HotkeyError::UnregistrationFailed(message));
        }
        Ok(())
    }

    /// Removes every binding. Always succeeds.
    pub fn unregister_all(&mut self) -> (r: Result<(), HotkeyError>)
        ensures
            r is Ok,
            final(self).entries() == Seq::<(Shortcut, HotkeyAction)>::empty(),
            final(self).active() == old(self).active(),
            final(self).consistent(),
    {
        self.registered = Vec::new();
        Ok(())
    }

    /// The action of the first binding that collides with `shortcut`.
    pub fn get_action(&self, shortcut: &Shortcut) -> (r: Option<HotkeyAction>)
        ensures
            r == action_for(self.entries(), *shortcut),
            r is Some <==> self.holds(shortcut),
    {
        match self.find(shortcut) {
            Some(i) => Some(self.registered[i].1.clone()),
            None => None,
        }
    }

    /// Whether some binding collides with `shortcut`.
    pub fn is_registered(&self, shortcut: &Shortcut) -> (r: bool)
        ensures
            r == self.holds(shortcut),
    {
        self.find(shortcut).is_some()
    }

    /// A copy of the bindings, in the order of their registration.
    pub fn get_all_registered(&self) -> (r: Vec<(Shortcut, HotkeyAction)>)
        ensures
            r@.len() == self.entries().len(),
            forall|i: int|
                0 <= i < r@.len() ==> (#[trigger] r@[i]).0.modifiers@
                    == self.entries()[i].0.modifiers@ && r@[i].0.key@ == self.entries()[i].0.key@
                    && r@[i].1 == self.entries()[i].1,
    {
        let mut out: Vec<(Shortcut, HotkeyAction)> = Vec::new();
        let mut i: usize = 0;
        while i < self.registered.len()
            invariant
                i <= self.registered.len(),
                out@.len() == i,
                forall|k: int|
                    0 <= k < i ==> (#[trigger] out@[k]).0.modifiers@
                        == self.registered@[k].0.modifiers@ && out@[k].0.key@
                        == self.registered@[k].0.key@ && out@[k].1 == self.registered@[k].1,
            decreases self.registered.len() - i,
        {
            out.push((self.registered[i].0.clone(), self.registered[i].1.clone()));
            i = i + 1;
        }
        out
    }

    /// Switches the table on or off.
    pub fn set_active(&mut self, active: bool)
        ensures
            final(self).active() == active,
            final(self).entries() == old(self).entries(),
    {
        self.active = active;
    }

    pub fn is_active(&self) -> (r: bool)
        ensures
            r == self.active(),
    {
        self.active
    }
}

impl Default for HotkeyManager {
    fn default() -> (r: Self)
        ensures
            r.entries() == Seq::<(Shortcut, HotkeyAction)>::empty(),
            !r.active(),
    {
        HotkeyManager::new()
    }
}

} // verus!
