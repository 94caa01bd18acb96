//! Keys of the keyboard, and what each does in a terminal.
use vstd::prelude::*;
use vstd::string::*;

use crate::text;
use crate::text::{ascii_folded, decimal};
use crate::views::opt_view;

verus! {

/// A key, whatever is held down beside it.
#[derive(Clone, Copy, Debug, PartialEq, Eq, Structural)]
pub enum Key {
    /// One of the letters from `a` to `z`.
    Letter(char),
    /// One of the digits from `0` to `9`.
    Digit(char),
    /// One of the function keys, from the first to the twelfth.
    Function(u8),
    Space,
    Enter,
    Backspace,
    Tab,
    Escape,
    ArrowUp,
    ArrowDown,
    ArrowLeft,
    ArrowRight,
    Home,
    End,
    Insert,
    Delete,
    PageUp,
    PageDown,
}

/// What is held down beside a key.
#[derive(Clone, Copy, Debug, PartialEq, Eq, Structural)]
pub struct Modifiers {
    pub shift: bool,
    pub alt: bool,
    pub control: bool,
    pub platform: bool,
}

/// No modifier.
pub open spec fn unmodified() -> Modifiers {
    Modifiers { shift: false, alt: false, control: false, platform: false }
}

/// A key as the terminal takes it: the character that it gives without shift, and whether it
/// stands for no character at all.
#[derive(Clone, Copy, Debug, PartialEq, Eq, Structural)]
pub struct NamedKey {
    pub key: Key,
    pub unshifted: char,
    pub special: bool,
}

/// The number of the function key of a name, from `n` on.
pub open spec fn function_key(name: Seq<char>, n: nat) -> Option<u8>
    decreases 13 - n,
{
    if n > 12 {
        None
    } else if name == "f"@ + decimal(n) {
        Some(n as u8)
    } else {
        function_key(name, n + 1)
    }
}

/// The key of a name that stands for no character.
pub open spec fn special_key(name: Seq<char>) -> Option<Key> {
    if name == "enter"@ {
        Some(Key::Enter)
    } else if name == "backspace"@ {
        Some(Key::Backspace)
    } else if name == "tab"@ {
        Some(Key::Tab)
    } else if name == "escape"@ {
        Some(Key::Escape)
    } else if name == "up"@ {
        Some(Key::ArrowUp)
    } else if name == "down"@ {
        Some(Key::ArrowDown)
    } else if name == "left"@ {
        Some(Key::ArrowLeft)
    } else if name == "right"@ {
        Some(Key::ArrowRight)
    } else if name == "home"@ {
        Some(Key::Home)
    } else if name == "end"@ {
        Some(Key::End)
    } else if name == "insert"@ {
        Some(Key::Insert)
    } else if name == "delete"@ {
        Some(Key::Delete)
    } else if name == "pageup"@ {
        Some(Key::PageUp)
    } else if name == "pagedown"@ {
        Some(Key::PageDown)
    } else {
        match function_key(name, 1) {
            Some(n) => Some(Key::Function(n)),
            None => None,
        }
    }
}

/// The key of a name; a name of one character is that of a letter or of a digit.
pub open spec fn named_key(name: Seq<char>) -> Option<NamedKey> {
    if name.len() == 1 && 'a' <= name[0] <= 'z' {
        Some(NamedKey { key: Key::Letter(name[0]), unshifted: name[0], special: false })
    } else if name.len() == 1 && '0' <= name[0] <= '9' {
        Some(NamedKey { key: Key::Digit(name[0]), unshifted: name[0], special: false })
    } else if name == "space"@ {
        Some(NamedKey { key: Key::Space, unshifted: ' ', special: false })
    } else {
        match special_key(name) {
            Some(key) => Some(NamedKey { key, unshifted: '\0', special: true }),
            None => None,
        }
    }
}

/// See [`function_key`].
fn find_function_key(name: &str) -> (r: Option<u8>)
    ensures
        r == function_key(name@, 1),
{
    let mut n: u8 = 1;
    while n <= 12
        invariant
            1 <= n <= 13,
            function_key(name@, 1) == function_key(name@, n as nat),
        decreases 13 - n,
    {
        let number = text::number(n as u64, 10);
        let label = text::concat("f", number.as_str());
        if text::same(name, label.as_str()) {
            return Some(n);
        }
        n = n + 1;
    }
    None
}

/// See [`special_key`].
fn find_special_key(name: &str) -> (r: Option<Key>)
    ensures
        r == special_key(name@),
{
    if text::same(name, "enter") {
        Some(Key::Enter)
    } else if text::same(name, "backspace") {
        Some(Key::Backspace)
    } else if text::same(name, "tab") {
        Some(Key::Tab)
    } else if text::same(name, "escape") {
        Some(Key::Escape)
    } else if text::same(name, "up") {
        Some(Key::ArrowUp)
    } else if text::same(name, "down") {
        Some(Key::ArrowDown)
    } else if text::same(name, "left") {
        Some(Key::ArrowLeft)
    } else if text::same(name, "right") {
        Some(Key::ArrowRight)
    } else if text::same(name, "home") {
        Some(Key::Home)
    } else if text::same(name, "end") {
        Some(Key::End)
    } else if text::same(name, "insert") {
        Some(Key::Insert)
    } else if text::same(name, "delete") {
        Some(Key::Delete)
    } else if text::same(name, "pageup") {
        Some(Key::PageUp)
    } else if text::same(name, "pagedown") {
        Some(Key::PageDown)
    } else {
        match find_function_key(name) {
            Some(n) => Some(Key::Function(n)),
            None => None,
        }
    }
}

/// See [`named_key`].
pub fn ghostty_key(name: &str) -> (r: Option<NamedKey>)
    ensures
        r == named_key(name@),
{
    if name.unicode_len() == 1 {
        let c = name.get_char(0);
        if 'a' <= c && c <= 'z' {
            return Some(NamedKey { key: Key::Letter(c), unshifted: c, special: false });
        }
        if '0' <= c && c <= '9' {
            return Some(NamedKey { key: Key::Digit(c), unshifted: c, special: false });
        }
    }
    if text::same(name, "space") {
        return Some(NamedKey { key: Key::Space, unshifted: ' ', special: false });
    }
    match find_special_key(name) {
        Some(key) => Some(NamedKey { key, unshifted: '\0', special: true }),
        None => None,
    }
}

#[derive(Clone, Copy, Debug, PartialEq, Eq, Structural)]
pub enum KeyMotion {
    Press,
    Repeat,
    Release,
}

/// A key for the terminal to encode: the modifiers that are held, those that the text has
/// already used up, and the text.
#[derive(Debug, PartialEq, Eq)]
pub struct TerminalKeyEvent {
    pub key: Key,
    pub action: KeyMotion,
    pub mods: Modifiers,
    pub consumed_mods: Modifiers,
    pub unshifted: char,
    pub text: Option<String>,
}

/// The value of a `TerminalKeyEvent`.
#[verifier::ext_equal]
pub struct KeyEventModel {
    pub key: Key,
    pub action: KeyMotion,
    pub mods: Modifiers,
    pub consumed_mods: Modifiers,
    pub unshifted: char,
    pub text: Option<Seq<char>>,
}

impl View for TerminalKeyEvent {
    type V = KeyEventModel;

    open spec fn view(&self) -> KeyEventModel {
        KeyEventModel {
            key: self.key,
            action: self.action,
            mods: self.mods,
            consumed_mods: self.consumed_mods,
            unshifted: self.unshifted,
            text: opt_view(self.text),
        }
    }
}

/// What a key does.
#[derive(Debug, PartialEq, Eq)]
pub enum KeyEffect {
    /// The clipboard is pasted.
    Paste,
    /// What is selected is copied.
    CopySelection,
    /// The key goes to the terminal.
    Send(TerminalKeyEvent),
    /// Nothing: where the key gives text, it arrives by way of the text input.
    Pass,
}

/// The value of a `KeyEffect`.
#[verifier::ext_equal]
pub enum KeyEffectModel {
    Paste,
    CopySelection,
    Send(KeyEventModel),
    Pass,
}

impl View for KeyEffect {
    type V = KeyEffectModel;

    open spec fn view(&self) -> KeyEffectModel {
        match self {
            KeyEffect::Paste => KeyEffectModel::Paste,
            KeyEffect::CopySelection => KeyEffectModel::CopySelection,
            KeyEffect::Send(event) => KeyEffectModel::Send(event@),
            KeyEffect::Pass => KeyEffectModel::Pass,
        }
    }
}

/// Whether a key goes to the terminal itself, and not by way of the text input.
pub open spec fn goes_to_terminal(key: NamedKey, modifiers: Modifiers) -> bool {
    key.special || modifiers.control || modifiers.alt || modifiers.platform
}

/// What a key that goes down does.
pub open spec fn key_down_effect(
    name: Seq<char>,
    modifiers: Modifiers,
    key_char: Option<Seq<char>>,
    held: bool,
) -> KeyEffectModel {
    let chord = modifiers.control && modifiers.shift;
    if chord && ascii_folded(name) == "v"@ {
        KeyEffectModel::Paste
    } else if chord && ascii_folded(name) == "c"@ {
        KeyEffectModel::CopySelection
    } else {
        match named_key(name) {
            None => KeyEffectModel::Pass,
            Some(key) => if !goes_to_terminal(key, modifiers) {
                KeyEffectModel::Pass
            } else {
                KeyEffectModel::Send(
                    KeyEventModel {
                        key: key.key,
                        action: if held {
                            KeyMotion::Repeat
                        } else {
                            KeyMotion::Press
                        },
                        mods: modifiers,
                        consumed_mods: Modifiers {
                            shift: key_char is Some && modifiers.shift,
                            ..unmodified()
                        },
                        unshifted: key.unshifted,
                        text: if key.special {
                            None
                        } else {
                            key_char
                        },
                    },
                )
            },
        }
    }
}

/// What a key that comes up does.
pub open spec fn key_up_effect(name: Seq<char>, modifiers: Modifiers) -> KeyEffectModel {
    match named_key(name) {
        None => KeyEffectModel::Pass,
        Some(key) => if !goes_to_terminal(key, modifiers) {
            KeyEffectModel::Pass
        } else {
            KeyEffectModel::Send(
                KeyEventModel {
                    key: key.key,
                    action: KeyMotion::Release,
                    mods: modifiers,
                    consumed_mods: unmodified(),
                    unshifted: key.unshifted,
                    text: None,
                },
            )
        },
    }
}

/// See [`key_down_effect`].
pub fn key_down(name: &str, modifiers: Modifiers, key_char: &Option<String>, held: bool) -> (r: KeyEffect)
    ensures
        r@ == key_down_effect(name@, modifiers, opt_view(*key_char), held),
{
    if modifiers.control && modifiers.shift {
        let folded = text::fold_ascii(name);
        if text::same(folded.as_str(), "v") {
            return KeyEffect::Paste;
        }
        if text::same(folded.as_str(), "c") {
            return KeyEffect::CopySelection;
        }
    }
    let key = match ghostty_key(name) {
        Some(key) => key,
        None => {
            return KeyEffect::Pass;
        },
    };
    if !key.special && !modifiers.control && !modifiers.alt && !modifiers.platform {
        return KeyEffect::Pass;
    }
    KeyEffect::Send(
        TerminalKeyEvent {
            key: key.key,
            action: if held {
                KeyMotion::Repeat
            } else {
                KeyMotion::Press
            },
            mods: modifiers,
            consumed_mods: Modifiers {
                shift: key_char.is_some() && modifiers.shift,
                alt: false,
                control: false,
                platform: false,
            },
            unshifted: key.unshifted,
            text: if key.special {
                None
            } else {
                text::copy_opt(key_char)
            },
        },
    )
}

/// See [`key_up_effect`].
pub fn key_up(name: &str, modifiers: Modifiers) -> (r: KeyEffect)
    ensures
        r@ == key_up_effect(name@, modifiers),
{
    let key = match ghostty_key(name) {
        Some(key) => key,
        None => {
            return KeyEffect::Pass;
        },
    };
    if !key.special && !modifiers.control && !modifiers.alt && !modifiers.platform {
        return KeyEffect::Pass;
    }
    KeyEffect::Send(
        TerminalKeyEvent {
            key: key.key,
            action: KeyMotion::Release,
            mods: modifiers,
            consumed_mods: Modifiers { shift: false, alt: false, control: false, platform: false },
            unshifted: key.unshifted,
            text: None,
        },
    )
}

/// A key whose going down goes to the terminal has its coming up go there too.
pub proof fn sent_keys_are_released(name: Seq<char>, modifiers: Modifiers, key_char: Option<Seq<char>>, held: bool)
    requires
        key_down_effect(name, modifiers, key_char, held) is Send,
    ensures
        key_up_effect(name, modifiers) matches KeyEffectModel::Send(up) && up.key
            == key_down_effect(name, modifiers, key_char, held)->Send_0.key,
{
}

/// A key that writes a character without control, alt or the platform's key never goes to the
/// terminal: its text arrives once, by way of the text input.
pub proof fn plain_text_is_not_sent_twice(name: Seq<char>, modifiers: Modifiers, key_char: Option<Seq<char>>, held: bool)
    requires
        named_key(name) matches Some(key) && !key.special,
        !modifiers.control && !modifiers.alt && !modifiers.platform,
    ensures
        key_down_effect(name, modifiers, key_char, held) == KeyEffectModel::Pass,
        key_up_effect(name, modifiers) == KeyEffectModel::Pass,
{
}

/// A key that goes to the terminal goes there as it was pressed: that key, with all the modifiers
/// that were held, as a repetition exactly where it was held down, and with its text where it has
/// one of its own.
pub proof fn keys_go_as_they_were_pressed(
    name: Seq<char>,
    key: NamedKey,
    modifiers: Modifiers,
    key_char: Option<Seq<char>>,
    held: bool,
)
    requires
        named_key(name) == Some(key),
        !(modifiers.control && modifiers.shift && (ascii_folded(name) == "v"@ || ascii_folded(name)
            == "c"@)),
    ensures
        key.special || modifiers.control || modifiers.alt || modifiers.platform ==> (
        key_down_effect(name, modifiers, key_char, held) matches KeyEffectModel::Send(event) && {
            &&& event.key == key.key
            &&& event.mods == modifiers
            &&& event.unshifted == key.unshifted
            &&& event.action == KeyMotion::Repeat <==> held
            &&& event.action == KeyMotion::Press <==> !held
            &&& !key.special ==> event.text == key_char
            &&& key.special ==> event.text is None
        }),
        !key.special && !modifiers.control && !modifiers.alt && !modifiers.platform
            ==> key_down_effect(name, modifiers, key_char, held) is Pass,
{
}

/// Letters and digits are their own keys, and a key without a name that is known is let through.
pub proof fn letters_and_digits_are_their_own_keys(c: char, name: Seq<char>, modifiers: Modifiers)
    ensures
        'a' <= c <= 'z' ==> (named_key(seq![c]) matches Some(key) && key.key == Key::Letter(c)
            && key.unshifted == c && !key.special),
        '0' <= c <= '9' ==> (named_key(seq![c]) matches Some(key) && key.key == Key::Digit(c)
            && key.unshifted == c && !key.special),
        named_key(name) is None ==> key_up_effect(name, modifiers) is Pass,
{
}

/// The chords of the terminal paste and copy, and nothing else is sent for them.
pub proof fn chords_paste_and_copy(name: Seq<char>, modifiers: Modifiers, key_char: Option<Seq<char>>, held: bool)
    requires
        modifiers.control,
        modifiers.shift,
    ensures
        ascii_folded(name) == "v"@ ==> key_down_effect(name, modifiers, key_char, held) is Paste,
        ascii_folded(name) == "c"@ ==> key_down_effect(name, modifiers, key_char, held)
            is CopySelection,
        ascii_folded(name) != "v"@ ==> !(key_down_effect(name, modifiers, key_char, held) is Paste),
        ascii_folded(name) != "c"@ ==> !(key_down_effect(name, modifiers, key_char, held)
            is CopySelection),
{
    reveal_strlit("v");
    reveal_strlit("c");
    assert("v"@[0] == 'v' && "c"@[0] == 'c');
}

/// The keys that write nothing are found by their names, each by its own.
pub proof fn special_keys_are_found_by_name()
    ensures
        special_key("enter"@) == Some(Key::Enter),
        special_key("backspace"@) == Some(Key::Backspace),
        special_key("tab"@) == Some(Key::Tab),
        special_key("escape"@) == Some(Key::Escape),
        special_key("up"@) == Some(Key::ArrowUp),
        special_key("down"@) == Some(Key::ArrowDown),
        special_key("left"@) == Some(Key::ArrowLeft),
        special_key("right"@) == Some(Key::ArrowRight),
        special_key("home"@) == Some(Key::Home),
        special_key("end"@) == Some(Key::End),
        special_key("insert"@) == Some(Key::Insert),
        special_key("delete"@) == Some(Key::Delete),
        special_key("pageup"@) == Some(Key::PageUp),
        special_key("pagedown"@) == Some(Key::PageDown),
{
    reveal_strlit("enter");
    reveal_strlit("backspace");
    reveal_strlit("tab");
    reveal_strlit("escape");
    reveal_strlit("up");
    reveal_strlit("down");
    reveal_strlit("left");
    reveal_strlit("right");
    reveal_strlit("home");
    reveal_strlit("end");
    reveal_strlit("insert");
    reveal_strlit("delete");
    reveal_strlit("pageup");
    reveal_strlit("pagedown");
    assert("enter"@.len() == 5 && "enter"@[0] == 'e');
    assert("backspace"@.len() == 9 && "backspace"@[0] == 'b');
    assert("tab"@.len() == 3 && "tab"@[0] == 't');
    assert("escape"@.len() == 6 && "escape"@[0] == 'e');
    assert("up"@.len() == 2 && "up"@[0] == 'u');
    assert("down"@.len() == 4 && "down"@[0] == 'd');
    assert("left"@.len() == 4 && "left"@[0] == 'l');
    assert("right"@.len() == 5 && "right"@[0] == 'r');
    assert("home"@.len() == 4 && "home"@[0] == 'h');
    assert("end"@.len() == 3 && "end"@[0] == 'e');
    assert("insert"@.len() == 6 && "insert"@[0] == 'i');
    assert("delete"@.len() == 6 && "delete"@[0] == 'd');
    assert("pageup"@.len() == 6 && "pageup"@[0] == 'p');
    assert("pagedown"@.len() == 8 && "pagedown"@[0] == 'p');
}

/// A function key is found by its number.
pub proof fn function_keys_are_found_by_number(n: nat)
    requires
        1 <= n <= 12,
    ensures
        function_key("f"@ + decimal(n), 1) == Some(n as u8),
        function_key("f"@ + decimal(13), 1) is None,
{
    numbered_keys_are_told_apart(n, 1);
    numbered_keys_are_told_apart(13, 1);
}

proof fn numbered_keys_are_told_apart(n: nat, from: nat)
    requires
        1 <= from <= n,
    ensures
        n <= 12 ==> function_key("f"@ + decimal(n), from) == Some(n as u8),
        n > 12 ==> function_key("f"@ + decimal(n), from) is None,
    decreases n - from,
{
    if from < n && from <= 12 {
        text::decimals_differ(n, from);
        let (a, b) = ("f"@ + decimal(n), "f"@ + decimal(from));
        assert(a.skip("f"@.len() as int) =~= decimal(n));
        assert(b.skip("f"@.len() as int) =~= decimal(from));
        numbered_keys_are_told_apart(n, from + 1);
    }
}

} // verus!
