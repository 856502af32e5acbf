//! Key chords: how they are written, what they match, and which key
//! presses two chords may share.
//!
//! A chord is written as modifiers and one key joined by `+`, such as
//! `Ctrl+C` or `Shift+Tab`. Names of modifiers and of keys are read
//! whatever their case; a key of one character stands for itself.

use crate::keymap::keys::{
    KeyCode, KeyEvent, KeyModifiers, MediaKeyCode, ModifierKeyCode,
};
use crate::text::{
    ascii_lower, ascii_lowercase, ascii_upper, chars_of, split, split_char, str_eq,
    strip_prefix, strip_prefix_of, to_ascii_lower, to_ascii_lowercase, to_ascii_upper, trim,
    trimmed, views,
};
use vstd::prelude::*;
use vstd::string::*;

verus! {

/// True for `0`-`9`.
pub open spec fn is_digit(c: char) -> bool {
    '0' <= c <= '9'
}

/// The number that a sequence of decimal digits writes.
pub open spec fn decimal_value(digits: Seq<char>) -> nat
    decreases digits.len(),
{
    if digits.len() == 0 {
        0
    } else {
        decimal_value(digits.drop_last()) * 10 + (digits.last() as u32 - '0' as u32) as nat
    }
}

/// Every character of `digits` is a decimal digit.
pub open spec fn all_digits(digits: Seq<char>) -> bool {
    forall|i: int| 0 <= i < digits.len() ==> is_digit(#[trigger] digits[i])
}

/// `text` without the plus sign that may lead it.
pub open spec fn unsigned_digits(text: Seq<char>) -> Seq<char> {
    match strip_prefix_of(text, '+') {
        Some(rest) => rest,
        None => text,
    }
}

/// The number below 256 that `text` writes: decimal digits, at least one,
/// behind at most one plus sign.
pub open spec fn parsed_u8(text: Seq<char>) -> Option<u8> {
    let digits = unsigned_digits(text);
    if digits.len() > 0 && all_digits(digits) && decimal_value(digits) <= 255 {
        Some(decimal_value(digits) as u8)
    } else {
        None
    }
}

/// A longer sequence of digits writes no smaller number.
proof fn lemma_decimal_grows(digits: Seq<char>, n: int)
    requires
        0 <= n <= digits.len(),
        all_digits(digits),
    ensures
        decimal_value(digits.take(n)) <= decimal_value(digits),
    decreases digits.len() - n,
{
    if n < digits.len() {
        lemma_decimal_grows(digits, n + 1);
        assert(digits.take(n + 1).drop_last() =~= digits.take(n));
        assert(is_digit(digits[n]));
    } else {
        assert(digits.take(n) =~= digits);
    }
}

/// Reads a number below 256.
pub fn parse_u8(text: &str) -> (value: Option<u8>)
    ensures
        value == parsed_u8(text@),
{
    let digits_text = match strip_prefix(text, '+') {
        Some(rest) => rest,
        None => text,
    };
    let digits = chars_of(digits_text);
    if digits.len() == 0 {
        return None;
    }
    let mut value: u16 = 0;
    let mut i: usize = 0;
    while i < digits.len()
        invariant
            i <= digits@.len(),
            digits@ == unsigned_digits(text@),
            digits@.len() > 0,
            value <= 255,
            value == decimal_value(digits@.take(i as int)),
            forall|k: int| 0 <= k < i ==> is_digit(#[trigger] digits@[k]),
        decreases digits@.len() - i,
    {
        let c = digits[i];
        if !('0' <= c && c <= '9') {
            proof {
                assert(!is_digit(digits@[i as int]));
            }
            return None;
        }
        let digit: u16 = (c as u32 - 0x30) as u16;
        proof {
            assert(digits@.take(i + 1).drop_last() =~= digits@.take(i as int));
        }
        let next: u16 = value * 10 + digit;
        proof {
            assert(digits@.take(i + 1).last() == c);
            assert(next == decimal_value(digits@.take(i + 1)));
        }
        if next > 255 {
            proof {
                if all_digits(digits@) {
                    lemma_decimal_grows(digits@, i + 1);
                }
            }
            return None;
        }
        value = next;
        i = i + 1;
    }
    proof {
        assert(digits@.take(digits@.len() as int) =~= digits@);
    }
    Some(value as u8)
}

/// The decimal digit of a number below ten.
pub open spec fn digit_char(n: nat) -> char {
    (('0' as u32 + n) as u8) as char
}

/// A number below 256 in decimal digits.
pub open spec fn decimal_text(n: u8) -> Seq<char> {
    if n < 10 {
        seq![digit_char(n as nat)]
    } else if n < 100 {
        seq![digit_char((n / 10) as nat), digit_char((n % 10) as nat)]
    } else {
        seq![
            digit_char((n / 100) as nat),
            digit_char(((n / 10) % 10) as nat),
            digit_char((n % 10) as nat),
        ]
    }
}

/// Writes the decimal digit of a number below ten.
fn digit_of(n: u8) -> (c: char)
    requires
        n < 10,
    ensures
        c == digit_char(n as nat),
{
    (0x30 + n) as char
}

/// Writes a number below 256 in decimal digits.
pub fn u8_to_string(n: u8) -> (text: String)
    ensures
        text@ == decimal_text(n),
{
    let mut text = String::new();
    if n >= 100 {
        text.push(digit_of(n / 100));
    }
    if n >= 10 {
        text.push(digit_of((n / 10) % 10));
    }
    text.push(digit_of(n % 10));
    proof {
        assert(text@ =~= decimal_text(n));
    }
    text
}

/// The key that a name of configuration stands for, for the names that are
/// words; the name is in lower case.
pub open spec fn named_key(lower: Seq<char>) -> Option<KeyCode> {
    if lower == "enter"@ || lower == "return"@ {
        Some(KeyCode::Enter)
    } else if lower == "esc"@ || lower == "escape"@ {
        Some(KeyCode::Esc)
    } else if lower == "tab"@ {
        Some(KeyCode::Tab)
    } else if lower == "backtab"@ {
        Some(KeyCode::BackTab)
    } else if lower == "backspace"@ {
        Some(KeyCode::Backspace)
    } else if lower == "delete"@ {
        Some(KeyCode::Delete)
    } else if lower == "insert"@ {
        Some(KeyCode::Insert)
    } else if lower == "space"@ {
        Some(KeyCode::Char(' '))
    } else if lower == "left"@ {
        Some(KeyCode::Left)
    } else if lower == "right"@ {
        Some(KeyCode::Right)
    } else if lower == "up"@ {
        Some(KeyCode::Up)
    } else if lower == "down"@ {
        Some(KeyCode::Down)
    } else if lower == "home"@ {
        Some(KeyCode::Home)
    } else if lower == "end"@ {
        Some(KeyCode::End)
    } else if lower == "pageup"@ || lower == "pgup"@ {
        Some(KeyCode::PageUp)
    } else if lower == "pagedown"@ || lower == "pgdn"@ {
        Some(KeyCode::PageDown)
    } else {
        None
    }
}

/// The function key that a lower-case name stands for: `f` and a number.
pub open spec fn function_key(lower: Seq<char>) -> Option<KeyCode> {
    match strip_prefix_of(lower, 'f') {
        Some(number) => match parsed_u8(number) {
            Some(n) => Some(KeyCode::F(n)),
            None => None,
        },
        None => None,
    }
}

/// The punctuation character that a lower-case name stands for.
pub open spec fn named_punct(lower: Seq<char>) -> Option<char> {
    if lower == "plus"@ {
        Some('+')
    } else if lower == "minus"@ {
        Some('-')
    } else if lower == "comma"@ {
        Some(',')
    } else if lower == "period"@ || lower == "dot"@ {
        Some('.')
    } else if lower == "slash"@ {
        Some('/')
    } else if lower == "backslash"@ {
        Some('\\')
    } else if lower == "quote"@ {
        Some('\'')
    } else if lower == "doublequote"@ {
        Some('"')
    } else if lower == "semicolon"@ {
        Some(';')
    } else {
        None
    }
}

/// The key that a part of a chord stands for: a key named by a word, a
/// function key, a named punctuation character, or the one character of
/// the part, in this order. `None` for an unknown key.
pub open spec fn keycode_named(part: Seq<char>) -> Option<KeyCode> {
    let lower = ascii_lowercase(part);
    if named_key(lower) is Some {
        named_key(lower)
    } else if function_key(lower) is Some {
        function_key(lower)
    } else if named_punct(lower) is Some {
        Some(KeyCode::Char(named_punct(lower)->0))
    } else if part.len() == 1 {
        Some(KeyCode::Char(part[0]))
    } else {
        None
    }
}

/// The message that reports an unknown key.
pub open spec fn unknown_key_message(part: Seq<char>) -> Seq<char> {
    "unknown key '"@ + part + "'"@
}

/// Reads the function key that a lower-case name stands for.
pub fn parse_function_key(lower: &str) -> (key: Option<KeyCode>)
    ensures
        key == function_key(lower@),
{
    if let Some(num) = strip_prefix(lower, 'f') {
        if let Some(n) = parse_u8(num) {
            return Some(KeyCode::F(n));
        }
    }
    None
}

/// Reads the punctuation character that a lower-case name stands for.
pub fn parse_named_punct(lower: &str) -> (c: Option<char>)
    ensures
        c == named_punct(lower@),
{
    if str_eq(lower, "plus") {
        Some('+')
    } else if str_eq(lower, "minus") {
        Some('-')
    } else if str_eq(lower, "comma") {
        Some(',')
    } else if str_eq(lower, "period") || str_eq(lower, "dot") {
        Some('.')
    } else if str_eq(lower, "slash") {
        Some('/')
    } else if str_eq(lower, "backslash") {
        Some('\\')
    } else if str_eq(lower, "quote") {
        Some('\'')
    } else if str_eq(lower, "doublequote") {
        Some('"')
    } else if str_eq(lower, "semicolon") {
        Some(';')
    } else {
        None
    }
}

/// Reads the key that a lower-case word names.
fn parse_named_key(lower: &str) -> (key: Option<KeyCode>)
    ensures
        key == named_key(lower@),
{
    if str_eq(lower, "enter") || str_eq(lower, "return") {
        Some(KeyCode::Enter)
    } else if str_eq(lower, "esc") || str_eq(lower, "escape") {
        Some(KeyCode::Esc)
    } else if str_eq(lower, "tab") {
        Some(KeyCode::Tab)
    } else if str_eq(lower, "backtab") {
        Some(KeyCode::BackTab)
    } else if str_eq(lower, "backspace") {
        Some(KeyCode::Backspace)
    } else if str_eq(lower, "delete") {
        Some(KeyCode::Delete)
    } else if str_eq(lower, "insert") {
        Some(KeyCode::Insert)
    } else if str_eq(lower, "space") {
        Some(KeyCode::Char(' '))
    } else if str_eq(lower, "left") {
        Some(KeyCode::Left)
    } else if str_eq(lower, "right") {
        Some(KeyCode::Right)
    } else if str_eq(lower, "up") {
        Some(KeyCode::Up)
    } else if str_eq(lower, "down") {
        Some(KeyCode::Down)
    } else if str_eq(lower, "home") {
        Some(KeyCode::Home)
    } else if str_eq(lower, "end") {
        Some(KeyCode::End)
    } else if str_eq(lower, "pageup") || str_eq(lower, "pgup") {
        Some(KeyCode::PageUp)
    } else if str_eq(lower, "pagedown") || str_eq(lower, "pgdn") {
        Some(KeyCode::PageDown)
    } else {
        None
    }
}

/// Reads the key that a part of a chord stands for.
pub fn parse_keycode(part: &str) -> (key: Result<KeyCode, String>)
    ensures
        match key {
            Ok(code) => keycode_named(part@) == Some(code),
            Err(message) => keycode_named(part@) is None && message@ == unknown_key_message(
                part@,
            ),
        },
{
    let lower = to_ascii_lowercase(part);
    if let Some(key) = parse_named_key(lower.as_str()) {
        return Ok(key);
    }
    if let Some(fkey) = parse_function_key(lower.as_str()) {
        return Ok(fkey);
    }
    if let Some(ch) = parse_named_punct(lower.as_str()) {
        return Ok(KeyCode::Char(ch));
    }
    if part.unicode_len() == 1 {
        return Ok(KeyCode::Char(part.get_char(0)));
    }
    let mut message = String::from_str("unknown key '");
    message.append(part);
    message.append("'");
    Err(message)
}

/// A key with modifiers, and the key press without modifiers that a
/// terminal may send in its place.
#[derive(Clone, Copy, Debug, PartialEq, Eq, Hash, Structural)]
pub struct KeyChord {
    pub key: KeyCode,
    pub modifiers: KeyModifiers,
    pub fallback: Option<KeyCode>,
}

/// True for the letters `a`-`z` and `A`-`Z`.
pub open spec fn is_ascii_letter(c: char) -> bool {
    ('a' <= c <= 'z') || ('A' <= c <= 'Z')
}

/// The control character that a terminal sends for Control and a letter:
/// the position of the letter in the alphabet.
pub open spec fn control_code(c: char) -> char {
    ((ascii_upper(c) as u8 - '@' as u8) as u8) as char
}

/// The key press without modifiers that may stand for a chord: the
/// control character of a letter, for a chord of Control, without Alt, and
/// that letter.
pub open spec fn fallback_of(key: KeyCode, modifiers: KeyModifiers) -> Option<KeyCode> {
    if !modifiers.control || modifiers.alt {
        None
    } else {
        match key {
            KeyCode::Char(c) => if is_ascii_letter(c) {
                Some(KeyCode::Char(control_code(c)))
            } else {
                None
            },
            _ => None,
        }
    }
}

/// Finds the key press without modifiers that may stand for a chord.
pub fn ctrl_char_fallback(key: KeyCode, modifiers: KeyModifiers) -> (fallback: Option<KeyCode>)
    ensures
        fallback == fallback_of(key, modifiers),
{
    if !modifiers.control || modifiers.alt {
        return None;
    }
    if let KeyCode::Char(c) = key {
        if ('a' <= c && c <= 'z') || ('A' <= c && c <= 'Z') {
            let upper = to_ascii_upper(c) as u8;
            let code = (upper - 0x40) as char;
            return Some(KeyCode::Char(code));
        }
    }
    None
}

/// The letter of a control character: `A` for the first, `Z` for the
/// twenty-sixth; `None` for any other character.
pub open spec fn control_letter(code: char) -> Option<char> {
    if 1 <= code as u32 <= 26 {
        Some(((code as u8 + '@' as u8) as u8) as char)
    } else {
        None
    }
}

/// Finds the letter of a control character.
pub fn ctrl_char_to_letter(code: char) -> (letter: Option<char>)
    ensures
        letter == control_letter(code),
{
    let value = code as u32;
    if 1 <= value && value <= 26 {
        let letter = (value as u8 + 0x40) as char;
        return Some(letter);
    }
    None
}

/// The modifier that a lower-case name stands for.
pub open spec fn modifier_named(lower: Seq<char>) -> Option<KeyModifiers> {
    if lower == "ctrl"@ || lower == "control"@ {
        Some(KeyModifiers { control: true, ..KeyModifiers::no_modifiers() })
    } else if lower == "alt"@ || lower == "option"@ {
        Some(KeyModifiers { alt: true, ..KeyModifiers::no_modifiers() })
    } else if lower == "shift"@ {
        Some(KeyModifiers::only_shift())
    } else if lower == "meta"@ || lower == "cmd"@ || lower == "command"@ || lower == "super"@ {
        Some(KeyModifiers { super_key: true, ..KeyModifiers::no_modifiers() })
    } else {
        None
    }
}

/// Reads the modifier that a lower-case name stands for.
fn parse_modifier(lower: &str) -> (mods: Option<KeyModifiers>)
    ensures
        mods == modifier_named(lower@),
{
    if str_eq(lower, "ctrl") || str_eq(lower, "control") {
        Some(KeyModifiers::control())
    } else if str_eq(lower, "alt") || str_eq(lower, "option") {
        Some(KeyModifiers::alt())
    } else if str_eq(lower, "shift") {
        Some(KeyModifiers::shift())
    } else if str_eq(lower, "meta") || str_eq(lower, "cmd") || str_eq(lower, "command") || str_eq(
        lower,
        "super",
    ) {
        Some(KeyModifiers::super_key())
    } else {
        None
    }
}

/// Why a chord could not be read.
pub enum ChordError {
    /// The chord is blank.
    EmptyChord,
    /// Two plus signs follow each other, or one begins or ends the chord.
    EmptySegment,
    /// The chord names more than one key.
    MultipleKeys,
    /// The chord names modifiers only.
    MissingKey,
    /// A part of the chord is neither a modifier nor a key.
    UnknownKey(Seq<char>),
}

impl ChordError {
    /// The message that reports the error.
    pub open spec fn message(self) -> Seq<char> {
        match self {
            ChordError::EmptyChord => "empty key chord"@,
            ChordError::EmptySegment => "empty chord segment"@,
            ChordError::MultipleKeys => "multiple non-modifier keys in chord"@,
            ChordError::MissingKey => "missing key in chord"@,
            ChordError::UnknownKey(part) => unknown_key_message(part),
        }
    }
}

/// The modifiers and the key read from the parts of a chord so far.
pub struct ChordParts {
    pub modifiers: KeyModifiers,
    pub key: Option<KeyCode>,
}

/// What is read after one more part. A part that names a modifier adds
/// it. Any other part must name a key, and the only one.
pub open spec fn with_part(
    before: Result<ChordParts, ChordError>,
    part: Seq<char>,
) -> Result<ChordParts, ChordError> {
    match before {
        Err(error) => Err(error),
        Ok(parts) => if part.len() == 0 {
            Err(ChordError::EmptySegment)
        } else {
            match modifier_named(ascii_lowercase(part)) {
                Some(modifier) => Ok(
                    ChordParts { modifiers: parts.modifiers.union(modifier), key: parts.key },
                ),
                None => if parts.key is Some {
                    Err(ChordError::MultipleKeys)
                } else {
                    match keycode_named(part) {
                        Some(key) => Ok(ChordParts { modifiers: parts.modifiers, key: Some(key) }),
                        None => Err(ChordError::UnknownKey(part)),
                    }
                },
            }
        },
    }
}

/// What is read from the first `n` parts.
pub open spec fn with_parts(parts: Seq<Seq<char>>, n: int) -> Result<ChordParts, ChordError>
    decreases n,
{
    if n <= 0 {
        Ok(ChordParts { modifiers: KeyModifiers::no_modifiers(), key: None })
    } else {
        with_part(with_parts(parts, n - 1), trimmed(parts[n - 1]))
    }
}

/// The chord that a text of configuration writes.
pub open spec fn chord_of(input: Seq<char>) -> Result<KeyChord, ChordError> {
    let raw = trimmed(input);
    let parts = split(raw, '+');
    if raw.len() == 0 {
        Err(ChordError::EmptyChord)
    } else {
        match with_parts(parts, parts.len() as int) {
            Err(error) => Err(error),
            Ok(read) => match read.key {
                Some(key) => Ok(
                    KeyChord {
                        key,
                        modifiers: read.modifiers,
                        fallback: fallback_of(key, read.modifiers),
                    },
                ),
                None => Err(ChordError::MissingKey),
            },
        }
    }
}

/// Reads a chord from its text of configuration.
pub fn parse_key_chord(input: &str) -> (chord: Result<KeyChord, String>)
    ensures
        match chord {
            Ok(read) => chord_of(input@) == Ok::<KeyChord, ChordError>(read),
            Err(message) => chord_of(input@) is Err && message@ == chord_of(
                input@,
            )->Err_0.message(),
        },
{
    let raw = trim(input);
    if raw.is_empty() {
        return Err(String::from_str("empty key chord"));
    }
    let parts = split_char(raw, '+');
    let ghost texts = split(raw@, '+');
    let mut modifiers = KeyModifiers::none();
    let mut key: Option<KeyCode> = None;
    let mut i: usize = 0;
    while i < parts.len()
        invariant
            i <= parts@.len(),
            raw@ == trimmed(input@),
            raw@.len() > 0,
            texts == split(raw@, '+'),
            views(parts@) == texts,
            with_parts(texts, i as int) == Ok::<ChordParts, ChordError>(
                ChordParts { modifiers, key },
            ),
        decreases parts@.len() - i,
    {
        proof {
            assert(views(parts@)[i as int] == parts@[i as int]@);
            assert(views(parts@).len() == parts@.len());
            assert(with_parts(texts, i + 1) == with_part(
                with_parts(texts, i as int),
                trimmed(texts[i as int]),
            ));
        }
        let part = trim(parts[i]);
        if part.is_empty() {
            proof {
                assert(with_parts(texts, i + 1) == Err::<ChordParts, ChordError>(
                    ChordError::EmptySegment,
                ));
                lemma_error_stays(texts, i + 1, texts.len() as int);
            }
            return Err(String::from_str("empty chord segment"));
        }
        let lower = to_ascii_lowercase(part);
        match parse_modifier(lower.as_str()) {
            Some(modifier) => {
                modifiers = modifiers.with(modifier);
            },
            None => {
                if key.is_some() {
                    proof {
                        assert(with_parts(texts, i + 1) == Err::<ChordParts, ChordError>(
                            ChordError::MultipleKeys,
                        ));
                        lemma_error_stays(texts, i + 1, texts.len() as int);
                    }
                    return Err(String::from_str("multiple non-modifier keys in chord"));
                }
                match parse_keycode(part) {
                    Ok(code) => {
                        key = Some(code);
                    },
                    Err(message) => {
                        proof {
                            assert(with_parts(texts, i + 1) == Err::<ChordParts, ChordError>(
                                ChordError::UnknownKey(part@),
                            ));
                            lemma_error_stays(texts, i + 1, texts.len() as int);
                        }
                        return Err(message);
                    },
                }
            },
        }
        i = i + 1;
    }
    proof {
        assert(views(parts@).len() == parts@.len());
    }
    match key {
        Some(key) => Ok(KeyChord { key, modifiers, fallback: ctrl_char_fallback(key, modifiers) }),
        None => Err(String::from_str("missing key in chord")),
    }
}

/// An error that the first `n` parts give is the error of all parts.
proof fn lemma_error_stays(parts: Seq<Seq<char>>, n: int, m: int)
    requires
        0 <= n <= m,
        with_parts(parts, n) is Err,
    ensures
        with_parts(parts, m) == with_parts(parts, n),
    decreases m - n,
{
    if n < m {
        lemma_error_stays(parts, n, m - 1);
    }
}

impl KeyChord {
    /// The chord stands for the key event.
    ///
    /// The event has the key of the chord and its modifiers, or, for a key
    /// that types a character other than the space, its modifiers and
    /// Shift. Or the chord holds Control, Alt or Super and a character,
    /// and the event has the same character in the other case, with the
    /// same modifiers but for Shift. Or one is Shift and Tab and the
    /// other the back tab. Or the event is the fallback of the chord
    /// without modifiers.
    pub open spec fn matches_event(self, event: KeyEvent) -> bool {
        ||| (event.code == self.key && (event.modifiers == self.modifiers || (match self.key {
            KeyCode::Char(ch) => ch != ' ' && event.modifiers.without_shift() == self.modifiers,
            _ => false,
        })))
        ||| (match (self.key, event.code) {
            (KeyCode::Char(expected), KeyCode::Char(actual)) => {
                self.modifiers.has_command_modifier() && event.modifiers.without_shift()
                    == self.modifiers && ascii_lower(expected) == ascii_lower(actual)
            },
            _ => false,
        })
        ||| (self.key == KeyCode::Tab && self.modifiers == KeyModifiers::only_shift()
            && event.code == KeyCode::BackTab)
        ||| (self.key == KeyCode::BackTab && self.modifiers == KeyModifiers::no_modifiers()
            && event.code == KeyCode::Tab && event.modifiers == KeyModifiers::only_shift())
        ||| (match self.fallback {
            Some(fallback) => event.code == fallback && event.modifiers
                == KeyModifiers::no_modifiers(),
            None => false,
        })
    }

    /// Tests whether the chord stands for the key event.
    pub fn matches(&self, event: KeyEvent) -> (hit: bool)
        ensures
            hit == self.matches_event(event),
    {
        if event.code == self.key {
            if event.modifiers == self.modifiers {
                return true;
            }
            if let KeyCode::Char(ch) = self.key {
                if ch != ' ' {
                    let mods = event.modifiers.remove_shift();
                    if mods == self.modifiers {
                        return true;
                    }
                }
            }
        }
        if let KeyCode::Char(expected) = self.key {
            if let KeyCode::Char(actual) = event.code {
                if self.modifiers.intersects_command() {
                    let mods = event.modifiers.remove_shift();
                    if mods == self.modifiers && to_ascii_lower(expected) == to_ascii_lower(
                        actual,
                    ) {
                        return true;
                    }
                }
            }
        }
        if self.key == KeyCode::Tab && self.modifiers == KeyModifiers::shift() && event.code
            == KeyCode::BackTab {
            return true;
        }
        if self.key == KeyCode::BackTab && self.modifiers == KeyModifiers::none() && event.code
            == KeyCode::Tab && event.modifiers == KeyModifiers::shift() {
            return true;
        }
        if let Some(fallback) = self.fallback {
            if event.code == fallback && event.modifiers == KeyModifiers::none() {
                return true;
            }
        }
        false
    }
}

/// The chords bound to one action.
#[derive(Clone, Debug)]
pub struct KeyBindingSet(pub Vec<KeyChord>);

impl KeyBindingSet {
    /// The chords of the set.
    pub open spec fn chords(self) -> Seq<KeyChord> {
        self.0@
    }

    /// Some chord of the set stands for the event.
    pub open spec fn matches_event(self, event: KeyEvent) -> bool {
        exists|i: int| 0 <= i < self.0@.len() && (#[trigger] self.0@[i]).matches_event(event)
    }

    /// A set without chords.
    pub fn empty() -> (set: Self)
        ensures
            set.chords() == Seq::<KeyChord>::empty(),
    {
        KeyBindingSet(Vec::new())
    }

    /// Tests whether some chord of the set stands for the event.
    pub fn matches(&self, event: KeyEvent) -> (hit: bool)
        ensures
            hit == self.matches_event(event),
    {
        self.match_chord(event).is_some()
    }

    /// Finds the first chord of the set that stands for the event.
    pub fn match_chord(&self, event: KeyEvent) -> (found: Option<&KeyChord>)
        ensures
            match found {
                Some(chord) => exists|i: int|
                    0 <= i < self.0@.len() && *chord == #[trigger] self.0@[i]
                        && chord.matches_event(event) && forall|k: int|
                        0 <= k < i ==> !(#[trigger] self.0@[k]).matches_event(event),
                None => !self.matches_event(event),
            },
    {
        let mut i: usize = 0;
        while i < self.0.len()
            invariant
                i <= self.0@.len(),
                forall|k: int| 0 <= k < i ==> !(#[trigger] self.0@[k]).matches_event(event),
            decreases self.0@.len() - i,
        {
            if self.0[i].matches(event) {
                return Some(&self.0[i]);
            }
            i = i + 1;
        }
        None
    }
}

/// The name of a media key.
pub open spec fn media_name(key: MediaKeyCode) -> Seq<char> {
    match key {
        MediaKeyCode::Play => "Play"@,
        MediaKeyCode::Pause => "Pause"@,
        MediaKeyCode::PlayPause => "PlayPause"@,
        MediaKeyCode::Reverse => "Reverse"@,
        MediaKeyCode::Stop => "Stop"@,
        MediaKeyCode::FastForward => "FastForward"@,
        MediaKeyCode::Rewind => "Rewind"@,
        MediaKeyCode::TrackNext => "TrackNext"@,
        MediaKeyCode::TrackPrevious => "TrackPrevious"@,
        MediaKeyCode::Record => "Record"@,
        MediaKeyCode::LowerVolume => "LowerVolume"@,
        MediaKeyCode::RaiseVolume => "RaiseVolume"@,
        MediaKeyCode::MuteVolume => "MuteVolume"@,
    }
}

/// The name of a modifier key.
pub open spec fn modifier_key_name(key: ModifierKeyCode) -> Seq<char> {
    match key {
        ModifierKeyCode::LeftShift => "LeftShift"@,
        ModifierKeyCode::LeftControl => "LeftControl"@,
        ModifierKeyCode::LeftAlt => "LeftAlt"@,
        ModifierKeyCode::LeftSuper => "LeftSuper"@,
        ModifierKeyCode::LeftHyper => "LeftHyper"@,
        ModifierKeyCode::LeftMeta => "LeftMeta"@,
        ModifierKeyCode::RightShift => "RightShift"@,
        ModifierKeyCode::RightControl => "RightControl"@,
        ModifierKeyCode::RightAlt => "RightAlt"@,
        ModifierKeyCode::RightSuper => "RightSuper"@,
        ModifierKeyCode::RightHyper => "RightHyper"@,
        ModifierKeyCode::RightMeta => "RightMeta"@,
        ModifierKeyCode::IsoLevel3Shift => "IsoLevel3Shift"@,
        ModifierKeyCode::IsoLevel5Shift => "IsoLevel5Shift"@,
    }
}

/// Writes the name of a media key.
fn media_key_name(key: MediaKeyCode) -> (name: &'static str)
    ensures
        name@ == media_name(key),
{
    match key {
        MediaKeyCode::Play => "Play",
        MediaKeyCode::Pause => "Pause",
        MediaKeyCode::PlayPause => "PlayPause",
        MediaKeyCode::Reverse => "Reverse",
        MediaKeyCode::Stop => "Stop",
        MediaKeyCode::FastForward => "FastForward",
        MediaKeyCode::Rewind => "Rewind",
        MediaKeyCode::TrackNext => "TrackNext",
        MediaKeyCode::TrackPrevious => "TrackPrevious",
        MediaKeyCode::Record => "Record",
        MediaKeyCode::LowerVolume => "LowerVolume",
        MediaKeyCode::RaiseVolume => "RaiseVolume",
        MediaKeyCode::MuteVolume => "MuteVolume",
    }
}

/// Writes the name of a modifier key.
fn modifier_key_text(key: ModifierKeyCode) -> (name: &'static str)
    ensures
        name@ == modifier_key_name(key),
{
    match key {
        ModifierKeyCode::LeftShift => "LeftShift",
        ModifierKeyCode::LeftControl => "LeftControl",
        ModifierKeyCode::LeftAlt => "LeftAlt",
        ModifierKeyCode::LeftSuper => "LeftSuper",
        ModifierKeyCode::LeftHyper => "LeftHyper",
        ModifierKeyCode::LeftMeta => "LeftMeta",
        ModifierKeyCode::RightShift => "RightShift",
        ModifierKeyCode::RightControl => "RightControl",
        ModifierKeyCode::RightAlt => "RightAlt",
        ModifierKeyCode::RightSuper => "RightSuper",
        ModifierKeyCode::RightHyper => "RightHyper",
        ModifierKeyCode::RightMeta => "RightMeta",
        ModifierKeyCode::IsoLevel3Shift => "IsoLevel3Shift",
        ModifierKeyCode::IsoLevel5Shift => "IsoLevel5Shift",
    }
}

/// How a key reads in a message: its name; `Space` for the space; a
/// letter in upper case; any other character as it is; `F` and the number
/// of a function key.
pub open spec fn keycode_text(key: KeyCode) -> Seq<char> {
    match key {
        KeyCode::Enter => "Enter"@,
        KeyCode::Esc => "Esc"@,
        KeyCode::Tab => "Tab"@,
        KeyCode::BackTab => "Backtab"@,
        KeyCode::Backspace => "Backspace"@,
        KeyCode::Delete => "Delete"@,
        KeyCode::Insert => "Insert"@,
        KeyCode::Up => "Up"@,
        KeyCode::Down => "Down"@,
        KeyCode::Left => "Left"@,
        KeyCode::Right => "Right"@,
        KeyCode::Home => "Home"@,
        KeyCode::End => "End"@,
        KeyCode::PageUp => "PageUp"@,
        KeyCode::PageDown => "PageDown"@,
        KeyCode::Char(c) => if c == ' ' {
            "Space"@
        } else if is_ascii_letter(c) {
            seq![ascii_upper(c)]
        } else {
            seq![c]
        },
        KeyCode::F(n) => "F"@ + decimal_text(n),
        KeyCode::Null => "Null"@,
        KeyCode::CapsLock => "CapsLock"@,
        KeyCode::ScrollLock => "ScrollLock"@,
        KeyCode::NumLock => "NumLock"@,
        KeyCode::PrintScreen => "PrintScreen"@,
        KeyCode::Pause => "Pause"@,
        KeyCode::Menu => "Menu"@,
        KeyCode::KeypadBegin => "KeypadBegin"@,
        KeyCode::Media(media) => "Media("@ + media_name(media) + ")"@,
        KeyCode::Modifier(modifier) => "Modifier("@ + modifier_key_name(modifier) + ")"@,
    }
}

/// Writes how a key reads in a message.
pub fn format_keycode_display(key: KeyCode) -> (text: String)
    ensures
        text@ == keycode_text(key),
{
    match key {
        KeyCode::Enter => String::from_str("Enter"),
        KeyCode::Esc => String::from_str("Esc"),
        KeyCode::Tab => String::from_str("Tab"),
        KeyCode::BackTab => String::from_str("Backtab"),
        KeyCode::Backspace => String::from_str("Backspace"),
        KeyCode::Delete => String::from_str("Delete"),
        KeyCode::Insert => String::from_str("Insert"),
        KeyCode::Up => String::from_str("Up"),
        KeyCode::Down => String::from_str("Down"),
        KeyCode::Left => String::from_str("Left"),
        KeyCode::Right => String::from_str("Right"),
        KeyCode::Home => String::from_str("Home"),
        KeyCode::End => String::from_str("End"),
        KeyCode::PageUp => String::from_str("PageUp"),
        KeyCode::PageDown => String::from_str("PageDown"),
        KeyCode::Char(c) => {
            if c == ' ' {
                String::from_str("Space")
            } else {
                let mut text = String::new();
                if ('a' <= c && c <= 'z') || ('A' <= c && c <= 'Z') {
                    text.push(to_ascii_upper(c));
                } else {
                    text.push(c);
                }
                proof {
                    assert(text@ =~= keycode_text(key));
                }
                text
            }
        },
        KeyCode::F(num) => {
            let mut text = String::from_str("F");
            text.append(u8_to_string(num).as_str());
            text
        },
        KeyCode::Null => String::from_str("Null"),
        KeyCode::CapsLock => String::from_str("CapsLock"),
        KeyCode::ScrollLock => String::from_str("ScrollLock"),
        KeyCode::NumLock => String::from_str("NumLock"),
        KeyCode::PrintScreen => String::from_str("PrintScreen"),
        KeyCode::Pause => String::from_str("Pause"),
        KeyCode::Menu => String::from_str("Menu"),
        KeyCode::KeypadBegin => String::from_str("KeypadBegin"),
        KeyCode::Media(media) => {
            let mut text = String::from_str("Media(");
            text.append(media_key_name(media));
            text.append(")");
            text
        },
        KeyCode::Modifier(modifier) => {
            let mut text = String::from_str("Modifier(");
            text.append(modifier_key_text(modifier));
            text.append(")");
            text
        },
    }
}

/// The names of the modifiers that a message shows, each followed by a
/// plus sign: Control, Alt, Shift and Super, in this order.
pub open spec fn modifiers_text(modifiers: KeyModifiers) -> Seq<char> {
    (if modifiers.control {
        "Ctrl+"@
    } else {
        Seq::<char>::empty()
    }) + (if modifiers.alt {
        "Alt+"@
    } else {
        Seq::<char>::empty()
    }) + (if modifiers.shift {
        "Shift+"@
    } else {
        Seq::<char>::empty()
    }) + (if modifiers.super_key {
        "Super+"@
    } else {
        Seq::<char>::empty()
    })
}

/// How a key with modifiers reads in a message. A control character
/// without modifiers reads as Control and its letter.
pub open spec fn keybinding_text(modifiers: KeyModifiers, key: KeyCode) -> Seq<char> {
    match key {
        KeyCode::Char(code) => if modifiers == KeyModifiers::no_modifiers() && control_letter(
            code,
        ) is Some {
            "Ctrl+"@ + seq![control_letter(code)->0]
        } else {
            modifiers_text(modifiers) + keycode_text(key)
        },
        _ => modifiers_text(modifiers) + keycode_text(key),
    }
}

/// Writes how a key with modifiers reads in a message.
pub fn format_keybinding(modifiers: KeyModifiers, key: KeyCode) -> (text: String)
    ensures
        text@ == keybinding_text(modifiers, key),
{
    if modifiers == KeyModifiers::none() {
        if let KeyCode::Char(code) = key {
            if let Some(letter) = ctrl_char_to_letter(code) {
                let mut text = String::from_str("Ctrl+");
                text.push(letter);
                proof {
                    assert(text@ =~= keybinding_text(modifiers, key));
                }
                return text;
            }
        }
    }
    let mut text = String::new();
    if modifiers.control {
        text.append("Ctrl+");
    }
    if modifiers.alt {
        text.append("Alt+");
    }
    if modifiers.shift {
        text.append("Shift+");
    }
    if modifiers.super_key {
        text.append("Super+");
    }
    proof {
        assert(text@ =~= modifiers_text(modifiers));
    }
    text.append(format_keycode_display(key).as_str());
    text
}

/// The lower-case and the upper-case form of a character.
pub fn ascii_case_variants(ch: char) -> (variants: [char; 2])
    ensures
        variants@ == seq![ascii_lower(ch), ascii_upper(ch)],
{
    let variants = [to_ascii_lower(ch), to_ascii_upper(ch)];
    proof {
        assert(variants@ =~= seq![ascii_lower(ch), ascii_upper(ch)]);
    }
    variants
}

/// The set of Shift, Control, Alt and Super that the number `mask`
/// selects: Shift by its lowest bit, then Control, Alt and Super.
pub open spec fn modifier_variant(mask: int) -> KeyModifiers {
    KeyModifiers {
        shift: mask % 2 == 1,
        control: (mask / 2) % 2 == 1,
        alt: (mask / 4) % 2 == 1,
        super_key: (mask / 8) % 2 == 1,
        hyper: false,
        meta: false,
    }
}

/// Lists every set of Shift, Control, Alt and Super.
pub fn all_modifier_variants() -> (variants: Vec<KeyModifiers>)
    ensures
        variants@.len() == 16,
        forall|mask: int| 0 <= mask < 16 ==> #[trigger] variants@[mask] == modifier_variant(mask),
{
    let mut variants: Vec<KeyModifiers> = Vec::new();
    let mut mask: u8 = 0;
    while mask < 16
        invariant
            mask <= 16,
            variants@.len() == mask,
            forall|m: int| 0 <= m < mask ==> #[trigger] variants@[m] == modifier_variant(m),
        decreases 16 - mask,
    {
        variants.push(
            KeyModifiers {
                shift: mask % 2 == 1,
                control: (mask / 2) % 2 == 1,
                alt: (mask / 4) % 2 == 1,
                super_key: (mask / 8) % 2 == 1,
                hyper: false,
                meta: false,
            },
        );
        mask = mask + 1;
    }
    variants
}

/// A key press: the modifiers and the key.
pub type KeyPress = (KeyModifiers, KeyCode);

/// The key press is one that the chord may be taken for, so that two
/// chords of one context that share one are in conflict.
///
/// It is the chord itself. For a character with Control, Alt or Super and
/// without Shift, it is also either case of the character, with or
/// without Shift. For Shift and Tab it is also the back tab with any
/// modifiers; for the back tab alone, also Shift and Tab. And it is the
/// fallback of the chord without modifiers.
pub open spec fn conflicts_on(chord: KeyChord, press: KeyPress) -> bool {
    ||| press == (chord.modifiers, chord.key)
    ||| (match chord.key {
        KeyCode::Char(ch) => !chord.modifiers.shift && chord.modifiers.has_command_modifier() && (
        press.1 == KeyCode::Char(ascii_lower(ch)) || press.1 == KeyCode::Char(ascii_upper(ch)))
            && (press.0 == chord.modifiers || press.0 == chord.modifiers.union(
            KeyModifiers::only_shift(),
        )),
        KeyCode::Tab => chord.modifiers == KeyModifiers::only_shift() && press.1
            == KeyCode::BackTab && !press.0.hyper && !press.0.meta,
        KeyCode::BackTab => chord.modifiers == KeyModifiers::no_modifiers() && press == (
            KeyModifiers::only_shift(),
            KeyCode::Tab,
        ),
        _ => false,
    })
    ||| (match chord.fallback {
        Some(fallback) => press == (KeyModifiers::no_modifiers(), fallback),
        None => false,
    })
}

/// `keys` holds `press`.
pub open spec fn holds_press(keys: Seq<KeyPress>, press: KeyPress) -> bool {
    exists|i: int| 0 <= i < keys.len() && #[trigger] keys[i] == press
}

/// No key press occurs twice in `keys`.
pub open spec fn distinct_presses(keys: Seq<KeyPress>) -> bool {
    forall|i: int, j: int| 0 <= i < j < keys.len() ==> keys[i] != keys[j]
}

/// Adds a key press to a list that holds none twice, unless the list
/// holds it.
fn insert_press(keys: &mut Vec<KeyPress>, press: KeyPress)
    requires
        distinct_presses(old(keys)@),
    ensures
        distinct_presses(final(keys)@),
        forall|p: KeyPress|
            holds_press(final(keys)@, p) <==> (holds_press(old(keys)@, p) || p == press),
{
    let mut i: usize = 0;
    while i < keys.len()
        invariant
            i <= keys@.len(),
            keys@ == old(keys)@,
            distinct_presses(keys@),
            forall|k: int| 0 <= k < i ==> keys@[k] != press,
        decreases keys@.len() - i,
    {
        if keys[i].0 == press.0 && keys[i].1 == press.1 {
            proof {
                assert(keys@[i as int] == press);
            }
            return;
        }
        i = i + 1;
    }
    keys.push(press);
    proof {
        let before = old(keys)@;
        let after = keys@;
        assert(after[before.len() as int] == press);
        assert forall|p: KeyPress| holds_press(after, p) <==> (holds_press(before, p) || p
            == press) by {
            if holds_press(before, p) {
                let i = choose|i: int| 0 <= i < before.len() && before[i] == p;
                assert(after[i] == p);
            }
            if holds_press(after, p) {
                let i = choose|i: int| 0 <= i < after.len() && after[i] == p;
                if i < before.len() {
                    assert(before[i] == p);
                }
            }
        }
    }
}

/// Every set of Shift, Control, Alt and Super is selected by a number
/// below sixteen.
proof fn lemma_modifier_variants(mods: KeyModifiers)
    requires
        !mods.hyper,
        !mods.meta,
    ensures
        exists|mask: int| 0 <= mask < 16 && #[trigger] modifier_variant(mask) == mods,
{
    let mask: int = (if mods.shift {
        1int
    } else {
        0int
    }) + (if mods.control {
        2int
    } else {
        0int
    }) + (if mods.alt {
        4int
    } else {
        0int
    }) + (if mods.super_key {
        8int
    } else {
        0int
    });
    assert(modifier_variant(mask) == mods);
}

/// `press` is the back tab with the modifiers that one of the first `n`
/// numbers selects.
pub open spec fn back_tab_listed(press: KeyPress, n: int) -> bool {
    exists|mask: int|
        0 <= mask < n && press == (#[trigger] modifier_variant(mask), KeyCode::BackTab)
}

proof fn lemma_back_tab_listed_step(press: KeyPress, n: int)
    requires
        0 <= n,
    ensures
        back_tab_listed(press, n + 1) <==> (back_tab_listed(press, n) || press == (
            modifier_variant(n),
            KeyCode::BackTab,
        )),
{
    if back_tab_listed(press, n) {
        let m = choose|mask: int|
            0 <= mask < n && press == (#[trigger] modifier_variant(mask), KeyCode::BackTab);
        assert(0 <= m < n + 1 && press == (modifier_variant(m), KeyCode::BackTab));
    }
    if press == (modifier_variant(n), KeyCode::BackTab) {
        assert(0 <= n < n + 1 && press == (modifier_variant(n), KeyCode::BackTab));
    }
    if back_tab_listed(press, n + 1) {
        let m = choose|mask: int|
            0 <= mask < n + 1 && press == (#[trigger] modifier_variant(mask), KeyCode::BackTab);
        if m < n {
            assert(0 <= m < n && press == (modifier_variant(m), KeyCode::BackTab));
        }
    }
}

proof fn lemma_back_tab_listed_all(press: KeyPress)
    ensures
        back_tab_listed(press, 16) <==> (press.1 == KeyCode::BackTab && !press.0.hyper
            && !press.0.meta),
{
    if press.1 == KeyCode::BackTab && !press.0.hyper && !press.0.meta {
        lemma_modifier_variants(press.0);
        let m = choose|mask: int| 0 <= mask < 16 && #[trigger] modifier_variant(mask) == press.0;
        assert(0 <= m < 16 && press == (modifier_variant(m), KeyCode::BackTab));
    }
}

impl KeyChord {
    /// Lists the key presses that the chord may be taken for, each once.
    pub fn conflict_keys(&self) -> (keys: Vec<KeyPress>)
        ensures
            distinct_presses(keys@),
            forall|press: KeyPress| holds_press(keys@, press) <==> conflicts_on(*self, press),
    {
        let mut keys: Vec<KeyPress> = Vec::new();
        insert_press(&mut keys, (self.modifiers, self.key));
        match self.key {
            KeyCode::Char(ch) => {
                if !self.modifiers.shift && self.modifiers.intersects_command() {
                    let shifted = self.modifiers.with(KeyModifiers::shift());
                    insert_press(&mut keys, (self.modifiers, KeyCode::Char(to_ascii_lower(ch))));
                    insert_press(&mut keys, (shifted, KeyCode::Char(to_ascii_lower(ch))));
                    insert_press(&mut keys, (self.modifiers, KeyCode::Char(to_ascii_upper(ch))));
                    insert_press(&mut keys, (shifted, KeyCode::Char(to_ascii_upper(ch))));
                }
            },
            KeyCode::Tab => {
                if self.modifiers == KeyModifiers::shift() {
                    let variants = all_modifier_variants();
                    let ghost before = keys@;
                    let mut i: usize = 0;
                    while i < variants.len()
                        invariant
                            i <= 16,
                            variants@.len() == 16,
                            forall|mask: int|
                                0 <= mask < 16 ==> #[trigger] variants@[mask] == modifier_variant(
                                    mask,
                                ),
                            distinct_presses(keys@),
                            forall|press: KeyPress|
                                #[trigger] holds_press(keys@, press) <==> (holds_press(
                                    before,
                                    press,
                                ) || back_tab_listed(press, i as int)),
                        decreases 16 - i,
                    {
                        let ghost earlier = keys@;
                        insert_press(&mut keys, (variants[i], KeyCode::BackTab));
                        proof {
                            let added = (modifier_variant(i as int), KeyCode::BackTab);
                            assert(variants@[i as int] == modifier_variant(i as int));
                            assert forall|press: KeyPress|
                                #[trigger] holds_press(keys@, press) <==> (holds_press(
                                    before,
                                    press,
                                ) || back_tab_listed(press, i + 1)) by {
                                lemma_back_tab_listed_step(press, i as int);
                                assert(holds_press(keys@, press) <==> (holds_press(
                                    earlier,
                                    press,
                                ) || press == added));
                                assert(holds_press(earlier, press) <==> (holds_press(
                                    before,
                                    press,
                                ) || back_tab_listed(press, i as int)));
                            }
                        }
                        i = i + 1;
                    }
                    proof {
                        assert forall|press: KeyPress|
                            back_tab_listed(press, 16) <==> (press.1 == KeyCode::BackTab
                                && !press.0.hyper && !press.0.meta) by {
                            lemma_back_tab_listed_all(press);
                        }
                    }
                }
            },
            KeyCode::BackTab => {
                if self.modifiers == KeyModifiers::none() {
                    insert_press(&mut keys, (KeyModifiers::shift(), KeyCode::Tab));
                }
            },
            _ => {},
        }
        if let Some(fallback) = self.fallback {
            insert_press(&mut keys, (KeyModifiers::none(), fallback));
        }
        keys
    }
}

} // verus!
