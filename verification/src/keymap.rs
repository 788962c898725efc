//! The keyboard's vocabulary: Linux input key codes, the character that
//! each key types, and the keys that the virtual keyboard presses to type a
//! character back.

use vstd::prelude::*;

verus! {

/// Linux input code of the key that types 'a'.
pub const KEY_A: u16 = 30;
/// Linux input code of the key that types 'b'.
pub const KEY_B: u16 = 48;
/// Linux input code of the key that types 'c'.
pub const KEY_C: u16 = 46;
/// Linux input code of the key that types 'd'.
pub const KEY_D: u16 = 32;
/// Linux input code of the key that types 'e'.
pub const KEY_E: u16 = 18;
/// Linux input code of the key that types 'f'.
pub const KEY_F: u16 = 33;
/// Linux input code of the key that types 'g'.
pub const KEY_G: u16 = 34;
/// Linux input code of the key that types 'h'.
pub const KEY_H: u16 = 35;
/// Linux input code of the key that types 'i'.
pub const KEY_I: u16 = 23;
/// Linux input code of the key that types 'j'.
pub const KEY_J: u16 = 36;
/// Linux input code of the key that types 'k'.
pub const KEY_K: u16 = 37;
/// Linux input code of the key that types 'l'.
pub const KEY_L: u16 = 38;
/// Linux input code of the key that types 'm'.
pub const KEY_M: u16 = 50;
/// Linux input code of the key that types 'n'.
pub const KEY_N: u16 = 49;
/// Linux input code of the key that types 'o'.
pub const KEY_O: u16 = 24;
/// Linux input code of the key that types 'p'.
pub const KEY_P: u16 = 25;
/// Linux input code of the key that types 'q'.
pub const KEY_Q: u16 = 16;
/// Linux input code of the key that types 'r'.
pub const KEY_R: u16 = 19;
/// Linux input code of the key that types 's'.
pub const KEY_S: u16 = 31;
/// Linux input code of the key that types 't'.
pub const KEY_T: u16 = 20;
/// Linux input code of the key that types 'u'.
pub const KEY_U: u16 = 22;
/// Linux input code of the key that types 'v'.
pub const KEY_V: u16 = 47;
/// Linux input code of the key that types 'w'.
pub const KEY_W: u16 = 17;
/// Linux input code of the key that types 'x'.
pub const KEY_X: u16 = 45;
/// Linux input code of the key that types 'y'.
pub const KEY_Y: u16 = 21;
/// Linux input code of the key that types 'z'.
pub const KEY_Z: u16 = 44;
/// Linux input code of the key that types '1'.
pub const KEY_1: u16 = 2;
/// Linux input code of the key that types '2'.
pub const KEY_2: u16 = 3;
/// Linux input code of the key that types '3'.
pub const KEY_3: u16 = 4;
/// Linux input code of the key that types '4'.
pub const KEY_4: u16 = 5;
/// Linux input code of the key that types '5'.
pub const KEY_5: u16 = 6;
/// Linux input code of the key that types '6'.
pub const KEY_6: u16 = 7;
/// Linux input code of the key that types '7'.
pub const KEY_7: u16 = 8;
/// Linux input code of the key that types '8'.
pub const KEY_8: u16 = 9;
/// Linux input code of the key that types '9'.
pub const KEY_9: u16 = 10;
/// Linux input code of the key that types '0'.
pub const KEY_0: u16 = 11;
/// Linux input code of the key that types ' '.
pub const KEY_SPACE: u16 = 57;
/// Linux input code of the key that types '-'.
pub const KEY_MINUS: u16 = 12;
/// Linux input code of the key that types '='.
pub const KEY_EQUAL: u16 = 13;
/// Linux input code of the key that types '['.
pub const KEY_LEFTBRACE: u16 = 26;
/// Linux input code of the key that types ']'.
pub const KEY_RIGHTBRACE: u16 = 27;
/// Linux input code of the key that types '\'.
pub const KEY_BACKSLASH: u16 = 43;
/// Linux input code of the key that types ';'.
pub const KEY_SEMICOLON: u16 = 39;
/// Linux input code of the key that types '\''.
pub const KEY_APOSTROPHE: u16 = 40;
/// Linux input code of the key that types ','.
pub const KEY_COMMA: u16 = 51;
/// Linux input code of the key that types '.'.
pub const KEY_DOT: u16 = 52;
/// Linux input code of the key that types '/'.
pub const KEY_SLASH: u16 = 53;
/// Linux input code of the BackSpace key.
pub const KEY_BACKSPACE: u16 = 14;
/// Linux input code of the Enter key.
pub const KEY_ENTER: u16 = 28;
/// Linux input code of the LeftControl key.
pub const KEY_LEFTCTRL: u16 = 29;
/// Linux input code of the LeftShift key.
pub const KEY_LEFTSHIFT: u16 = 42;

/// The character typed by the key with Linux input code `code`, or `'\0'`
/// for a key that types none of the characters that shortcuts are made of.
pub open spec fn key_char(code: u16) -> char {
    if code == KEY_A {
        'a'
    } else if code == KEY_B {
        'b'
    } else if code == KEY_C {
        'c'
    } else if code == KEY_D {
        'd'
    } else if code == KEY_E {
        'e'
    } else if code == KEY_F {
        'f'
    } else if code == KEY_G {
        'g'
    } else if code == KEY_H {
        'h'
    } else if code == KEY_I {
        'i'
    } else if code == KEY_J {
        'j'
    } else if code == KEY_K {
        'k'
    } else if code == KEY_L {
        'l'
    } else if code == KEY_M {
        'm'
    } else if code == KEY_N {
        'n'
    } else if code == KEY_O {
        'o'
    } else if code == KEY_P {
        'p'
    } else if code == KEY_Q {
        'q'
    } else if code == KEY_R {
        'r'
    } else if code == KEY_S {
        's'
    } else if code == KEY_T {
        't'
    } else if code == KEY_U {
        'u'
    } else if code == KEY_V {
        'v'
    } else if code == KEY_W {
        'w'
    } else if code == KEY_X {
        'x'
    } else if code == KEY_Y {
        'y'
    } else if code == KEY_Z {
        'z'
    } else if code == KEY_1 {
        '1'
    } else if code == KEY_2 {
        '2'
    } else if code == KEY_3 {
        '3'
    } else if code == KEY_4 {
        '4'
    } else if code == KEY_5 {
        '5'
    } else if code == KEY_6 {
        '6'
    } else if code == KEY_7 {
        '7'
    } else if code == KEY_8 {
        '8'
    } else if code == KEY_9 {
        '9'
    } else if code == KEY_0 {
        '0'
    } else if code == KEY_SPACE {
        ' '
    } else if code == KEY_MINUS {
        '-'
    } else if code == KEY_EQUAL {
        '='
    } else if code == KEY_LEFTBRACE {
        '['
    } else if code == KEY_RIGHTBRACE {
        ']'
    } else if code == KEY_BACKSLASH {
        '\\'
    } else if code == KEY_SEMICOLON {
        ';'
    } else if code == KEY_APOSTROPHE {
        '\''
    } else if code == KEY_COMMA {
        ','
    } else if code == KEY_DOT {
        '.'
    } else if code == KEY_SLASH {
        '/'
    } else {
        '\0'
    }
}

/// Maps a released key to the character it typed: the key's character
/// where [`key_char`] knows one, and `'\0'` for any other key.
pub fn key_to_char(code: u16) -> (c: Option<char>)
    ensures
        c == Some(key_char(code)),
{
    if code == KEY_A {
        Some('a')
    } else if code == KEY_B {
        Some('b')
    } else if code == KEY_C {
        Some('c')
    } else if code == KEY_D {
        Some('d')
    } else if code == KEY_E {
        Some('e')
    } else if code == KEY_F {
        Some('f')
    } else if code == KEY_G {
        Some('g')
    } else if code == KEY_H {
        Some('h')
    } else if code == KEY_I {
        Some('i')
    } else if code == KEY_J {
        Some('j')
    } else if code == KEY_K {
        Some('k')
    } else if code == KEY_L {
        Some('l')
    } else if code == KEY_M {
        Some('m')
    } else if code == KEY_N {
        Some('n')
    } else if code == KEY_O {
        Some('o')
    } else if code == KEY_P {
        Some('p')
    } else if code == KEY_Q {
        Some('q')
    } else if code == KEY_R {
        Some('r')
    } else if code == KEY_S {
        Some('s')
    } else if code == KEY_T {
        Some('t')
    } else if code == KEY_U {
        Some('u')
    } else if code == KEY_V {
        Some('v')
    } else if code == KEY_W {
        Some('w')
    } else if code == KEY_X {
        Some('x')
    } else if code == KEY_Y {
        Some('y')
    } else if code == KEY_Z {
        Some('z')
    } else if code == KEY_1 {
        Some('1')
    } else if code == KEY_2 {
        Some('2')
    } else if code == KEY_3 {
        Some('3')
    } else if code == KEY_4 {
        Some('4')
    } else if code == KEY_5 {
        Some('5')
    } else if code == KEY_6 {
        Some('6')
    } else if code == KEY_7 {
        Some('7')
    } else if code == KEY_8 {
        Some('8')
    } else if code == KEY_9 {
        Some('9')
    } else if code == KEY_0 {
        Some('0')
    } else if code == KEY_SPACE {
        Some(' ')
    } else if code == KEY_MINUS {
        Some('-')
    } else if code == KEY_EQUAL {
        Some('=')
    } else if code == KEY_LEFTBRACE {
        Some('[')
    } else if code == KEY_RIGHTBRACE {
        Some(']')
    } else if code == KEY_BACKSLASH {
        Some('\\')
    } else if code == KEY_SEMICOLON {
        Some(';')
    } else if code == KEY_APOSTROPHE {
        Some('\'')
    } else if code == KEY_COMMA {
        Some(',')
    } else if code == KEY_DOT {
        Some('.')
    } else if code == KEY_SLASH {
        Some('/')
    } else {
        Some('\0')
    }
}

/// The keys that the virtual keyboard presses.
#[derive(Clone, Copy, Debug, PartialEq, Eq, Structural)]
pub enum OutKey {
    A,
    B,
    C,
    D,
    E,
    F,
    G,
    H,
    I,
    J,
    K,
    L,
    M,
    N,
    O,
    P,
    Q,
    R,
    S,
    T,
    U,
    V,
    W,
    X,
    Y,
    Z,
    Digit1,
    Digit2,
    Digit3,
    Digit4,
    Digit5,
    Digit6,
    Digit7,
    Digit8,
    Digit9,
    Digit0,
    Space,
    Minus,
    Equal,
    LeftBrace,
    RightBrace,
    BackSlash,
    SemiColon,
    Apostrophe,
    Comma,
    Dot,
    Slash,
    BackSpace,
    Enter,
    LeftControl,
    LeftShift,
}

/// The Linux input code of a key of the virtual keyboard.
pub open spec fn linux_code(k: OutKey) -> u16 {
    match k {
        OutKey::A => KEY_A,
        OutKey::B => KEY_B,
        OutKey::C => KEY_C,
        OutKey::D => KEY_D,
        OutKey::E => KEY_E,
        OutKey::F => KEY_F,
        OutKey::G => KEY_G,
        OutKey::H => KEY_H,
        OutKey::I => KEY_I,
        OutKey::J => KEY_J,
        OutKey::K => KEY_K,
        OutKey::L => KEY_L,
        OutKey::M => KEY_M,
        OutKey::N => KEY_N,
        OutKey::O => KEY_O,
        OutKey::P => KEY_P,
        OutKey::Q => KEY_Q,
        OutKey::R => KEY_R,
        OutKey::S => KEY_S,
        OutKey::T => KEY_T,
        OutKey::U => KEY_U,
        OutKey::V => KEY_V,
        OutKey::W => KEY_W,
        OutKey::X => KEY_X,
        OutKey::Y => KEY_Y,
        OutKey::Z => KEY_Z,
        OutKey::Digit1 => KEY_1,
        OutKey::Digit2 => KEY_2,
        OutKey::Digit3 => KEY_3,
        OutKey::Digit4 => KEY_4,
        OutKey::Digit5 => KEY_5,
        OutKey::Digit6 => KEY_6,
        OutKey::Digit7 => KEY_7,
        OutKey::Digit8 => KEY_8,
        OutKey::Digit9 => KEY_9,
        OutKey::Digit0 => KEY_0,
        OutKey::Space => KEY_SPACE,
        OutKey::Minus => KEY_MINUS,
        OutKey::Equal => KEY_EQUAL,
        OutKey::LeftBrace => KEY_LEFTBRACE,
        OutKey::RightBrace => KEY_RIGHTBRACE,
        OutKey::BackSlash => KEY_BACKSLASH,
        OutKey::SemiColon => KEY_SEMICOLON,
        OutKey::Apostrophe => KEY_APOSTROPHE,
        OutKey::Comma => KEY_COMMA,
        OutKey::Dot => KEY_DOT,
        OutKey::Slash => KEY_SLASH,
        OutKey::BackSpace => KEY_BACKSPACE,
        OutKey::Enter => KEY_ENTER,
        OutKey::LeftControl => KEY_LEFTCTRL,
        OutKey::LeftShift => KEY_LEFTSHIFT,
    }
}

/// The key that types the (already lowercased) character `c`, if the
/// virtual keyboard has one.
pub open spec fn char_key(c: char) -> Option<OutKey> {
    if c == 'a' {
        Some(OutKey::A)
    } else if c == 'b' {
        Some(OutKey::B)
    } else if c == 'c' {
        Some(OutKey::C)
    } else if c == 'd' {
        Some(OutKey::D)
    } else if c == 'e' {
        Some(OutKey::E)
    } else if c == 'f' {
        Some(OutKey::F)
    } else if c == 'g' {
        Some(OutKey::G)
    } else if c == 'h' {
        Some(OutKey::H)
    } else if c == 'i' {
        Some(OutKey::I)
    } else if c == 'j' {
        Some(OutKey::J)
    } else if c == 'k' {
        Some(OutKey::K)
    } else if c == 'l' {
        Some(OutKey::L)
    } else if c == 'm' {
        Some(OutKey::M)
    } else if c == 'n' {
        Some(OutKey::N)
    } else if c == 'o' {
        Some(OutKey::O)
    } else if c == 'p' {
        Some(OutKey::P)
    } else if c == 'q' {
        Some(OutKey::Q)
    } else if c == 'r' {
        Some(OutKey::R)
    } else if c == 's' {
        Some(OutKey::S)
    } else if c == 't' {
        Some(OutKey::T)
    } else if c == 'u' {
        Some(OutKey::U)
    } else if c == 'v' {
        Some(OutKey::V)
    } else if c == 'w' {
        Some(OutKey::W)
    } else if c == 'x' {
        Some(OutKey::X)
    } else if c == 'y' {
        Some(OutKey::Y)
    } else if c == 'z' {
        Some(OutKey::Z)
    } else if c == '1' {
        Some(OutKey::Digit1)
    } else if c == '2' {
        Some(OutKey::Digit2)
    } else if c == '3' {
        Some(OutKey::Digit3)
    } else if c == '4' {
        Some(OutKey::Digit4)
    } else if c == '5' {
        Some(OutKey::Digit5)
    } else if c == '6' {
        Some(OutKey::Digit6)
    } else if c == '7' {
        Some(OutKey::Digit7)
    } else if c == '8' {
        Some(OutKey::Digit8)
    } else if c == '9' {
        Some(OutKey::Digit9)
    } else if c == '0' {
        Some(OutKey::Digit0)
    } else if c == ' ' {
        Some(OutKey::Space)
    } else if c == '-' {
        Some(OutKey::Minus)
    } else if c == '=' {
        Some(OutKey::Equal)
    } else if c == '[' {
        Some(OutKey::LeftBrace)
    } else if c == ']' {
        Some(OutKey::RightBrace)
    } else if c == '\\' {
        Some(OutKey::BackSlash)
    } else if c == ';' {
        Some(OutKey::SemiColon)
    } else if c == '\'' {
        Some(OutKey::Apostrophe)
    } else if c == ',' {
        Some(OutKey::Comma)
    } else if c == '.' {
        Some(OutKey::Dot)
    } else if c == '/' {
        Some(OutKey::Slash)
    } else {
        None
    }
}

/// The key that types the lowercase character `lc`, if any.
pub fn key_for_lowercase(lc: char) -> (k: Option<OutKey>)
    ensures
        k == char_key(lc),
{
    if lc == 'a' {
        Some(OutKey::A)
    } else if lc == 'b' {
        Some(OutKey::B)
    } else if lc == 'c' {
        Some(OutKey::C)
    } else if lc == 'd' {
        Some(OutKey::D)
    } else if lc == 'e' {
        Some(OutKey::E)
    } else if lc == 'f' {
        Some(OutKey::F)
    } else if lc == 'g' {
        Some(OutKey::G)
    } else if lc == 'h' {
        Some(OutKey::H)
    } else if lc == 'i' {
        Some(OutKey::I)
    } else if lc == 'j' {
        Some(OutKey::J)
    } else if lc == 'k' {
        Some(OutKey::K)
    } else if lc == 'l' {
        Some(OutKey::L)
    } else if lc == 'm' {
        Some(OutKey::M)
    } else if lc == 'n' {
        Some(OutKey::N)
    } else if lc == 'o' {
        Some(OutKey::O)
    } else if lc == 'p' {
        Some(OutKey::P)
    } else if lc == 'q' {
        Some(OutKey::Q)
    } else if lc == 'r' {
        Some(OutKey::R)
    } else if lc == 's' {
        Some(OutKey::S)
    } else if lc == 't' {
        Some(OutKey::T)
    } else if lc == 'u' {
        Some(OutKey::U)
    } else if lc == 'v' {
        Some(OutKey::V)
    } else if lc == 'w' {
        Some(OutKey::W)
    } else if lc == 'x' {
        Some(OutKey::X)
    } else if lc == 'y' {
        Some(OutKey::Y)
    } else if lc == 'z' {
        Some(OutKey::Z)
    } else if lc == '1' {
        Some(OutKey::Digit1)
    } else if lc == '2' {
        Some(OutKey::Digit2)
    } else if lc == '3' {
        Some(OutKey::Digit3)
    } else if lc == '4' {
        Some(OutKey::Digit4)
    } else if lc == '5' {
        Some(OutKey::Digit5)
    } else if lc == '6' {
        Some(OutKey::Digit6)
    } else if lc == '7' {
        Some(OutKey::Digit7)
    } else if lc == '8' {
        Some(OutKey::Digit8)
    } else if lc == '9' {
        Some(OutKey::Digit9)
    } else if lc == '0' {
        Some(OutKey::Digit0)
    } else if lc == ' ' {
        Some(OutKey::Space)
    } else if lc == '-' {
        Some(OutKey::Minus)
    } else if lc == '=' {
        Some(OutKey::Equal)
    } else if lc == '[' {
        Some(OutKey::LeftBrace)
    } else if lc == ']' {
        Some(OutKey::RightBrace)
    } else if lc == '\\' {
        Some(OutKey::BackSlash)
    } else if lc == ';' {
        Some(OutKey::SemiColon)
    } else if lc == '\'' {
        Some(OutKey::Apostrophe)
    } else if lc == ',' {
        Some(OutKey::Comma)
    } else if lc == '.' {
        Some(OutKey::Dot)
    } else if lc == '/' {
        Some(OutKey::Slash)
    } else {
        None
    }
}

/// The first character of the lowercase mapping of `c`.
pub uninterp spec fn lowercase_first(c: char) -> char;

/// Whether `c` is in the ASCII range.
pub open spec fn is_ascii_char(c: char) -> bool {
    (c as u32) < 128
}

/// The ASCII lowercase of an ASCII character: `'A'..='Z'` move to
/// `'a'..='z'`, every other character stays.
pub open spec fn ascii_lower(c: char) -> char {
    if 'A' <= c && c <= 'Z' {
        ((c as u32) + 32) as char
    } else {
        c
    }
}

/// Calls `char::to_lowercase` and takes the first character it yields; the
/// iterator always yields at least one.  Claimed: the result is
/// [`lowercase_first`] of `c`, and for an ASCII character it is the ASCII
/// lowercase (an uppercase ASCII letter maps to its lowercase letter, any
/// other ASCII character has no lowercase mapping and maps to itself).
/// Nothing is claimed of the mapping of other characters.
#[verifier::external_body]
fn first_of_lowercase(c: char) -> (r: char)
    ensures
        r == lowercase_first(c),
        is_ascii_char(c) ==> r == ascii_lower(c),
{
    c.to_lowercase().next().unwrap()
}

/// The key that the virtual keyboard presses to type `ch`: that of the first
/// character of its lowercase mapping, if the keyboard has one.
pub fn char_to_key(ch: char) -> (k: Option<OutKey>)
    ensures
        k == char_key(lowercase_first(ch)),
        is_ascii_char(ch) ==> k == char_key(ascii_lower(ch)),
{
    key_for_lowercase(first_of_lowercase(ch))
}

/// Case does not matter for ASCII: the ASCII lowercase of an ASCII
/// character is ASCII and is its own lowercase, so an uppercase ASCII
/// character and its lowercase letter are typed by the same key.
pub proof fn lemma_ascii_case_insensitive(c: char)
    requires
        is_ascii_char(c),
    ensures
        is_ascii_char(ascii_lower(c)),
        ascii_lower(ascii_lower(c)) == ascii_lower(c),
        char_key(ascii_lower(ascii_lower(c))) == char_key(ascii_lower(c)),
{
}

/// Typing back what was read: every key whose character is known is typed
/// again by the key of the same code.
pub proof fn lemma_read_key_is_typed_back(code: u16)
    requires
        key_char(code) != '\0',
    ensures
        char_key(key_char(code)) matches Some(k) && linux_code(k) == code,
{
}

/// Reading what was typed: a character that the virtual keyboard can type
/// is read back, from the code of the key it presses, as that character.
pub proof fn lemma_typed_char_is_read_back(c: char)
    requires
        char_key(c) is Some,
    ensures
        key_char(linux_code(char_key(c)->0)) == c,
{
}

/// The characters that shortcuts are made of: the lowercase ASCII letters,
/// the decimal digits, the space, and `- = [ ] \\ ; ' , . /`.
pub open spec fn is_key_char(c: char) -> bool {
    ||| ('a' <= c && c <= 'z')
    ||| ('0' <= c && c <= '9')
    ||| c == ' '
    ||| c == '-'
    ||| c == '='
    ||| c == '['
    ||| c == ']'
    ||| c == '\\'
    ||| c == ';'
    ||| c == '\''
    ||| c == ','
    ||| c == '.'
    ||| c == '/'
}

/// Whether `k` is a key that types a character, as opposed to Backspace,
/// Enter, Ctrl and Shift.
pub open spec fn is_character_key(k: OutKey) -> bool {
    !(k is BackSpace || k is Enter || k is LeftControl || k is LeftShift)
}

/// The virtual keyboard has a key for exactly the shortcut characters, and
/// the key it presses for such a character is read back as that character.
pub proof fn lemma_every_key_char_is_typed(c: char)
    ensures
        char_key(c) is Some <==> is_key_char(c),
        is_key_char(c) ==> is_character_key(char_key(c)->0),
        is_key_char(c) ==> key_char(linux_code(char_key(c)->0)) == c,
{
}

/// Every key that types a character is read as a shortcut character (never
/// as `'\0'`), and is the key that the virtual keyboard presses to type
/// that character back.
pub proof fn lemma_every_character_key_is_read(k: OutKey)
    requires
        is_character_key(k),
    ensures
        key_char(linux_code(k)) != '\0',
        is_key_char(key_char(linux_code(k))),
        char_key(key_char(linux_code(k))) == Some(k),
{
}

/// The number row of a US keyboard, codes 2 to 13.
pub open spec fn number_row() -> Seq<char> {
    seq!['1', '2', '3', '4', '5', '6', '7', '8', '9', '0', '-', '=']
}

/// The top letter row, codes 16 to 27.
pub open spec fn top_row() -> Seq<char> {
    seq!['q', 'w', 'e', 'r', 't', 'y', 'u', 'i', 'o', 'p', '[', ']']
}

/// The home row, codes 30 to 40.
pub open spec fn home_row() -> Seq<char> {
    seq!['a', 's', 'd', 'f', 'g', 'h', 'j', 'k', 'l', ';', '\'']
}

/// The bottom row, codes 44 to 53.
pub open spec fn bottom_row() -> Seq<char> {
    seq!['z', 'x', 'c', 'v', 'b', 'n', 'm', ',', '.', '/']
}

/// The keys are read by their place on a US keyboard: each row of keys
/// has consecutive Linux codes, read left to right as the row's
/// characters; code 43 is the backslash and code 57 the space bar.
pub proof fn lemma_keyboard_layout(i: int)
    ensures
        0 <= i < 12 ==> key_char((2 + i) as u16) == number_row()[i],
        0 <= i < 12 ==> key_char((16 + i) as u16) == top_row()[i],
        0 <= i < 11 ==> key_char((30 + i) as u16) == home_row()[i],
        0 <= i < 10 ==> key_char((44 + i) as u16) == bottom_row()[i],
        key_char(43) == '\\',
        key_char(57) == ' ',
{
}

/// A key code is read either as `'\0'` or as a shortcut character, and
/// distinct keys of the virtual keyboard have distinct codes.
pub proof fn lemma_key_codes_are_distinct(code: u16, k1: OutKey, k2: OutKey)
    ensures
        key_char(code) == '\0' || is_key_char(key_char(code)),
        linux_code(k1) == linux_code(k2) ==> k1 == k2,
{
}

} // verus!
