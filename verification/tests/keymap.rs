use incept::keymap::{
    char_to_key, key_for_lowercase, key_to_char, OutKey, KEY_0, KEY_1, KEY_A, KEY_APOSTROPHE,
    KEY_BACKSLASH, KEY_BACKSPACE, KEY_DOT, KEY_M, KEY_SLASH, KEY_SPACE, KEY_Z,
};

#[test]
fn key_codes_type_their_characters() {
    assert_eq!(Some('a'), key_to_char(KEY_A));
    assert_eq!(Some('z'), key_to_char(KEY_Z));
    assert_eq!(Some('m'), key_to_char(KEY_M));
    assert_eq!(Some('1'), key_to_char(KEY_1));
    assert_eq!(Some('0'), key_to_char(KEY_0));
    assert_eq!(Some(' '), key_to_char(KEY_SPACE));
    assert_eq!(Some('\\'), key_to_char(KEY_BACKSLASH));
    assert_eq!(Some('\''), key_to_char(KEY_APOSTROPHE));
    assert_eq!(Some('.'), key_to_char(KEY_DOT));
    assert_eq!(Some('/'), key_to_char(KEY_SLASH));
}

#[test]
fn key_codes_are_the_linux_ones() {
    assert_eq!(30, KEY_A);
    assert_eq!(2, KEY_1);
    assert_eq!(11, KEY_0);
    assert_eq!(57, KEY_SPACE);
    assert_eq!(14, KEY_BACKSPACE);
}

#[test]
fn unmapped_keys_type_nul() {
    assert_eq!(Some('\0'), key_to_char(KEY_BACKSPACE));
    assert_eq!(Some('\0'), key_to_char(1));
    assert_eq!(Some('\0'), key_to_char(0));
    assert_eq!(Some('\0'), key_to_char(u16::MAX));
}

#[test]
fn characters_map_to_keys() {
    assert_eq!(Some(OutKey::A), char_to_key('a'));
    assert_eq!(Some(OutKey::Digit7), char_to_key('7'));
    assert_eq!(Some(OutKey::SemiColon), char_to_key(';'));
    assert_eq!(Some(OutKey::Space), char_to_key(' '));
    assert_eq!(None, char_to_key('!'));
    assert_eq!(None, char_to_key('\0'));
    assert_eq!(None, char_to_key('é'));
}

#[test]
fn uppercase_characters_use_the_lowercase_key() {
    assert_eq!(Some(OutKey::A), char_to_key('A'));
    assert_eq!(Some(OutKey::O), char_to_key('O'));
    assert_eq!(Some(OutKey::W), char_to_key('W'));
    assert_eq!(None, key_for_lowercase('A'));
}

#[test]
fn unicode_lowercase_mapping_is_used() {
    // KELVIN SIGN lowercases to 'k'; LATIN CAPITAL I WITH DOT ABOVE to "i\u{307}".
    assert_eq!(Some(OutKey::K), char_to_key('\u{212A}'));
    assert_eq!(Some(OutKey::I), char_to_key('\u{130}'));
}

#[test]
fn read_keys_are_typed_back() {
    for code in 0..=u16::MAX {
        let c = key_to_char(code).unwrap();
        if c != '\0' {
            assert!(char_to_key(c).is_some(), "code {}", code);
        }
    }
}
