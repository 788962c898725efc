use incept::keylog::buffer_to_string;
use incept::keymap::{OutKey, KEY_A, KEY_L, KEY_M, KEY_O, KEY_P, KEY_SPACE, KEY_T, KEY_W, KEY_X};
use incept::replace::{
    default_shortcuts, find_shortcut, on_key_event, replace_actions, KeyAction, Shortcut,
};

fn tap(k: OutKey) -> Vec<KeyAction> {
    vec![KeyAction::Press(k), KeyAction::Release(k)]
}

fn release_all(
    codes: &[u16],
    buffer: &mut [char; 4],
    head: &mut usize,
    shortcuts: &Vec<Shortcut>,
) -> Vec<Option<usize>> {
    codes
        .iter()
        .map(|&c| on_key_event(buffer, head, c, 0, shortcuts).fired)
        .collect()
}

#[test]
fn replacement_of_omw() {
    let mut expected = Vec::new();
    for _ in 0..3 {
        expected.extend(tap(OutKey::BackSpace));
    }
    expected.push(KeyAction::Sync);
    expected.extend(tap(OutKey::O));
    expected.extend(tap(OutKey::N));
    expected.extend(tap(OutKey::Space));
    expected.extend(tap(OutKey::M));
    expected.extend(tap(OutKey::Y));
    expected.extend(tap(OutKey::Space));
    expected.extend(tap(OutKey::W));
    expected.extend(tap(OutKey::A));
    expected.extend(tap(OutKey::Y));
    expected.push(KeyAction::Sync);
    assert_eq!(expected, replace_actions("omw", "On my way!"));
}

#[test]
fn replacement_of_trade_mark() {
    let mut expected = Vec::new();
    for _ in 0..3 {
        expected.extend(tap(OutKey::BackSpace));
    }
    expected.push(KeyAction::Sync);
    expected.push(KeyAction::Press(OutKey::LeftControl));
    expected.push(KeyAction::Press(OutKey::LeftShift));
    expected.push(KeyAction::Press(OutKey::U));
    expected.push(KeyAction::Release(OutKey::U));
    expected.push(KeyAction::Release(OutKey::LeftShift));
    expected.push(KeyAction::Release(OutKey::LeftControl));
    expected.extend(tap(OutKey::Digit2));
    expected.extend(tap(OutKey::Digit1));
    expected.extend(tap(OutKey::Digit2));
    expected.extend(tap(OutKey::Digit2));
    expected.extend(tap(OutKey::Enter));
    expected.push(KeyAction::Sync);
    assert_eq!(expected, replace_actions("tm ", "\u{2122}"));
}

#[test]
fn empty_replacement_only_syncs() {
    assert_eq!(vec![KeyAction::Sync, KeyAction::Sync], replace_actions("", ""));
    assert_eq!(vec![KeyAction::Sync, KeyAction::Sync], replace_actions("", "!?"));
}

#[test]
fn default_shortcuts_are_the_known_ones() {
    let s = default_shortcuts();
    assert_eq!(4, s.len());
    assert_eq!("palt", s[0].alias);
    assert_eq!("Please generate an alt-text description for this image.", s[0].expansion);
    assert_eq!("tm ", s[1].alias);
    assert_eq!("\u{2122}", s[1].expansion);
    assert_eq!("foo", s[2].alias);
    assert_eq!("bar", s[2].expansion);
    assert_eq!("omw", s[3].alias);
    assert_eq!("On my way!", s[3].expansion);
}

#[test]
fn typing_an_alias_fires_its_shortcut() {
    let shortcuts = default_shortcuts();
    let mut buffer: [char; 4] = ['\0'; 4];
    let mut head: usize = 0;
    let fired = release_all(&[KEY_P, KEY_A, KEY_L], &mut buffer, &mut head, &shortcuts);
    assert_eq!(vec![None, None, None], fired);
    let r = on_key_event(&mut buffer, &mut head, KEY_T, 0, &shortcuts);
    assert_eq!(Some(0), r.fired);
    assert_eq!(
        replace_actions("palt", "Please generate an alt-text description for this image."),
        r.actions
    );
    assert_eq!("palt", buffer_to_string(buffer, head));

    let fired = release_all(&[KEY_O, KEY_M, KEY_W], &mut buffer, &mut head, &shortcuts);
    assert_eq!(vec![None, None, Some(3)], fired);

    let fired = release_all(&[KEY_T, KEY_M, KEY_SPACE], &mut buffer, &mut head, &shortcuts);
    assert_eq!(vec![None, None, Some(1)], fired);
}

#[test]
fn pressed_keys_are_not_logged() {
    let shortcuts = default_shortcuts();
    let mut buffer: [char; 4] = ['o', 'm', '\0', '\0'];
    let mut head: usize = 2;
    let r = on_key_event(&mut buffer, &mut head, KEY_W, 1, &shortcuts);
    assert_eq!(None, r.fired);
    assert!(r.actions.is_empty());
    assert_eq!(2, head);
    assert_eq!(['o', 'm', '\0', '\0'], buffer);
    let r = on_key_event(&mut buffer, &mut head, KEY_W, 2, &shortcuts);
    assert_eq!(None, r.fired);
    assert_eq!(2, head);
}

#[test]
fn unmapped_keys_break_an_alias() {
    let shortcuts = default_shortcuts();
    let mut buffer: [char; 4] = ['\0'; 4];
    let mut head: usize = 0;
    let fired = release_all(&[KEY_O, KEY_M, 1, KEY_W], &mut buffer, &mut head, &shortcuts);
    assert_eq!(vec![None, None, None, None], fired);
    assert_eq!("om\0w", buffer_to_string(buffer, head));
}

#[test]
fn first_listed_shortcut_wins() {
    let shortcuts = vec![
        Shortcut { alias: "xa".to_string(), expansion: "1".to_string() },
        Shortcut { alias: "a".to_string(), expansion: "2".to_string() },
    ];
    let buffer: [char; 4] = ['q', 'q', 'x', 'a'];
    assert_eq!(Some(0), find_shortcut(&buffer, 0, &shortcuts));
    let buffer: [char; 4] = ['q', 'q', 'q', 'a'];
    assert_eq!(Some(1), find_shortcut(&buffer, 0, &shortcuts));
    let buffer: [char; 4] = ['q', 'q', 'q', 'q'];
    assert_eq!(None, find_shortcut(&buffer, 0, &shortcuts));
    let mut buffer: [char; 4] = ['q'; 4];
    let mut head: usize = 3;
    let r = on_key_event(&mut buffer, &mut head, KEY_X, 0, &shortcuts);
    assert_eq!(None, r.fired);
    let r = on_key_event(&mut buffer, &mut head, KEY_A, 0, &shortcuts);
    assert_eq!(Some(0), r.fired);
    assert_eq!(replace_actions("xa", "1"), r.actions);
}
