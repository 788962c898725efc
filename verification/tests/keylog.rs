use incept::keylog::{buffer_matches, buffer_to_string, log_keystroke};

#[test]
fn test_buffer_matches() {
    let mut buffer: [char; 4] = ['\0', '\0', '\0', '\0'];
    let mut buffer_head: usize = 0;

    log_keystroke('p', &mut buffer, &mut buffer_head);
    log_keystroke('a', &mut buffer, &mut buffer_head);
    log_keystroke('l', &mut buffer, &mut buffer_head);
    log_keystroke('t', &mut buffer, &mut buffer_head);

    assert!(buffer_matches(buffer, buffer_head, "palt".to_string()));

    log_keystroke('o', &mut buffer, &mut buffer_head);
    log_keystroke('m', &mut buffer, &mut buffer_head);
    log_keystroke('w', &mut buffer, &mut buffer_head);

    assert!(buffer_matches(buffer, buffer_head, "omw".to_string()));

    log_keystroke('t', &mut buffer, &mut buffer_head);
    log_keystroke('m', &mut buffer, &mut buffer_head);
    log_keystroke(' ', &mut buffer, &mut buffer_head);

    assert!(buffer_matches(buffer, buffer_head, "tm ".to_string()));

    assert!(!buffer_matches(buffer, buffer_head, "wtm".to_string()));
}

#[test]
fn test_buffer_impl() {
    let mut buffer: [char; 4] = ['\0', '\0', '\0', '\0'];
    let mut buffer_head: usize = 0;

    log_keystroke('p', &mut buffer, &mut buffer_head);
    assert_eq!('p', buffer[0]);
    assert_eq!(1, buffer_head);

    log_keystroke('a', &mut buffer, &mut buffer_head);
    assert_eq!(2, buffer_head);

    log_keystroke('l', &mut buffer, &mut buffer_head);
    assert_eq!(3, buffer_head);

    log_keystroke('t', &mut buffer, &mut buffer_head);
    assert_eq!(0, buffer_head);

    log_keystroke('x', &mut buffer, &mut buffer_head);
    assert_eq!('x', buffer[0]);
    assert_eq!(1, buffer_head);
}

#[test]
fn test_buffer_to_string() {
    let mut buffer: [char; 4] = ['\0', '\0', '\0', '\0'];
    let mut buffer_head: usize = 0;

    assert_eq!("\0\0\0\0", buffer_to_string(buffer, buffer_head));

    log_keystroke('p', &mut buffer, &mut buffer_head);
    log_keystroke('a', &mut buffer, &mut buffer_head);
    log_keystroke('l', &mut buffer, &mut buffer_head);
    log_keystroke('t', &mut buffer, &mut buffer_head);

    assert_eq!("palt", buffer_to_string(buffer, buffer_head));

    log_keystroke('o', &mut buffer, &mut buffer_head);
    log_keystroke('m', &mut buffer, &mut buffer_head);
    log_keystroke('w', &mut buffer, &mut buffer_head);

    assert_eq!("tomw", buffer_to_string(buffer, buffer_head));

    log_keystroke(' ', &mut buffer, &mut buffer_head);
    log_keystroke('t', &mut buffer, &mut buffer_head);
    log_keystroke('m', &mut buffer, &mut buffer_head);

    assert_eq!("w tm", buffer_to_string(buffer, buffer_head));
}

#[test]
fn log_keeps_the_last_keys_after_many_rounds() {
    let mut buffer: [char; 3] = ['x', 'y', 'z'];
    let mut head: usize = 2;
    for c in "abcdefgh".chars() {
        log_keystroke(c, &mut buffer, &mut head);
        assert!(head < 3);
    }
    assert_eq!("fgh", buffer_to_string(buffer, head));
    assert!(buffer_matches(buffer, head, "gh".to_string()));
    assert!(buffer_matches(buffer, head, "fgh".to_string()));
    assert!(!buffer_matches(buffer, head, "efgh".to_string()));
}

#[test]
fn partial_log_keeps_old_content_first() {
    let mut buffer: [char; 4] = ['a', 'b', 'c', 'd'];
    let mut head: usize = 1;
    log_keystroke('x', &mut buffer, &mut head);
    assert_eq!(['a', 'x', 'c', 'd'], buffer);
    assert_eq!(2, head);
    assert_eq!("cdax", buffer_to_string(buffer, head));
}

#[test]
fn window_start_wraps_for_large_head() {
    let buffer: [char; 3] = ['a', 'b', 'c'];
    assert_eq!("bca", buffer_to_string(buffer, 7));
    assert_eq!("abc", buffer_to_string(buffer, 9));
}

#[test]
fn single_slot_log() {
    let mut buffer: [char; 1] = ['\0'];
    let mut head: usize = 0;
    log_keystroke('q', &mut buffer, &mut head);
    assert_eq!(0, head);
    assert_eq!("q", buffer_to_string(buffer, head));
    assert!(buffer_matches(buffer, head, "q".to_string()));
}

#[test]
fn empty_alias_always_matches() {
    let buffer: [char; 2] = ['a', 'b'];
    assert!(buffer_matches(buffer, 0, String::new()));
}

#[test]
fn non_ascii_keys_are_kept() {
    let mut buffer: [char; 2] = ['\0', '\0'];
    let mut head: usize = 0;
    log_keystroke('é', &mut buffer, &mut head);
    log_keystroke('\u{2122}', &mut buffer, &mut head);
    assert_eq!("é\u{2122}", buffer_to_string(buffer, head));
    assert!(buffer_matches(buffer, head, "\u{2122}".to_string()));
}
