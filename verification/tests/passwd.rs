use incept::passwd::{parse_decimal_u64, parse_user};

#[test]
fn parses_a_root_line() {
    let u = parse_user("root:x:0:0:root:/root:/bin/bash").unwrap();
    assert_eq!("root", u.name);
    assert_eq!(0, u.uid);
    assert_eq!(0, u.gid);
    assert_eq!("/root", u.dir);
    assert_eq!("/bin/bash", u.shell);
}

#[test]
fn parses_empty_fields_and_extra_fields() {
    let u = parse_user(":x:1000:100:::").unwrap();
    assert_eq!("", u.name);
    assert_eq!(1000, u.uid);
    assert_eq!(100, u.gid);
    assert_eq!("", u.dir);
    assert_eq!("", u.shell);

    let u = parse_user("a:x:1:2:g:/h:/s:more:fields").unwrap();
    assert_eq!("a", u.name);
    assert_eq!("/h", u.dir);
    assert_eq!("/s", u.shell);
}

#[test]
fn too_few_fields_give_none() {
    assert!(parse_user("").is_none());
    assert!(parse_user("root:x:0:0:root:/root").is_none());
    assert!(parse_user("just a line").is_none());
}

#[test]
fn bad_ids_give_none() {
    assert!(parse_user("a:x:abc:0:g:/h:/s").is_none());
    assert!(parse_user("a:x:0:-1:g:/h:/s").is_none());
    assert!(parse_user("a:x::0:g:/h:/s").is_none());
    assert!(parse_user("a:x:0: 1:g:/h:/s").is_none());
    assert!(parse_user("a:x:18446744073709551616:0:g:/h:/s").is_none());
}

#[test]
fn largest_ids_parse() {
    let u = parse_user("a:x:18446744073709551615:+7:g:/h:/s").unwrap();
    assert_eq!(u64::MAX, u.uid);
    assert_eq!(7, u.gid);
}

#[test]
fn non_ascii_names_are_kept() {
    let u = parse_user("jörg:x:5:6:Jörg:/home/jörg:/bin/sh").unwrap();
    assert_eq!("jörg", u.name);
    assert_eq!("/home/jörg", u.dir);
}

#[test]
fn decimal_parsing_agrees_with_std() {
    let cases = [
        "", "+", "-", "0", "+0", "-0", "007", "42", "+42", "++4", "4+", "1_0", " 1", "1 ",
        "18446744073709551615", "18446744073709551616", "99999999999999999999x", "٣",
    ];
    for s in cases {
        assert_eq!(s.parse::<u64>().ok(), parse_decimal_u64(s), "{:?}", s);
    }
    assert_eq!(Some(123), parse_decimal_u64("123"));
    assert_eq!(Some(5), parse_decimal_u64("+5"));
}
