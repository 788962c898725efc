use incept::text::join_path;
use incept::xml::{read_events, replacements_path, start_names_of, start_tag_names, XmlEvent};

fn names(xml: &str) -> Vec<String> {
    start_tag_names(xml.as_bytes())
        .into_iter()
        .map(|n| String::from_utf8(n).unwrap())
        .collect()
}

#[test]
fn start_tags_in_document_order() {
    assert_eq!(
        vec!["replacements", "item", "alias"],
        names("<?xml version=\"1.0\"?><!-- c --><replacements><item k='1'>x<alias>a</alias></item></replacements>")
    );
}

#[test]
fn empty_elements_are_not_start_tags() {
    assert_eq!(vec!["a", "c"], names("<a><b/></a><c x='1'>t</c>"));
}

#[test]
fn no_tags_in_empty_or_plain_text() {
    assert!(names("").is_empty());
    assert!(names("just text").is_empty());
}

#[test]
fn reading_stops_after_an_error() {
    assert_eq!(vec!["a"], names("<a></b><c>"));
}

#[test]
fn qualified_names_are_kept_whole() {
    assert_eq!(vec!["ns:tag"], names("<ns:tag xmlns:ns='u'></ns:tag>"));
}

#[test]
fn replacements_path_ignores_home() {
    assert_eq!("/.config/incept/replacements.xml", replacements_path("/home/user"));
    assert_eq!("/.config/incept/replacements.xml", replacements_path(""));
}

#[test]
fn joining_paths() {
    assert_eq!("/home/u/x", join_path("/home/u", "x"));
    assert_eq!("/home/u/x", join_path("/home/u/", "x"));
    assert_eq!("x", join_path("", "x"));
    assert_eq!("a/", join_path("a", ""));
    assert_eq!("/abs", join_path("/home/u", "/abs"));
    for (b, p) in [("/home/u", "x"), ("/home/u/", "x"), ("", "x"), ("a", ""), ("/h", "/abs")] {
        let expected = std::path::Path::new(b).join(p);
        assert_eq!(expected.to_str().unwrap(), join_path(b, p));
    }
}

#[test]
fn start_names_of_given_events() {
    let events = vec![
        XmlEvent::Other,
        XmlEvent::Start(b"a".to_vec()),
        XmlEvent::Error,
        XmlEvent::Start(b"b".to_vec()),
        XmlEvent::Eof,
        XmlEvent::Start(b"c".to_vec()),
    ];
    assert_eq!(vec![b"a".to_vec(), b"b".to_vec()], start_names_of(&events));
    assert!(start_names_of(&Vec::new()).is_empty());
    assert_eq!(
        vec![b"x".to_vec()],
        start_names_of(&vec![XmlEvent::Start(b"x".to_vec())])
    );
    assert!(start_names_of(&vec![XmlEvent::Eof, XmlEvent::Start(b"x".to_vec())]).is_empty());
}

#[test]
fn read_events_stops_at_the_first_eof() {
    let events = read_events(b"<a>t</a>");
    assert_eq!(4, events.len());
    assert!(matches!(&events[0], XmlEvent::Start(n) if n == b"a"));
    assert!(matches!(events[1], XmlEvent::Other));
    assert!(matches!(events[2], XmlEvent::Other));
    assert!(matches!(events[3], XmlEvent::Eof));

    let events = read_events(b"<a></b>");
    assert_eq!(3, events.len());
    assert!(matches!(events[1], XmlEvent::Error));
    assert!(matches!(events[2], XmlEvent::Eof));

    let events = read_events(b"");
    assert_eq!(1, events.len());
    assert!(matches!(events[0], XmlEvent::Eof));
}
