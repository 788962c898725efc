//! The replacements file: listing the names of its start tags with
//! quick-xml's pull reader.

use vstd::prelude::*;

use quick_xml::events::Event;
use quick_xml::Reader;

use crate::text::{join_path, path_join};

verus! {

/// Where the replacements file is looked for, given the home directory:
/// `/.config/incept/replacements.xml` joined onto it.  That path is
/// absolute, so joining it replaces the home directory altogether.
pub fn replacements_path(home: &str) -> (path: String)
    ensures
        path@ == path_join(home@, "/.config/incept/replacements.xml"@),
        path@ == "/.config/incept/replacements.xml"@,
{
    proof {
        reveal_strlit("/.config/incept/replacements.xml");
    }
    join_path(home, "/.config/incept/replacements.xml")
}

/// What the reader yields, as the library sees it: a start tag with its
/// name, the end of the input, a parse error, or any other event.
#[derive(Debug)]
pub enum XmlEvent {
    Start(Vec<u8>),
    Eof,
    Other,
    Error,
}

#[verifier::external_type_specification]
#[verifier::external_body]
#[verifier::reject_recursive_types(R)]
pub struct ExReader<R>(Reader<R>);

/// The events that quick-xml's `Reader`, reading `xml` with its default
/// configuration, yields one after the other, up to and including the first
/// `Eof`.
pub uninterp spec fn xml_events(xml: Seq<u8>) -> Seq<XmlEvent>;

/// The events that `reader` has still to yield, up to and including the
/// first `Eof`.
pub uninterp spec fn events_left(reader: Reader<&[u8]>) -> Seq<XmlEvent>;

/// Whether `events` is a non-empty run of events whose last one is `Eof`.
pub open spec fn ends_with_eof(events: Seq<XmlEvent>) -> bool {
    events.len() > 0 && events.last() is Eof
}

/// Calls `Reader::from_reader` on the bytes `xml`.  Claimed: the reader has
/// the events of `xml` left to yield, and they end with `Eof`.  In the
/// source every event but `Eof` consumes input, `Eof` is returned at the
/// end of the input, and an error moves the reader to its final state, in
/// which it returns `Eof` for ever; so reading a byte slice ends with `Eof`
/// after finitely many events.  The configuration is the default one, in
/// which text is not trimmed and empty elements are not expanded.
#[verifier::external_body]
fn new_reader(xml: &[u8]) -> (reader: Reader<&[u8]>)
    ensures
        events_left(reader) == xml_events(xml@),
        ends_with_eof(events_left(reader)),
{
    Reader::from_reader(xml)
}

/// Calls `Reader::read_event_into` once, with `buf` as scratch space, and
/// tells the variants of the result apart: a start tag gives its name, an
/// error gives `Error`.  Claimed: the event is the first of the events left,
/// which then lose it; after `Eof` the reader is in its final state and the
/// events left stay as they were (`Eof` again).  Nothing is claimed of what
/// `buf` holds afterwards.
#[verifier::external_body]
fn read_next_event(reader: &mut Reader<&[u8]>, buf: &mut Vec<u8>) -> (e: XmlEvent)
    requires
        ends_with_eof(events_left(*old(reader))),
    ensures
        e == events_left(*old(reader))[0],
        e is Eof ==> events_left(*final(reader)) == events_left(*old(reader)),
        !(e is Eof) ==> events_left(*final(reader)) == events_left(*old(reader)).drop_first(),
{
    match reader.read_event_into(buf) {
        Ok(Event::Start(tag)) => XmlEvent::Start(tag.name().as_ref().to_vec()),
        Ok(Event::Eof) => XmlEvent::Eof,
        Ok(_) => XmlEvent::Other,
        Err(_) => XmlEvent::Error,
    }
}

/// The names of the start tags among `events`, in order, up to the first
/// `Eof`; errors and other events are passed over.
pub open spec fn start_names(events: Seq<XmlEvent>) -> Seq<Seq<u8>>
    decreases events.len(),
{
    if events.len() == 0 {
        Seq::empty()
    } else {
        match events[0] {
            XmlEvent::Eof => Seq::empty(),
            XmlEvent::Start(name) => seq![name@] + start_names(events.drop_first()),
            _ => start_names(events.drop_first()),
        }
    }
}

/// Start names are gathered event by event: for events `a` that hold no
/// `Eof`, the names of `a` followed by `b` are those of `a` followed by
/// those of `b`.
pub proof fn lemma_start_names_concatenate(a: Seq<XmlEvent>, b: Seq<XmlEvent>)
    requires
        forall|i: int| 0 <= i < a.len() ==> !(#[trigger] a[i] is Eof),
    ensures
        start_names(a + b) == start_names(a) + start_names(b),
    decreases a.len(),
{
    if a.len() == 0 {
        assert(a + b =~= b);
        assert(start_names(a) + start_names(b) =~= start_names(b));
    } else {
        let rest = a.drop_first();
        assert forall|i: int| 0 <= i < rest.len() implies !(#[trigger] rest[i] is Eof) by {
            assert(rest[i] == a[i + 1]);
        }
        lemma_start_names_concatenate(rest, b);
        assert((a + b).drop_first() =~= rest + b);
        assert((a + b)[0] == a[0]);
        match a[0] {
            XmlEvent::Start(name) => {
                assert(seq![name@] + (start_names(rest) + start_names(b)) =~= seq![name@]
                    + start_names(rest) + start_names(b));
            },
            _ => {},
        }
    }
}

/// What one event contributes: a start tag its name, `Eof` ends the list,
/// and any other event (errors included) nothing.
pub proof fn lemma_start_names_per_event(e: XmlEvent, rest: Seq<XmlEvent>)
    ensures
        e matches XmlEvent::Start(name) ==> start_names(seq![e] + rest) == seq![name@]
            + start_names(rest),
        e is Eof ==> start_names(seq![e] + rest) == Seq::<Seq<u8>>::empty(),
        (e is Other || e is Error) ==> start_names(seq![e] + rest) == start_names(rest),
{
    assert((seq![e] + rest).drop_first() =~= rest);
    assert((seq![e] + rest)[0] == e);
}

/// Every start tag before the first `Eof` gives exactly one name: for
/// events without `Eof`, there are as many names as start tags.
pub proof fn lemma_one_name_per_start_tag(events: Seq<XmlEvent>)
    requires
        forall|i: int| 0 <= i < events.len() ==> !(#[trigger] events[i] is Eof),
    ensures
        start_names(events).len() == events.filter(|e: XmlEvent| e is Start).len(),
    decreases events.len(),
{
    reveal_with_fuel(Seq::<_>::filter, 1);
    if events.len() > 0 {
        let init = events.drop_last();
        let last = events.last();
        assert forall|i: int| 0 <= i < init.len() implies !(#[trigger] init[i] is Eof) by {
            assert(init[i] == events[i]);
        }
        lemma_one_name_per_start_tag(init);
        assert(init + seq![last] =~= events);
        lemma_start_names_concatenate(init, seq![last]);
        lemma_start_names_per_event(last, Seq::<XmlEvent>::empty());
        assert(seq![last] + Seq::<XmlEvent>::empty() =~= seq![last]);
        assert(!(last is Eof)) by {
            assert(events[events.len() - 1] == last);
        }
    }
}

/// Skipping the events after the first `Eof` changes no start name.
proof fn lemma_start_names_through_eof(events: Seq<XmlEvent>, k: int)
    requires
        1 <= k <= events.len(),
        events[k - 1] is Eof,
    ensures
        start_names(events.take(k)) == start_names(events),
    decreases k,
{
    if !(events[0] is Eof) {
        assert(events.take(k).drop_first() =~= events.drop_first().take(k - 1));
        lemma_start_names_through_eof(events.drop_first(), k - 1);
    }
}

/// The names of the start tags among `events`, in order, up to the first
/// `Eof`; errors and other events are passed over.
pub fn start_names_of(events: &Vec<XmlEvent>) -> (names: Vec<Vec<u8>>)
    ensures
        names@.map_values(|n: Vec<u8>| n@) == start_names(events@),
{
    let mut names: Vec<Vec<u8>> = Vec::new();
    let mut i: usize = 0;
    assert(events@.skip(0) =~= events@);
    assert(names@.map_values(|n: Vec<u8>| n@) + start_names(events@) =~= start_names(events@));
    while i < events.len()
        invariant_except_break
            i <= events.len(),
            names@.map_values(|n: Vec<u8>| n@) + start_names(events@.skip(i as int))
                == start_names(events@),
        ensures
            names@.map_values(|n: Vec<u8>| n@) == start_names(events@),
        decreases events.len() - i,
    {
        let ghost rest = events@.skip(i as int);
        let ghost before = names@.map_values(|n: Vec<u8>| n@);
        assert(rest[0] == events@[i as int]);
        assert(rest.drop_first() =~= events@.skip(i + 1));
        match &events[i] {
            XmlEvent::Start(name) => {
                let copy = name.clone();
                assert(copy@ =~= name@);
                names.push(copy);
                assert(names@.map_values(|n: Vec<u8>| n@) =~= before.push(name@));
                assert(before.push(name@) + start_names(rest.drop_first()) =~= before + (seq![
                    name@,
                ] + start_names(rest.drop_first())));
            },
            XmlEvent::Eof => {
                assert(before + Seq::<Seq<u8>>::empty() =~= before);
                break;
            },
            _ => {},
        }
        i = i + 1;
    }
    if i == events.len() {
        assert(events@.skip(i as int) =~= Seq::<XmlEvent>::empty());
        assert(names@.map_values(|n: Vec<u8>| n@) + Seq::<Seq<u8>>::empty()
            =~= names@.map_values(|n: Vec<u8>| n@));
    }
    names
}

/// The events that the reader yields on the XML text `xml`, up to and
/// including the first `Eof`.
pub fn read_events(xml: &[u8]) -> (events: Vec<XmlEvent>)
    ensures
        1 <= events@.len() <= xml_events(xml@).len(),
        events@ == xml_events(xml@).take(events@.len() as int),
        events@.last() is Eof,
        forall|i: int| 0 <= i < events@.len() - 1 ==> !(#[trigger] events@[i] is Eof),
{
    let ghost all = xml_events(xml@);
    let mut reader = new_reader(xml);
    let mut buf: Vec<u8> = Vec::new();
    let mut events: Vec<XmlEvent> = Vec::new();
    loop
        invariant_except_break
            events_left(reader) == all.skip(events@.len() as int),
            forall|i: int| 0 <= i < events@.len() ==> !(#[trigger] events@[i] is Eof),
        invariant
            all == xml_events(xml@),
            ends_with_eof(events_left(reader)),
            events@.len() <= all.len(),
            events@ == all.take(events@.len() as int),
        ensures
            1 <= events@.len() <= all.len(),
            events@ == all.take(events@.len() as int),
            events@.last() is Eof,
            forall|i: int| 0 <= i < events@.len() - 1 ==> !(#[trigger] events@[i] is Eof),
        decreases events_left(reader).len(),
    {
        let ghost k = events@.len() as int;
        let ghost left = events_left(reader);
        let e = read_next_event(&mut reader, &mut buf);
        let stop = match e {
            XmlEvent::Eof => true,
            _ => false,
        };
        events.push(e);
        assert(left[0] == all[k]);
        assert(events@ =~= all.take(k + 1));
        if stop {
            break;
        }
        assert(events_left(reader) =~= all.skip(k + 1));
    }
    events
}

/// The names of the start tags of the XML text `xml`, in the order the
/// reader meets them, up to the end of the input.  Errors are passed over;
/// after one the reader ends.
pub fn start_tag_names(xml: &[u8]) -> (names: Vec<Vec<u8>>)
    ensures
        names@.map_values(|n: Vec<u8>| n@) == start_names(xml_events(xml@)),
{
    let events = read_events(xml);
    proof {
        lemma_start_names_through_eof(xml_events(xml@), events@.len() as int);
    }
    start_names_of(&events)
}

} // verus!
