use vstd::prelude::*;

use quick_xml::events::{BytesStart, Event};
use quick_xml::Reader;

use self::RawXmlEvent::{CData, End, Other, Tag, Text};

use crate::text::copy_bytes;

verus! {

/// One event of an XML reader, as far as this library reads it.
#[derive(Debug, Clone)]
pub enum XmlEvent {
    /// An opening tag (`false`) or a self-closing one (`true`): the raw name and
    /// the attributes in document order, each a raw key and its unescaped value
    /// (`None` where unescaping failed).
    Tag(bool, Vec<u8>, Vec<(Vec<u8>, Option<String>)>),
    /// A closing tag and its raw name.
    End(Vec<u8>),
    /// Text, unescaped (`None` where unescaping failed).
    Text(Option<String>),
    /// The raw bytes of a CDATA section.
    CData(Vec<u8>),
    /// A declaration, comment, processing instruction or doctype.
    Other,
}

/// The mathematical value of an [`XmlEvent`].
pub enum SpecXmlEvent {
    Tag(bool, Seq<u8>, Seq<(Seq<u8>, Option<Seq<char>>)>),
    End(Seq<u8>),
    Text(Option<Seq<char>>),
    CData(Seq<u8>),
    Other,
}

pub open spec fn opt_chars(o: Option<String>) -> Option<Seq<char>> {
    match o {
        Some(s) => Some(s@),
        None => None,
    }
}

pub open spec fn attr_pair_view(a: (Vec<u8>, Option<String>)) -> (Seq<u8>, Option<Seq<char>>) {
    (a.0@, opt_chars(a.1))
}

pub open spec fn event_view(e: XmlEvent) -> SpecXmlEvent {
    match e {
        XmlEvent::Tag(empty, name, attrs) => SpecXmlEvent::Tag(
            empty,
            name@,
            attrs@.map_values(|a: (Vec<u8>, Option<String>)| attr_pair_view(a)),
        ),
        XmlEvent::End(name) => SpecXmlEvent::End(name@),
        XmlEvent::Text(t) => SpecXmlEvent::Text(opt_chars(t)),
        XmlEvent::CData(b) => SpecXmlEvent::CData(b@),
        XmlEvent::Other => SpecXmlEvent::Other,
    }
}

pub open spec fn events_view(es: Seq<XmlEvent>) -> Seq<SpecXmlEvent> {
    es.map_values(|e: XmlEvent| event_view(e))
}

/// An XML event as the reader gives it, without the attributes of tags.
pub enum RawXmlEvent {
    Tag(bool, Vec<u8>),
    End(Vec<u8>),
    Text(Option<String>),
    CData(Vec<u8>),
    Other,
}

pub enum SpecRawXmlEvent {
    Tag(bool, Seq<u8>),
    End(Seq<u8>),
    Text(Option<Seq<char>>),
    CData(Seq<u8>),
    Other,
}

pub open spec fn raw_event_view(e: RawXmlEvent) -> SpecRawXmlEvent {
    match e {
        RawXmlEvent::Tag(empty, name) => SpecRawXmlEvent::Tag(empty, name@),
        RawXmlEvent::End(name) => SpecRawXmlEvent::End(name@),
        RawXmlEvent::Text(t) => SpecRawXmlEvent::Text(opt_chars(t)),
        RawXmlEvent::CData(b) => SpecRawXmlEvent::CData(b@),
        RawXmlEvent::Other => SpecRawXmlEvent::Other,
    }
}

/// The attributes of a tag: raw key and unescaped value of each.
pub type AttrList = Vec<(Vec<u8>, Option<String>)>;

pub open spec fn attrs_view(a: AttrList) -> Seq<(Seq<u8>, Option<Seq<char>>)> {
    a@.map_values(|x: (Vec<u8>, Option<String>)| attr_pair_view(x))
}

pub open spec fn opt_attrs_view(o: Option<AttrList>) -> Option<Seq<(Seq<u8>, Option<Seq<char>>)>> {
    match o {
        Some(a) => Some(attrs_view(a)),
        None => None,
    }
}

/// The events that `quick_xml` reads from `raw`, up to the end of the input
/// or the first error, with text trimmed when `trim_text` is set (tags
/// without their attributes).
pub uninterp spec fn xml_raw_events(raw: Seq<char>, trim_text: bool) -> Seq<SpecRawXmlEvent>;

/// For the same events, the attributes of each tag (`None` for the others).
pub uninterp spec fn xml_event_attrs(raw: Seq<char>, trim_text: bool) -> Seq<Option<Seq<(Seq<u8>, Option<Seq<char>>)>>>;

/// An event with the attributes read for it.
pub open spec fn with_attrs(e: SpecRawXmlEvent, a: Option<Seq<(Seq<u8>, Option<Seq<char>>)>>) -> SpecXmlEvent {
    match e {
        SpecRawXmlEvent::Tag(empty, name) => SpecXmlEvent::Tag(
            empty,
            name,
            match a {
                Some(v) => v,
                None => Seq::empty(),
            },
        ),
        SpecRawXmlEvent::End(name) => SpecXmlEvent::End(name),
        SpecRawXmlEvent::Text(t) => SpecXmlEvent::Text(t),
        SpecRawXmlEvent::CData(b) => SpecXmlEvent::CData(b),
        SpecRawXmlEvent::Other => SpecXmlEvent::Other,
    }
}

/// The events of an XML text with the attributes of its tags.
pub open spec fn xml_events(raw: Seq<char>, trim_text: bool) -> Seq<SpecXmlEvent> {
    let ev = xml_raw_events(raw, trim_text);
    let at = xml_event_attrs(raw, trim_text);
    Seq::new(ev.len(), |i: int| with_attrs(ev[i], if i < at.len() { at[i] } else { None }))
}

/// Reads the events of an XML text with `quick_xml::Reader`, stopping at the
/// end or at the first error. Nothing is stated of how the reader tokenizes.
#[verifier::external_body]
fn read_raw_events(raw: &str, trim_text: bool) -> (r: Vec<RawXmlEvent>)
    ensures
        r@.map_values(|e: RawXmlEvent| raw_event_view(e)) == xml_raw_events(raw@, trim_text),
{
    let mut reader = Reader::from_str(raw);
    reader.config_mut().trim_text(trim_text);
    std::iter::from_fn(|| match reader.read_event().ok()? {
        Event::Start(e) => Some(Tag(false, e.name().0.to_vec())),
        Event::Empty(e) => Some(Tag(true, e.name().0.to_vec())),
        Event::End(e) => Some(End(e.name().0.to_vec())),
        Event::Text(t) => Some(Text(t.unescape().ok().map(Into::into))),
        Event::CData(t) => Some(CData(t.to_vec())),
        Event::Eof => None,
        _ => Some(Other),
    }).collect()
}

/// Reads the same events with `quick_xml::Reader` and gives, for each, the
/// attributes of a tag (malformed ones left out), or `None`. Nothing is
/// stated of how the reader tokenizes.
#[verifier::external_body]
fn read_event_attrs(raw: &str, trim_text: bool) -> (r: Vec<Option<AttrList>>)
    ensures
        r@.map_values(|a: Option<AttrList>| opt_attrs_view(a)) == xml_event_attrs(raw@, trim_text),
{
    let mut reader = Reader::from_str(raw);
    reader.config_mut().trim_text(trim_text);
    let attrs = |e: BytesStart| e.attributes().flatten().map(|a| (a.key.0.to_vec(), a.unescape_value().ok().map(Into::into))).collect();
    std::iter::from_fn(|| match reader.read_event().ok()? {
        Event::Start(e) | Event::Empty(e) => Some(Some(attrs(e))),
        Event::Eof => None,
        _ => Some(None),
    }).collect()
}

fn copy_attrs(a: &AttrList) -> (r: AttrList)
    ensures
        attrs_view(r) == attrs_view(*a),
{
    let mut out: AttrList = Vec::new();
    let mut i: usize = 0;
    while i < a.len()
        invariant
            i <= a@.len(),
            attrs_view(out) == attrs_view(*a).take(i as int),
        decreases a@.len() - i,
    {
        let key = copy_bytes(a[i].0.as_slice(), 0, a[i].0.len());
        let value: Option<String> = match &a[i].1 {
            Some(v) => Some(v.clone()),
            None => None,
        };
        let ghost before = attrs_view(out);
        out.push((key, value));
        assert(a[i as int].0@.subrange(0, a[i as int].0@.len() as int) =~= a[i as int].0@);
        assert(attrs_view(out) =~= before.push(attr_pair_view(a@[i as int])));
        assert(attrs_view(*a).take(i + 1) =~= attrs_view(*a).take(i as int).push(attr_pair_view(a@[i as int])));
        i += 1;
    }
    assert(attrs_view(*a).take(a@.len() as int) =~= attrs_view(*a));
    out
}

/// Reads all events of an XML text, tags with their attributes.
pub fn read_xml_events(raw: &str, trim_text: bool) -> (r: Vec<XmlEvent>)
    ensures
        events_view(r@) == xml_events(raw@, trim_text),
{
    let evs = read_raw_events(raw, trim_text);
    let ats = read_event_attrs(raw, trim_text);
    let ghost ev = evs@.map_values(|e: RawXmlEvent| raw_event_view(e));
    let ghost at = ats@.map_values(|a: Option<AttrList>| opt_attrs_view(a));
    let n = evs.len();
    let mut out: Vec<XmlEvent> = Vec::new();
    let mut i: usize = 0;
    while i < n
        invariant
            n == evs@.len(),
            ev == evs@.map_values(|e: RawXmlEvent| raw_event_view(e)),
            at == ats@.map_values(|a: Option<AttrList>| opt_attrs_view(a)),
            i <= n,
            out@.len() == i,
            forall|k: int|
                0 <= k < i ==> event_view(#[trigger] out@[k]) == with_attrs(ev[k], if k < at.len() { at[k] } else { None }),
        decreases n - i,
    {
        let e = match &evs[i] {
            RawXmlEvent::Tag(empty, name) => {
                let attrs: AttrList = if i < ats.len() {
                    match &ats[i] {
                        Some(a) => copy_attrs(a),
                        None => {
                            let v: AttrList = Vec::new();
                            assert(attrs_view(v) =~= Seq::<(Seq<u8>, Option<Seq<char>>)>::empty());
                            v
                        },
                    }
                } else {
                    let v: AttrList = Vec::new();
                    assert(attrs_view(v) =~= Seq::<(Seq<u8>, Option<Seq<char>>)>::empty());
                    v
                };
                let nm = copy_bytes(name.as_slice(), 0, name.len());
                assert(name@.subrange(0, name@.len() as int) =~= name@);
                XmlEvent::Tag(*empty, nm, attrs)
            },
            RawXmlEvent::End(name) => {
                let nm = copy_bytes(name.as_slice(), 0, name.len());
                assert(name@.subrange(0, name@.len() as int) =~= name@);
                XmlEvent::End(nm)
            },
            RawXmlEvent::Text(t) => XmlEvent::Text(
                match t {
                    Some(v) => Some(v.clone()),
                    None => None,
                },
            ),
            RawXmlEvent::CData(b) => {
                let bs = copy_bytes(b.as_slice(), 0, b.len());
                assert(b@.subrange(0, b@.len() as int) =~= b@);
                XmlEvent::CData(bs)
            },
            RawXmlEvent::Other => XmlEvent::Other,
        };
        proof {
            assert(ev[i as int] == raw_event_view(evs@[i as int]));
            if i < at.len() {
                assert(at[i as int] == opt_attrs_view(ats@[i as int]));
            }
        }
        assert(event_view(e) == with_attrs(ev[i as int], if i < at.len() { at[i as int] } else { None }));
        out.push(e);
        i += 1;
    }
    assert(events_view(out@) =~= xml_events(raw@, trim_text));
    out
}

} // verus!
