//! DASH manifest records and their parsing.
//!
//! A manifest describes the representations of a live stream and the range of
//! currently published segments.  The wire format is XML: quick_xml tokenizes
//! the document into events behind a handful of trusted wrappers, the events
//! are converted to plain values, and everything from the event stream to the
//! typed `Manifest` record is verified here against an exact specification.

use vstd::prelude::*;
use vstd::string::{StringExecFns, StrSliceExecFns};
use crate::numstr::{
    spec_i64_string,
    spec_valid_i64,
    spec_i64_val,
    spec_valid_u64,
    spec_digits_val,
    i64_to_string,
    parse_i64,
    parse_u64,
};
use crate::strops::str_eq;

verus! {

// ---------------------------------------------------------------------------
// Records
// ---------------------------------------------------------------------------
/// One encoded variant of the stream: audio when it carries no resolution,
/// video when it does.
#[derive(Clone, Debug)]
pub struct Representation {
    pub id: i64,
    pub codecs: String,
    pub bandwidth: i64,
    pub base_url: String,
    pub width: Option<i64>,
    pub height: Option<i64>,
    pub frame_rate: Option<i64>,
}

/// The mathematical value of a `Representation`.
pub struct RepView {
    pub id: int,
    pub codecs: Seq<char>,
    pub bandwidth: int,
    pub base_url: Seq<char>,
    pub width: Option<int>,
    pub height: Option<int>,
    pub frame_rate: Option<int>,
}

impl View for Representation {
    type V = RepView;

    open spec fn view(&self) -> RepView {
        RepView {
            id: self.id as int,
            codecs: self.codecs@,
            bandwidth: self.bandwidth as int,
            base_url: self.base_url@,
            width: match self.width {
                Some(w) => Some(w as int),
                None => None,
            },
            height: match self.height {
                Some(h) => Some(h as int),
                None => None,
            },
            frame_rate: match self.frame_rate {
                Some(f) => Some(f as int),
                None => None,
            },
        }
    }
}

impl Representation {
    /// The address of one numbered segment under this representation's base
    /// address.
    pub fn get_url(&self, segment_number: i64) -> (r: String)
        ensures
            r@ == self.base_url@ + "sq/"@ + spec_i64_string(segment_number as int),
    {
        let r = String::from_str(self.base_url.as_str()).concat("sq/").concat(
            i64_to_string(segment_number).as_str(),
        );
        proof {
            assert(r@ =~= self.base_url@ + "sq/"@ + spec_i64_string(segment_number as int));
        }
        r
    }
}

/// One manifest snapshot: the fixed segment duration in milliseconds, the
/// latest published segment index, and the representation set.
#[derive(Debug)]
pub struct Manifest {
    pub segment_duration: u64,
    pub latest_segment_number: i64,
    pub representations: Vec<Representation>,
}

/// The mathematical value of a `Manifest`.
pub struct ManifestView {
    pub segment_duration: int,
    pub latest_segment_number: int,
    pub representations: Seq<RepView>,
}

impl View for Manifest {
    type V = ManifestView;

    open spec fn view(&self) -> ManifestView {
        ManifestView {
            segment_duration: self.segment_duration as int,
            latest_segment_number: self.latest_segment_number as int,
            representations: self.representations@.map(|i: int, r: Representation| r@),
        }
    }
}

/// What can go wrong turning manifest text into a `Manifest`.
#[derive(Debug, PartialEq, Eq, Structural)]
pub enum DashError {
    /// The reader could not tokenize the document.
    ReadError,
    /// A required attribute is missing or unreadable.
    AttributeNotFound,
    /// A segment counter left the representable range.
    NumberOutOfRange,
    /// The document ended inside a representation element.
    UnexpectedEnd,
}

// ---------------------------------------------------------------------------
// Plain events
// ---------------------------------------------------------------------------
/// One XML event as plain values: tag names and attribute key/value text.
pub enum PlainEvent {
    StartTag { name: String, attrs: Vec<(String, String)> },
    EmptyTag { name: String, attrs: Vec<(String, String)> },
    Text { text: String },
    EndTag { name: String },
    Skipped,
}

// ---------------------------------------------------------------------------
// Trusted quick_xml items
// ---------------------------------------------------------------------------
#[verifier::external_type_specification]
#[verifier::external_body]
#[verifier::reject_recursive_types(R)]
pub struct ExReader<R>(quick_xml::Reader<R>);

#[verifier::external_type_specification]
#[verifier::external_body]
pub struct ExBytesStart<'a>(quick_xml::events::BytesStart<'a>);

#[verifier::external_type_specification]
#[verifier::external_body]
pub struct ExBytesText<'a>(quick_xml::events::BytesText<'a>);

/// One event as quick_xml hands it out, before conversion to plain values.
enum RawEvent<'a> {
    Start(quick_xml::events::BytesStart<'a>),
    Empty(quick_xml::events::BytesStart<'a>),
    Text(quick_xml::events::BytesText<'a>),
    End(String),
    Eof,
    Other,
    Failed,
}

/// Relies on quick_xml's `Reader::from_str`: an XML pull reader over the text.
#[verifier::external_body]
fn xml_reader_from_str<'a>(s: &'a str) -> (r: quick_xml::Reader<&'a [u8]>) {
    quick_xml::Reader::from_str(s)
}

/// Relies on quick_xml's `Reader::trim_text`: text events are trimmed of
/// surrounding whitespace and whitespace-only text events are suppressed.
#[verifier::external_body]
fn xml_reader_trim_text(r: &mut quick_xml::Reader<&[u8]>) {
    r.trim_text(true);
}

/// Relies on quick_xml's `Reader::read_event`: the next event of the
/// document, `Eof` once it is exhausted.
#[verifier::external_body]
fn xml_read_event<'a>(r: &mut quick_xml::Reader<&'a [u8]>) -> (ev: RawEvent<'a>) {
    match r.read_event() {
        Ok(quick_xml::events::Event::Start(e)) => RawEvent::Start(e),
        Ok(quick_xml::events::Event::Empty(e)) => RawEvent::Empty(e),
        Ok(quick_xml::events::Event::Text(e)) => RawEvent::Text(e),
        Ok(quick_xml::events::Event::End(e)) => RawEvent::End(
            String::from_utf8_lossy(e.name().as_ref()).into_owned(),
        ),
        Ok(quick_xml::events::Event::Eof) => RawEvent::Eof,
        Ok(_) => RawEvent::Other,
        Err(_) => RawEvent::Failed,
    }
}

/// Relies on quick_xml's `BytesStart::name`: the tag name of the event.
#[verifier::external_body]
fn xml_tag_name(e: &quick_xml::events::BytesStart) -> (r: String) {
    String::from_utf8_lossy(e.name().as_ref()).into_owned()
}

/// Relies on quick_xml's `BytesStart::attributes`: every well-formed
/// UTF-8 attribute of the tag, as key/value text in document order.
#[verifier::external_body]
fn xml_attrs(e: &quick_xml::events::BytesStart) -> (r: Vec<(String, String)>) {
    e.attributes().filter_map(|a| a.ok()).filter_map(
        |a| {
            let k = String::from_utf8(a.key.as_ref().to_vec()).ok()?;
            let v = String::from_utf8(a.value.to_vec()).ok()?;
            Some((k, v))
        },
    ).collect()
}

/// Relies on quick_xml's `BytesText::unescape`: the text content with XML
/// entities decoded; empty where decoding fails.
#[verifier::external_body]
fn xml_text_unescaped(t: &quick_xml::events::BytesText) -> (r: String) {
    t.unescape().ok().map(|c| c.into_owned()).unwrap_or_default()
}

fn plain_of_raw(ev: RawEvent) -> PlainEvent {
    match ev {
        RawEvent::Start(e) => PlainEvent::StartTag { name: xml_tag_name(&e), attrs: xml_attrs(&e) },
        RawEvent::Empty(e) => PlainEvent::EmptyTag { name: xml_tag_name(&e), attrs: xml_attrs(&e) },
        RawEvent::Text(t) => PlainEvent::Text { text: xml_text_unescaped(&t) },
        RawEvent::End(name) => PlainEvent::EndTag { name },
        RawEvent::Eof => PlainEvent::Skipped,
        RawEvent::Other => PlainEvent::Skipped,
        RawEvent::Failed => PlainEvent::Skipped,
    }
}

/// Tokenizes manifest text into plain events.  The reader yields at most one
/// event per input byte before `Eof`; a document that misbehaves beyond that
/// budget is rejected rather than looped on.
fn collect_events(text: &str) -> (r: Result<Vec<PlainEvent>, DashError>) {
    let mut reader = xml_reader_from_str(text);
    xml_reader_trim_text(&mut reader);
    let mut events: Vec<PlainEvent> = Vec::new();
    let mut budget = text.len();
    loop
        decreases budget,
    {
        let ev = xml_read_event(&mut reader);
        match ev {
            RawEvent::Eof => {
                return Ok(events);
            },
            RawEvent::Failed => {
                return Err(DashError::ReadError);
            },
            other => {
                events.push(plain_of_raw(other));
            },
        }
        if budget == 0 {
            return Err(DashError::ReadError);
        }
        budget = budget - 1;
    }
}

// ---------------------------------------------------------------------------
// Attribute lookup
// ---------------------------------------------------------------------------
/// The value of the first attribute named `name`, if any.
pub open spec fn spec_find_attr(attrs: Seq<(String, String)>, name: Seq<char>) -> Option<Seq<char>>
    decreases attrs.len(),
{
    if attrs.len() == 0 {
        None
    } else if attrs[0].0@ == name {
        Some(attrs[0].1@)
    } else {
        spec_find_attr(attrs.skip(1), name)
    }
}

/// Looks up the first attribute named `name`.
pub fn find_attr<'a>(attrs: &'a Vec<(String, String)>, name: &str) -> (r: Option<&'a String>)
    ensures
        match r {
            Some(v) => spec_find_attr(attrs@, name@) == Some(v@),
            None => spec_find_attr(attrs@, name@) is None,
        },
{
    let n = attrs.len();
    let mut i: usize = 0;
    proof {
        assert(attrs@.skip(0) =~= attrs@);
    }
    while i < n
        invariant
            0 <= i <= n,
            n == attrs@.len(),
            spec_find_attr(attrs@, name@) == spec_find_attr(attrs@.skip(i as int), name@),
        decreases n - i,
    {
        proof {
            assert(attrs@.skip(i as int)[0] == attrs@[i as int]);
            assert(attrs@.skip(i as int).skip(1) =~= attrs@.skip(i as int + 1));
        }
        if str_eq(attrs[i].0.as_str(), name) {
            return Some(&attrs[i].1);
        }
        i = i + 1;
    }
    proof {
        assert(attrs@.skip(n as int).len() == 0);
    }
    None
}

/// The attribute's value read as a signed decimal, `None` when the attribute
/// is absent or does not parse.
pub open spec fn spec_attr_i64(attrs: Seq<(String, String)>, name: Seq<char>) -> Option<int> {
    match spec_find_attr(attrs, name) {
        None => None,
        Some(v) => if spec_valid_i64(v) {
            Some(spec_i64_val(v))
        } else {
            None
        },
    }
}

/// The attribute's value read as an unsigned decimal.
pub open spec fn spec_attr_u64(attrs: Seq<(String, String)>, name: Seq<char>) -> Option<int> {
    match spec_find_attr(attrs, name) {
        None => None,
        Some(v) => if spec_valid_u64(v) {
            Some(spec_digits_val(v))
        } else {
            None
        },
    }
}

fn attr_i64(attrs: &Vec<(String, String)>, name: &str) -> (r: Option<i64>)
    ensures
        match r {
            Some(v) => spec_attr_i64(attrs@, name@) == Some(v as int),
            None => spec_attr_i64(attrs@, name@) is None,
        },
{
    match find_attr(attrs, name) {
        Some(v) => parse_i64(v.as_str()),
        None => None,
    }
}

fn attr_u64(attrs: &Vec<(String, String)>, name: &str) -> (r: Option<u64>)
    ensures
        match r {
            Some(v) => spec_attr_u64(attrs@, name@) == Some(v as int),
            None => spec_attr_u64(attrs@, name@) is None,
        },
{
    match find_attr(attrs, name) {
        Some(v) => parse_u64(v.as_str()),
        None => None,
    }
}

// ---------------------------------------------------------------------------
// Representation from a start tag
// ---------------------------------------------------------------------------
/// The representation a `Representation` start tag's attributes describe:
/// identifier, codec string and bandwidth are required, the resolution and
/// frame-rate attributes are kept when present and readable.  The base
/// address starts empty; the element body supplies it.
pub open spec fn spec_rep_from_attrs(attrs: Seq<(String, String)>) -> Result<RepView, DashError> {
    if spec_attr_i64(attrs, "id"@) is None {
        Err(DashError::AttributeNotFound)
    } else if spec_find_attr(attrs, "codecs"@) is None {
        Err(DashError::AttributeNotFound)
    } else if spec_attr_i64(attrs, "bandwidth"@) is None {
        Err(DashError::AttributeNotFound)
    } else {
        Ok(
            RepView {
                id: spec_attr_i64(attrs, "id"@).unwrap(),
                codecs: spec_find_attr(attrs, "codecs"@).unwrap(),
                bandwidth: spec_attr_i64(attrs, "bandwidth"@).unwrap(),
                base_url: Seq::empty(),
                width: spec_attr_i64(attrs, "width"@),
                height: spec_attr_i64(attrs, "height"@),
                frame_rate: spec_attr_i64(attrs, "frameRate"@),
            },
        )
    }
}

impl Representation {
    /// Builds the representation described by a `Representation` start tag's
    /// attributes.
    pub fn from_start_event(attrs: &Vec<(String, String)>) -> (r: Result<Representation, DashError>)
        ensures
            match r {
                Ok(rep) => spec_rep_from_attrs(attrs@) == Ok::<RepView, DashError>(rep@),
                Err(e) => spec_rep_from_attrs(attrs@) == Err::<RepView, DashError>(e),
            },
    {
        let id = match attr_i64(attrs, "id") {
            Some(v) => v,
            None => {
                return Err(DashError::AttributeNotFound);
            },
        };
        let codecs = match find_attr(attrs, "codecs") {
            Some(v) => v.clone(),
            None => {
                return Err(DashError::AttributeNotFound);
            },
        };
        let bandwidth = match attr_i64(attrs, "bandwidth") {
            Some(v) => v,
            None => {
                return Err(DashError::AttributeNotFound);
            },
        };
        let rep = Representation {
            id,
            codecs,
            bandwidth,
            base_url: String::new(),
            width: attr_i64(attrs, "width"),
            height: attr_i64(attrs, "height"),
            frame_rate: attr_i64(attrs, "frameRate"),
        };
        Ok(rep)
    }
}

// ---------------------------------------------------------------------------
// The manifest fold
// ---------------------------------------------------------------------------
/// A representation element being read: the record so far and whether the
/// reader stands inside its `BaseURL` element.
pub struct RepProgressView {
    pub rep: RepView,
    pub in_base: bool,
}

/// The starting accumulator of the fold: an empty manifest.
pub open spec fn spec_empty_manifest() -> ManifestView {
    ManifestView { segment_duration: 0, latest_segment_number: 0, representations: Seq::empty() }
}

/// One event applied to the fold state.
///
/// Outside a representation element: an empty `S` tag reads the segment
/// duration from its `d` attribute and counts one more published segment; a
/// `SegmentList` start resets the segment counter to `startNumber - 1`; a
/// `Representation` start opens a representation.  Inside one: a `BaseURL`
/// start begins the base address, text inside it becomes the base address,
/// and the matching end tag commits the representation.  Everything else is
/// passed over.
pub open spec fn spec_fold_step(
    m: ManifestView,
    cur: Option<RepProgressView>,
    ev: PlainEvent,
) -> Result<(ManifestView, Option<RepProgressView>), DashError> {
    match cur {
        Some(rp) => match ev {
            PlainEvent::StartTag { name, attrs } => if name@ == "BaseURL"@ {
                Ok((m, Some(RepProgressView { rep: rp.rep, in_base: true })))
            } else {
                Ok((m, Some(rp)))
            },
            PlainEvent::Text { text } => if rp.in_base {
                Ok(
                    (
                        m,
                        Some(
                            RepProgressView {
                                rep: RepView { base_url: text@, ..rp.rep },
                                in_base: rp.in_base,
                            },
                        ),
                    ),
                )
            } else {
                Ok((m, Some(rp)))
            },
            PlainEvent::EndTag { name } => if name@ == "Representation"@ {
                Ok(
                    (
                        ManifestView {
                            representations: m.representations.push(rp.rep),
                            ..m
                        },
                        None,
                    ),
                )
            } else {
                Ok((m, Some(rp)))
            },
            _ => Ok((m, Some(rp))),
        },
        None => match ev {
            PlainEvent::EmptyTag { name, attrs } => if name@ == "S"@ {
                match spec_attr_u64(attrs@, "d"@) {
                    None => Err(DashError::AttributeNotFound),
                    Some(d) => if m.latest_segment_number + 1 > i64::MAX {
                        Err(DashError::NumberOutOfRange)
                    } else {
                        Ok(
                            (
                                ManifestView {
                                    segment_duration: d,
                                    latest_segment_number: m.latest_segment_number + 1,
                                    ..m
                                },
                                None,
                            ),
                        )
                    },
                }
            } else {
                Ok((m, None))
            },
            PlainEvent::StartTag { name, attrs } => if name@ == "SegmentList"@ {
                match spec_attr_i64(attrs@, "startNumber"@) {
                    None => Err(DashError::AttributeNotFound),
                    Some(s) => if s - 1 < i64::MIN {
                        Err(DashError::NumberOutOfRange)
                    } else {
                        Ok((ManifestView { latest_segment_number: s - 1, ..m }, None))
                    },
                }
            } else if name@ == "Representation"@ {
                match spec_rep_from_attrs(attrs@) {
                    Err(e) => Err(e),
                    Ok(rv) => Ok((m, Some(RepProgressView { rep: rv, in_base: false }))),
                }
            } else {
                Ok((m, None))
            },
            _ => Ok((m, None)),
        },
    }
}

/// The manifest the events from `pos` on yield, folded over `spec_fold_step`.
/// A document that ends inside a representation element is rejected.
pub open spec fn spec_manifest_fold(
    events: Seq<PlainEvent>,
    pos: int,
    m: ManifestView,
    cur: Option<RepProgressView>,
) -> Result<ManifestView, DashError>
    decreases events.len() - pos,
{
    if !(0 <= pos < events.len()) {
        if cur is Some {
            Err(DashError::UnexpectedEnd)
        } else {
            Ok(m)
        }
    } else {
        match spec_fold_step(m, cur, events[pos]) {
            Err(e) => Err(e),
            Ok((m2, cur2)) => spec_manifest_fold(events, pos + 1, m2, cur2),
        }
    }
}

/// The exec fold state for the representation being read.
pub struct RepInProgress {
    pub rep: Representation,
    pub in_base: bool,
}

/// The fold state's mathematical value.
pub open spec fn spec_cur_view(cur: Option<RepInProgress>) -> Option<RepProgressView> {
    match cur {
        Some(rp) => Some(RepProgressView { rep: rp.rep@, in_base: rp.in_base }),
        None => None,
    }
}

/// Builds the manifest a plain event sequence describes; the exact result is
/// fixed by `spec_manifest_fold` over the events.
pub fn parse_manifest_events(events: &Vec<PlainEvent>) -> (r: Result<Manifest, DashError>)
    ensures
        match r {
            Ok(m) => spec_manifest_fold(events@, 0, spec_empty_manifest(), None) == Ok::<
                ManifestView,
                DashError,
            >(m@),
            Err(e) => spec_manifest_fold(events@, 0, spec_empty_manifest(), None) == Err::<
                ManifestView,
                DashError,
            >(e),
        },
{
    let mut m = Manifest {
        segment_duration: 0,
        latest_segment_number: 0,
        representations: Vec::new(),
    };
    let mut cur: Option<RepInProgress> = None;
    proof {
        assert(m@.representations =~= spec_empty_manifest().representations);
        assert(m@ == spec_empty_manifest());
    }
    let n = events.len();
    let mut i: usize = 0;
    while i < n
        invariant
            0 <= i <= n,
            n == events@.len(),
            spec_manifest_fold(events@, 0, spec_empty_manifest(), None) == spec_manifest_fold(
                events@,
                i as int,
                m@,
                spec_cur_view(cur),
            ),
        decreases n - i,
    {
        let ghost m0 = m@;
        let ghost cv0 = spec_cur_view(cur);
        let ev = &events[i];
        if cur.is_some() {
            match ev {
                PlainEvent::StartTag { name, attrs } => {
                    if str_eq(name.as_str(), "BaseURL") {
                        let rp = cur.unwrap();
                        cur = Some(RepInProgress { rep: rp.rep, in_base: true });
                    }
                },
                PlainEvent::Text { text } => {
                    let rp = cur.unwrap();
                    if rp.in_base {
                        let mut rep = rp.rep;
                        rep.base_url = text.clone();
                        cur = Some(RepInProgress { rep, in_base: true });
                    } else {
                        cur = Some(rp);
                    }
                },
                PlainEvent::EndTag { name } => {
                    if str_eq(name.as_str(), "Representation") {
                        let rp = cur.unwrap();
                        m.representations.push(rp.rep);
                        cur = None;
                        proof {
                            assert(m@.representations =~= m0.representations.push(
                                cv0.unwrap().rep,
                            ));
                        }
                    }
                },
                _ => {},
            }
        } else {
            match ev {
                PlainEvent::EmptyTag { name, attrs } => {
                    if str_eq(name.as_str(), "S") {
                        match attr_u64(attrs, "d") {
                            None => {
                                proof {
                                    lemma_fold_err(
                                        events@,
                                        i as int,
                                        m0,
                                        cv0,
                                        DashError::AttributeNotFound,
                                    );
                                }
                                return Err(DashError::AttributeNotFound);
                            },
                            Some(d) => {
                                if m.latest_segment_number == i64::MAX {
                                    proof {
                                        lemma_fold_err(
                                            events@,
                                            i as int,
                                            m0,
                                            cv0,
                                            DashError::NumberOutOfRange,
                                        );
                                    }
                                    return Err(DashError::NumberOutOfRange);
                                }
                                m.segment_duration = d;
                                m.latest_segment_number = m.latest_segment_number + 1;
                            },
                        }
                    }
                },
                PlainEvent::StartTag { name, attrs } => {
                    if str_eq(name.as_str(), "SegmentList") {
                        match attr_i64(attrs, "startNumber") {
                            None => {
                                proof {
                                    lemma_fold_err(
                                        events@,
                                        i as int,
                                        m0,
                                        cv0,
                                        DashError::AttributeNotFound,
                                    );
                                }
                                return Err(DashError::AttributeNotFound);
                            },
                            Some(s) => {
                                if s == i64::MIN {
                                    proof {
                                        lemma_fold_err(
                                            events@,
                                            i as int,
                                            m0,
                                            cv0,
                                            DashError::NumberOutOfRange,
                                        );
                                    }
                                    return Err(DashError::NumberOutOfRange);
                                }
                                m.latest_segment_number = s - 1;
                            },
                        }
                    } else if str_eq(name.as_str(), "Representation") {
                        match Representation::from_start_event(attrs) {
                            Err(e) => {
                                proof {
                                    lemma_fold_err(events@, i as int, m0, cv0, e);
                                }
                                return Err(e);
                            },
                            Ok(rep) => {
                                cur = Some(RepInProgress { rep, in_base: false });
                            },
                        }
                    }
                },
                _ => {},
            }
        }
        proof {
            assert(spec_fold_step(m0, cv0, events@[i as int]) == Ok::<
                (ManifestView, Option<RepProgressView>),
                DashError,
            >((m@, spec_cur_view(cur))));
        }
        i = i + 1;
    }
    if cur.is_some() {
        return Err(DashError::UnexpectedEnd);
    }
    Ok(m)
}

/// When one step fails, the whole fold fails with that error.
proof fn lemma_fold_err(
    events: Seq<PlainEvent>,
    pos: int,
    m: ManifestView,
    cur: Option<RepProgressView>,
    e: DashError,
)
    requires
        0 <= pos < events.len(),
        spec_fold_step(m, cur, events[pos]) == Err::<
            (ManifestView, Option<RepProgressView>),
            DashError,
        >(e),
    ensures
        spec_manifest_fold(events, pos, m, cur) == Err::<ManifestView, DashError>(e),
{
}

/// Parses manifest text: quick_xml tokenizes it, and the verified fold above
/// builds the `Manifest`.  The result for any event sequence is fixed by
/// `parse_manifest_events`; what event sequence a given text yields is the
/// tokenizer's.
pub fn parse_manifest(manifest: &str) -> (r: Result<Manifest, DashError>) {
    let events = match collect_events(manifest) {
        Ok(evs) => evs,
        Err(e) => {
            return Err(e);
        },
    };
    parse_manifest_events(&events)
}

} // verus!
