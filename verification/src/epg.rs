//! XMLTV programme guide parsing.
//!
//! The guide is an XML document of `<programme>` elements; each has
//! `channel`, `start` and `stop` attributes and `<title>` and `<desc>`
//! children. The parser is a state machine that receives the XML events one
//! at a time and hands back programmes in batches of a bounded size. Times
//! are `YYYYMMDDHHMMSS` optionally followed by a `+HHMM`/`-HHMM` offset.

use vstd::prelude::*;
use crate::batch::{Batcher, full_len};
use crate::models::{EPGEntry, EPGEntryView, views};
use crate::text::{
    chars_of, string_of, trim_bounds, trim, byte_len, char_at_byte, byte_len_at_least,
    char_at_byte_exec, std_parse_i64, parse_short_i64, lemma_char_at_byte,
    lemma_char_at_byte_mono, utf8_string, is_digit, all_digits, digits_value, is_ascii_text,
    lemma_ascii_byte_len, lemma_ascii_char_at_byte, lemma_trim_unchanged,
};

verus! {

/// The format of the date and time part of an XMLTV time.
pub open spec fn xmltv_format() -> Seq<char> {
    "%Y%m%d%H%M%S"@
}

/// The name of chrono's answer for `s` and `fmt`: the seconds since the Unix
/// epoch of the date and time that `NaiveDateTime::parse_from_str(s, fmt)`
/// reads, taken as UTC; none when chrono refuses `s`.
pub uninterp spec fn naive_utc_timestamp(s: Seq<char>, fmt: Seq<char>) -> Option<i64>;

/// chrono's `NaiveDateTime::parse_from_str(s, fmt)` followed by
/// `and_utc().timestamp()`. The contract names the result and bounds it:
/// chrono's dates lie within the years -262143..=262142 (its `MIN_YEAR` and
/// `MAX_YEAR`), less than 9·10^12 seconds from the epoch. How chrono reads
/// the text is not stated.
#[verifier::external_body]
fn parse_utc_seconds(s: &str, fmt: &str) -> (r: Option<i64>)
    ensures
        r == naive_utc_timestamp(s@, fmt@),
        r matches Some(t) ==> -9_000_000_000_000 <= t <= 9_000_000_000_000,
{
    match chrono::NaiveDateTime::parse_from_str(s, fmt) {
        Ok(ndt) => Some(ndt.and_utc().timestamp()),
        Err(_) => None,
    }
}

/// `parse_tz_offset` does not panic on `s`: once `s` is trimmed and holds at
/// least 5 bytes, bytes 1, 3 and 5 of it fall on character boundaries.
pub open spec fn tz_offset_defined(s: Seq<char>) -> bool {
    let t = trim(s);
    byte_len(t) >= 5 ==> {
        &&& char_at_byte(t, 1) is Some
        &&& char_at_byte(t.skip(1), 2) is Some
        &&& char_at_byte(t.skip(1), 4) is Some
    }
}

/// The offset in seconds that `s` (`+HHMM` or `-HHMM`) gives: 0 when the
/// trimmed text is shorter than 5 bytes; otherwise the sign is `-` when the
/// text starts with `-` and `+` otherwise, and the hours and minutes are the
/// next two 2-byte fields as `i64::from_str` reads them, 0 where it refuses.
pub open spec fn spec_tz_offset(s: Seq<char>) -> int {
    let t = trim(s);
    if byte_len(t) < 5 {
        0
    } else {
        let d = t.skip(1);
        let j2 = char_at_byte(d, 2)->0;
        let j4 = char_at_byte(d, 4)->0;
        let h = match std_parse_i64(d.take(j2)) {
            Some(v) => v,
            None => 0,
        };
        let m = match std_parse_i64(d.subrange(j2, j4)) {
            Some(v) => v,
            None => 0,
        };
        let sign = if t[0] == '-' {
            -1int
        } else {
            1int
        };
        sign * (h * 3600 + m * 60)
    }
}

/// `parse_xmltv_time` does not panic on `s`: once trimmed, a text of at least
/// 14 bytes has a character boundary at byte 14, and when its first 14 bytes
/// are a date and time and it is longer than 15 bytes, also at byte 15, with
/// a well-formed offset after it.
pub open spec fn xmltv_time_defined(s: Seq<char>) -> bool {
    let t = trim(s);
    byte_len(t) >= 14 ==> {
        &&& char_at_byte(t, 14) is Some
        &&& (naive_utc_timestamp(t.take(char_at_byte(t, 14)->0), xmltv_format()) is Some
            && byte_len(t) > 15) ==> {
            &&& char_at_byte(t, 15) is Some
            &&& tz_offset_defined(t.skip(char_at_byte(t, 15)->0))
        }
    }
}

/// The time that `s` denotes, in seconds since the Unix epoch: the first 14
/// bytes of the trimmed text read by chrono as `%Y%m%d%H%M%S` in UTC, less
/// the offset that follows after one separating byte; none when the text is
/// shorter than 14 bytes or chrono refuses the date.
pub open spec fn spec_xmltv_time(s: Seq<char>) -> Option<int> {
    let t = trim(s);
    if byte_len(t) < 14 {
        None
    } else {
        match naive_utc_timestamp(t.take(char_at_byte(t, 14)->0), xmltv_format()) {
            None => None,
            Some(ts) => Some(
                ts - if byte_len(t) > 15 {
                    spec_tz_offset(t.skip(char_at_byte(t, 15)->0))
                } else {
                    0
                },
            ),
        }
    }
}

/// Reads a time zone offset `+HHMM` / `-HHMM` as seconds (see `spec_tz_offset`).
pub fn parse_tz_offset(s: &str) -> (r: i64)
    requires
        tz_offset_defined(s@),
    ensures
        r == spec_tz_offset(s@),
        -362_340 <= r <= 362_340,
{
    let cs = chars_of(s);
    let (a, b) = trim_bounds(&cs, 0, cs.len());
    assert(cs@.subrange(0, cs@.len() as int) =~= cs@);
    let ghost t = cs@.subrange(a as int, b as int);
    let tv = crate::text::sub_chars(&cs, a, b);
    if !byte_len_at_least(&tv, 5) {
        return 0;
    }
    let neg = tv[0] == '-';
    let d = crate::text::sub_chars(&tv, 1, tv.len());
    assert(d@ =~= t.skip(1));
    let j2 = match char_at_byte_exec(&d, 2) {
        Some(j) => j,
        None => return 0,
    };
    let j4 = match char_at_byte_exec(&d, 4) {
        Some(j) => j,
        None => return 0,
    };
    proof {
        lemma_char_at_byte(d@, 2);
        lemma_char_at_byte(d@, 4);
        lemma_char_at_byte_mono(d@, 2, 4);
    }
    let hs = crate::text::sub_chars(&d, 0, j2);
    let ms = crate::text::sub_chars(&d, j2, j4);
    assert(hs@ =~= d@.take(j2 as int));
    let h: i64 = match parse_short_i64(&hs) {
        Some(v) => v,
        None => 0,
    };
    let m: i64 = match parse_short_i64(&ms) {
        Some(v) => v,
        None => 0,
    };
    let mag = h * 3600 + m * 60;
    proof {
        assert(tv@ == trim(s@));
        assert(tv@[0] == '-' <==> neg);
        assert((-1int) * (mag as int) == -(mag as int)) by (nonlinear_arith);
        assert(1int * (mag as int) == mag as int);
    }
    if neg {
        -mag
    } else {
        mag
    }
}

/// Reads an XMLTV time as seconds since the Unix epoch (see `spec_xmltv_time`).
pub fn parse_xmltv_time(s: &str) -> (r: Option<i64>)
    requires
        xmltv_time_defined(s@),
    ensures
        r is Some <==> spec_xmltv_time(s@) is Some,
        r matches Some(v) ==> spec_xmltv_time(s@) == Some(v as int),
{
    let cs = chars_of(s);
    let (a, b) = trim_bounds(&cs, 0, cs.len());
    assert(cs@.subrange(0, cs@.len() as int) =~= cs@);
    let tv = crate::text::sub_chars(&cs, a, b);
    if !byte_len_at_least(&tv, 14) {
        return None;
    }
    let j14 = match char_at_byte_exec(&tv, 14) {
        Some(j) => j,
        None => return None,
    };
    proof {
        lemma_char_at_byte(tv@, 14);
    }
    let dt = string_of(&tv, 0, j14);
    assert(dt@ =~= tv@.take(j14 as int));
    let ts = match parse_utc_seconds(dt.as_str(), "%Y%m%d%H%M%S") {
        Some(ts) => ts,
        None => return None,
    };
    let offset: i64 = if byte_len_at_least(&tv, 16) {
        let j15 = match char_at_byte_exec(&tv, 15) {
            Some(j) => j,
            None => return None,
        };
        proof {
            lemma_char_at_byte(tv@, 15);
        }
        let rest = string_of(&tv, j15, tv.len());
        assert(rest@ =~= tv@.skip(j15 as int));
        parse_tz_offset(rest.as_str())
    } else {
        0
    };
    Some(ts - offset)
}

/// Reads an XMLTV time where `parse_xmltv_time` would not panic; `None` where
/// it would (see `xmltv_time_defined`).
pub fn checked_xmltv_time(s: &str) -> (r: Option<Option<i64>>)
    ensures
        r is Some <==> xmltv_time_defined(s@),
        r matches Some(t) ==> (t is Some <==> spec_xmltv_time(s@) is Some) && (t matches Some(v)
            ==> spec_xmltv_time(s@) == Some(v as int)),
{
    if xmltv_time_is_defined(s) {
        Some(parse_xmltv_time(s))
    } else {
        None
    }
}

/// Whether `tz_offset_defined(s)` holds.
fn tz_offset_is_defined(s: &str) -> (r: bool)
    ensures
        r == tz_offset_defined(s@),
{
    let cs = chars_of(s);
    let (a, b) = trim_bounds(&cs, 0, cs.len());
    assert(cs@.subrange(0, cs@.len() as int) =~= cs@);
    let tv = crate::text::sub_chars(&cs, a, b);
    if !byte_len_at_least(&tv, 5) {
        return true;
    }
    if char_at_byte_exec(&tv, 1).is_none() {
        return false;
    }
    let d = crate::text::sub_chars(&tv, 1, tv.len());
    assert(d@ =~= tv@.skip(1));
    char_at_byte_exec(&d, 2).is_some() && char_at_byte_exec(&d, 4).is_some()
}

/// Whether `xmltv_time_defined(s)` holds.
pub fn xmltv_time_is_defined(s: &str) -> (r: bool)
    ensures
        r == xmltv_time_defined(s@),
{
    let cs = chars_of(s);
    let (a, b) = trim_bounds(&cs, 0, cs.len());
    assert(cs@.subrange(0, cs@.len() as int) =~= cs@);
    let tv = crate::text::sub_chars(&cs, a, b);
    if !byte_len_at_least(&tv, 14) {
        return true;
    }
    let j14 = match char_at_byte_exec(&tv, 14) {
        Some(j) => j,
        None => return false,
    };
    proof {
        lemma_char_at_byte(tv@, 14);
    }
    let dt = string_of(&tv, 0, j14);
    assert(dt@ =~= tv@.take(j14 as int));
    if parse_utc_seconds(dt.as_str(), "%Y%m%d%H%M%S").is_none() || !byte_len_at_least(&tv, 16) {
        return true;
    }
    let j15 = match char_at_byte_exec(&tv, 15) {
        Some(j) => j,
        None => return false,
    };
    proof {
        lemma_char_at_byte(tv@, 15);
    }
    let rest = string_of(&tv, j15, tv.len());
    assert(rest@ =~= tv@.skip(j15 as int));
    tz_offset_is_defined(rest.as_str())
}

} // verus!

verus! {

/// An attribute of an XML start tag: its qualified name, and its raw value
/// decoded as UTF-8 (invalid sequences replaced).
#[derive(Debug, Clone)]
pub struct XmlAttribute {
    pub key: Vec<u8>,
    pub value: String,
}

/// An event of an XML reader, with what the guide parser reads of it.
#[derive(Debug, Clone)]
pub enum XmlEvent {
    /// A start tag: qualified name and attributes in document order.
    Start { name: Vec<u8>, attributes: Vec<XmlAttribute> },
    /// Text content, raw (still escaped) bytes.
    Text { content: Vec<u8> },
    /// An end tag: qualified name.
    End { name: Vec<u8> },
    /// Any other event (comments, empty elements, declarations, ...).
    Other,
}

/// An attribute taken as a byte sequence and a character sequence.
pub struct XmlAttributeView {
    pub key: Seq<u8>,
    pub value: Seq<char>,
}

impl View for XmlAttribute {
    type V = XmlAttributeView;

    open spec fn view(&self) -> XmlAttributeView {
        XmlAttributeView { key: self.key@, value: self.value@ }
    }
}

/// An event taken as sequences.
pub enum XmlEventView {
    Start { name: Seq<u8>, attributes: Seq<XmlAttributeView> },
    Text { content: Seq<u8> },
    End { name: Seq<u8> },
    Other,
}

impl View for XmlEvent {
    type V = XmlEventView;

    open spec fn view(&self) -> XmlEventView {
        match self {
            XmlEvent::Start { name, attributes } => XmlEventView::Start {
                name: name@,
                attributes: views(attributes@),
            },
            XmlEvent::Text { content } => XmlEventView::Text { content: content@ },
            XmlEvent::End { name } => XmlEventView::End { name: name@ },
            XmlEvent::Other => XmlEventView::Other,
        }
    }
}

/// `programme`
pub open spec fn tag_programme() -> Seq<u8> {
    seq![112u8, 114u8, 111u8, 103u8, 114u8, 97u8, 109u8, 109u8, 101u8]
}

/// `title`
pub open spec fn tag_title() -> Seq<u8> {
    seq![116u8, 105u8, 116u8, 108u8, 101u8]
}

/// `desc`
pub open spec fn tag_desc() -> Seq<u8> {
    seq![100u8, 101u8, 115u8, 99u8]
}

/// `channel`
pub open spec fn attr_channel() -> Seq<u8> {
    seq![99u8, 104u8, 97u8, 110u8, 110u8, 101u8, 108u8]
}

/// `start`
pub open spec fn attr_start() -> Seq<u8> {
    seq![115u8, 116u8, 97u8, 114u8, 116u8]
}

/// `stop`
pub open spec fn attr_stop() -> Seq<u8> {
    seq![115u8, 116u8, 111u8, 112u8]
}

/// Whether `a` and `b` hold the same bytes.
pub fn bytes_eq(a: &Vec<u8>, b: &Vec<u8>) -> (r: bool)
    ensures
        r == (a@ == b@),
{
    if a.len() != b.len() {
        return false;
    }
    let mut i: usize = 0;
    while i < a.len()
        invariant
            a@.len() == b@.len(),
            i <= a@.len(),
            forall|j: int| 0 <= j < i ==> a@[j] == b@[j],
        decreases a@.len() - i,
    {
        if a[i] != b[i] {
            return false;
        }
        i = i + 1;
    }
    assert(a@ =~= b@);
    true
}

/// Tag names as byte vectors.
fn programme_bytes() -> (r: Vec<u8>)
    ensures
        r@ == tag_programme(),
{
    let r = vec![112u8, 114, 111, 103, 114, 97, 109, 109, 101];
    assert(r@ =~= tag_programme());
    r
}

/// The name of quick-xml's answer for `raw`: the text with XML character and
/// entity references replaced, none when a reference is malformed or unknown.
pub uninterp spec fn xml_unescaped(raw: Seq<char>) -> Option<Seq<char>>;

/// quick-xml's `escape::unescape`. The contract names its result; the rules
/// of XML escaping it applies are not stated.
#[verifier::external_body]
fn xml_unescape(raw: &str) -> (r: Option<String>)
    ensures
        r.deep_view() == xml_unescaped(raw@),
{
    match quick_xml::escape::unescape(raw) {
        Ok(text) => Some(text.into_owned()),
        Err(_) => None,
    }
}

/// The text of a text event: its bytes decoded as UTF-8 and unescaped; empty
/// when either step fails.
pub open spec fn event_text(content: Seq<u8>) -> Seq<char> {
    if vstd::utf8::valid_utf8(content) {
        match xml_unescaped(vstd::utf8::decode_utf8(content)) {
            Some(t) => t,
            None => Seq::empty(),
        }
    } else {
        Seq::empty()
    }
}

/// What the parser knows part-way through a guide: the fields of the
/// programme being read, whether a title or description is open, and the
/// programmes made so far.
pub struct EpgState {
    pub channel: Option<Seq<char>>,
    pub start: Option<int>,
    pub stop: Option<int>,
    pub title: Option<Seq<char>>,
    pub desc: Option<Seq<char>>,
    pub in_title: bool,
    pub in_desc: bool,
    pub entries: Seq<EPGEntryView>,
}

/// The state before any event.
pub open spec fn epg_init() -> EpgState {
    EpgState {
        channel: None,
        start: None,
        stop: None,
        title: None,
        desc: None,
        in_title: false,
        in_desc: false,
        entries: Seq::empty(),
    }
}

/// A `channel`, `start` or `stop` attribute of a programme sets that field;
/// other attributes change nothing.
pub open spec fn apply_attr(st: EpgState, a: XmlAttributeView) -> EpgState {
    if a.key == attr_channel() {
        EpgState { channel: Some(a.value), ..st }
    } else if a.key == attr_start() {
        EpgState { start: spec_xmltv_time(a.value), ..st }
    } else if a.key == attr_stop() {
        EpgState { stop: spec_xmltv_time(a.value), ..st }
    } else {
        st
    }
}

/// The attributes applied in document order.
pub open spec fn apply_attrs(st: EpgState, attrs: Seq<XmlAttributeView>) -> EpgState
    decreases attrs.len(),
{
    if attrs.len() == 0 {
        st
    } else {
        apply_attr(apply_attrs(st, attrs.drop_last()), attrs.last())
    }
}

/// The programme made when a `</programme>` closes the fields of `st`, if it
/// has a channel, a start, a stop and a title.
pub open spec fn closed_programme(st: EpgState) -> Option<EPGEntryView> {
    match (st.channel, st.start, st.stop, st.title) {
        (Some(ch), Some(start), Some(stop), Some(title)) => Some(
            EPGEntryView {
                id: 0,
                channel_tvg_id: ch,
                title,
                start_ts: start as i64,
                end_ts: stop as i64,
                description: st.desc,
            },
        ),
        _ => None,
    }
}

/// One event: `<programme>` clears the fields and reads the attributes;
/// `<title>`/`<desc>` open the title or description, which the following text
/// sets; `</programme>` makes a programme of complete fields, taking the
/// channel and title (and, when made, the description) away.
pub open spec fn epg_step(st: EpgState, ev: XmlEventView) -> EpgState {
    match ev {
        XmlEventView::Start { name, attributes } => {
            if name == tag_programme() {
                apply_attrs(
                    EpgState { channel: None, start: None, stop: None, title: None, desc: None, ..st },
                    attributes,
                )
            } else if name == tag_title() {
                EpgState { in_title: true, ..st }
            } else if name == tag_desc() {
                EpgState { in_desc: true, ..st }
            } else {
                st
            }
        },
        XmlEventView::Text { content } => {
            if st.in_title {
                EpgState { title: Some(event_text(content)), ..st }
            } else if st.in_desc {
                EpgState { desc: Some(event_text(content)), ..st }
            } else {
                st
            }
        },
        XmlEventView::End { name } => {
            if name == tag_title() {
                EpgState { in_title: false, ..st }
            } else if name == tag_desc() {
                EpgState { in_desc: false, ..st }
            } else if name == tag_programme() {
                match closed_programme(st) {
                    Some(e) => EpgState {
                        channel: None,
                        title: None,
                        desc: None,
                        entries: st.entries.push(e),
                        ..st
                    },
                    None => EpgState { channel: None, title: None, ..st },
                }
            } else {
                st
            }
        },
        XmlEventView::Other => st,
    }
}

/// The state after the events `evs`.
pub open spec fn epg_run(evs: Seq<XmlEventView>) -> EpgState
    decreases evs.len(),
{
    if evs.len() == 0 {
        epg_init()
    } else {
        epg_step(epg_run(evs.drop_last()), evs.last())
    }
}

/// The programmes that the events `evs` of a guide make.
pub open spec fn epg_entries(evs: Seq<XmlEventView>) -> Seq<EPGEntryView> {
    epg_run(evs).entries
}

/// Every `start` and `stop` attribute among `attrs` is a time on which
/// `parse_xmltv_time` does not panic.
pub open spec fn times_defined(attrs: Seq<XmlAttributeView>) -> bool {
    forall|i: int|
        #![trigger attrs[i]]
        0 <= i < attrs.len() && (attrs[i].key == attr_start() || attrs[i].key == attr_stop())
            ==> xmltv_time_defined(attrs[i].value)
}

/// Whether `ev` is `</programme>`, the one event that can make a programme.
pub open spec fn closes_programme(ev: XmlEventView) -> bool {
    ev matches XmlEventView::End { name } && name == tag_programme()
}

/// The parser does not panic on `ev`: every `start` and `stop` attribute of a
/// `<programme>` is a time on which `parse_xmltv_time` does not panic.
pub open spec fn event_defined(ev: XmlEventView) -> bool {
    match ev {
        XmlEventView::Start { name, attributes } => name == tag_programme() ==> times_defined(
            attributes,
        ),
        _ => true,
    }
}

} // verus!

verus! {

/// A `start` or `stop` attribute of an accepted `<programme>` is a time on
/// which `parse_xmltv_time` does not panic.
proof fn lemma_defined_attr(name: Seq<u8>, av: Seq<XmlAttributeView>, i: int)
    requires
        event_defined(XmlEventView::Start { name, attributes: av }),
        name == tag_programme(),
        0 <= i < av.len(),
        av[i].key == attr_start() || av[i].key == attr_stop(),
    ensures
        xmltv_time_defined(av[i].value),
{
}

/// The tag and attribute names the parser compares against.
struct Tags {
    programme: Vec<u8>,
    title: Vec<u8>,
    desc: Vec<u8>,
    channel: Vec<u8>,
    start: Vec<u8>,
    stop: Vec<u8>,
}

impl Tags {
    spec fn wf(&self) -> bool {
        &&& self.programme@ == tag_programme()
        &&& self.title@ == tag_title()
        &&& self.desc@ == tag_desc()
        &&& self.channel@ == attr_channel()
        &&& self.start@ == attr_start()
        &&& self.stop@ == attr_stop()
    }

    fn new() -> (r: Tags)
        ensures
            r.wf(),
    {
        let r = Tags {
            programme: vec![112u8, 114, 111, 103, 114, 97, 109, 109, 101],
            title: vec![116u8, 105, 116, 108, 101],
            desc: vec![100u8, 101, 115, 99],
            channel: vec![99u8, 104, 97, 110, 110, 101, 108],
            start: vec![115u8, 116, 97, 114, 116],
            stop: vec![115u8, 116, 111, 112],
        };
        assert(r.programme@ =~= tag_programme());
        assert(r.title@ =~= tag_title());
        assert(r.desc@ =~= tag_desc());
        assert(r.channel@ =~= attr_channel());
        assert(r.start@ =~= attr_start());
        assert(r.stop@ =~= attr_stop());
        r
    }
}

/// The text of a text event (see `event_text`).
pub fn text_of(content: &Vec<u8>) -> (r: String)
    ensures
        r@ == event_text(content@),
{
    match utf8_string(content) {
        Some(s) => match xml_unescape(s.as_str()) {
            Some(t) => t,
            None => String::new(),
        },
        None => String::new(),
    }
}

/// A time as a mathematical integer.
pub open spec fn opt_int(o: Option<i64>) -> Option<int> {
    match o {
        Some(v) => Some(v as int),
        None => None,
    }
}

/// A guide being parsed: the events seen so far and the programmes not yet
/// handed back.
pub struct EpgParser {
    tags: Tags,
    channel: Option<String>,
    start: Option<i64>,
    stop: Option<i64>,
    title: Option<String>,
    desc: Option<String>,
    in_title: bool,
    in_desc: bool,
    total: u64,
    batcher: Batcher<EPGEntry>,
    events: Ghost<Seq<XmlEventView>>,
}

impl EpgParser {
    /// The events received so far.
    pub closed spec fn events(&self) -> Seq<XmlEventView> {
        self.events@
    }

    /// The batch size the parser was made with.
    pub closed spec fn batch_size(&self) -> usize {
        self.batcher.size()
    }

    /// The programmes handed back so far, in order.
    pub closed spec fn delivered(&self) -> Seq<EPGEntry> {
        self.batcher.delivered()
    }

    /// The programmes made so far, handed back or not.
    pub closed spec fn made(&self) -> Seq<EPGEntry> {
        self.batcher.pushed()
    }

    /// The parser's fields as a guide state.
    pub closed spec fn state(&self) -> EpgState {
        EpgState {
            channel: self.channel.deep_view(),
            start: opt_int(self.start),
            stop: opt_int(self.stop),
            title: self.title.deep_view(),
            desc: self.desc.deep_view(),
            in_title: self.in_title,
            in_desc: self.in_desc,
            entries: views(self.batcher.pushed()),
        }
    }

    /// The fields are the state that the events received lead to, and the
    /// counter counts the programmes made.
    pub closed spec fn wf(&self) -> bool {
        &&& self.tags.wf()
        &&& self.batcher.wf()
        &&& self.state() == epg_run(self.events@)
        &&& self.total as int == self.batcher.pushed().len()
    }

    /// A parser with no event received yet.
    pub fn new(batch_size: usize) -> (p: EpgParser)
        ensures
            p.wf(),
            p.events() == Seq::<XmlEventView>::empty(),
            p.batch_size() == batch_size,
            p.delivered() == Seq::<EPGEntry>::empty(),
    {
        let p = EpgParser {
            tags: Tags::new(),
            channel: None,
            start: None,
            stop: None,
            title: None,
            desc: None,
            in_title: false,
            in_desc: false,
            total: 0,
            batcher: Batcher::new(batch_size),
            events: Ghost(Seq::empty()),
        };
        assert(views(p.batcher.pushed()) =~= Seq::<EPGEntryView>::empty());
        p
    }

    /// The number of programmes made so far.
    pub fn entry_count(&self) -> (n: u64)
        requires
            self.wf(),
        ensures
            n == self.made().len(),
            n == epg_entries(self.events()).len(),
    {
        self.total
    }

    /// Whether `ev` is `</programme>` (see `closes_programme`).
    pub fn is_programme_end(ev: &XmlEvent) -> (r: bool)
        ensures
            r == closes_programme(ev@),
    {
        match ev {
            XmlEvent::End { name } => bytes_eq(name, &programme_bytes()),
            _ => false,
        }
    }

    /// Whether `ev` makes a programme: it is `</programme>` and the fields read
    /// so far are complete (see `closed_programme`).
    pub fn makes_programme(&self, ev: &XmlEvent) -> (r: bool)
        requires
            self.wf(),
        ensures
            r == (closes_programme(ev@) && closed_programme(epg_run(self.events())) is Some),
    {
        EpgParser::is_programme_end(ev) && self.channel.is_some() && self.start.is_some()
            && self.stop.is_some() && self.title.is_some()
    }

    /// Whether `handle` accepts `ev` (see `event_defined`).
    pub fn accepts(ev: &XmlEvent) -> (r: bool)
        ensures
            r == event_defined(ev@),
    {
        match ev {
            XmlEvent::Start { name, attributes } => {
                let tags = Tags::new();
                if !bytes_eq(name, &tags.programme) {
                    return true;
                }
                let mut i: usize = 0;
                while i < attributes.len()
                    invariant
                        tags.wf(),
                        name@ == tag_programme(),
                        ev@ == (XmlEventView::Start { name: name@, attributes: views(attributes@) }),
                        i <= attributes@.len(),
                        forall|k: int|
                            0 <= k < i && (attributes@[k]@.key == attr_start()
                                || attributes@[k]@.key == attr_stop()) ==> xmltv_time_defined(
                                #[trigger] attributes@[k]@.value,
                            ),
                    decreases attributes@.len() - i,
                {
                    let a = &attributes[i];
                    if bytes_eq(&a.key, &tags.start) || bytes_eq(&a.key, &tags.stop) {
                        if !xmltv_time_is_defined(a.value.as_str()) {
                            proof {
                                let av = views(attributes@);
                                assert(av[i as int] == a@);
                                assert(!xmltv_time_defined(av[i as int].value));
                                assert(av[i as int].key == attr_start() || av[i as int].key
                                    == attr_stop());
                            }
                            return false;
                        }
                    }
                    i = i + 1;
                }
                proof {
                    let av = views(attributes@);
                    assert forall|k: int|
                        0 <= k < av.len() && (av[k].key == attr_start() || av[k].key
                            == attr_stop()) implies xmltv_time_defined(#[trigger] av[k].value) by {
                        assert(av[k] == attributes@[k]@);
                    }
                }
                true
            },
            _ => true,
        }
    }

    /// Receives the next event; hands back a batch of programmes when one is full.
    pub fn handle(&mut self, ev: &XmlEvent) -> (out: Option<Vec<EPGEntry>>)
        requires
            old(self).wf(),
            event_defined(ev@),
            closes_programme(ev@) && closed_programme(epg_run(old(self).events())) is Some
                ==> old(self).made().len() < u64::MAX,
        ensures
            final(self).wf(),
            final(self).events() == old(self).events().push(ev@),
            final(self).batch_size() == old(self).batch_size(),
            match out {
                Some(b) => {
                    &&& b@.len() == full_len(old(self).batch_size())
                    &&& final(self).delivered() == old(self).delivered() + b@
                },
                None => final(self).delivered() == old(self).delivered(),
            },
    {
        let ghost old_events = self.events@;
        let ghost st0 = self.state();
        proof {
            self.events@ = self.events@.push(ev@);
            assert(self.events@.drop_last() =~= old_events);
        }
        match ev {
            XmlEvent::Start { name, attributes } => {
                if bytes_eq(name, &self.tags.programme) {
                    self.channel = None;
                    self.start = None;
                    self.stop = None;
                    self.title = None;
                    self.desc = None;
                    let ghost base = self.state();
                    let ghost av = views(attributes@);
                    let mut i: usize = 0;
                    assert(av.take(0) =~= Seq::<XmlAttributeView>::empty());
                    while i < attributes.len()
                        invariant
                            self.tags.wf(),
                            i <= attributes@.len(),
                            av == views(attributes@),
                            self.state() == apply_attrs(base, av.take(i as int)),
                            self.batcher == old(self).batcher,
                            self.total == old(self).total,
                            self.events@ == old(self).events@.push(ev@),
                            ev@ == (XmlEventView::Start { name: name@, attributes: av }),
                            event_defined(ev@),
                            name@ == tag_programme(),
                        decreases attributes@.len() - i,
                    {
                        let a = &attributes[i];
                        assert(av[i as int] == a@);
                        assert(av.take(i + 1).drop_last() =~= av.take(i as int));
                        assert(event_defined(XmlEventView::Start { name: name@, attributes: av }));
                        if bytes_eq(&a.key, &self.tags.channel) {
                            self.channel = Some(a.value.clone());
                        } else if bytes_eq(&a.key, &self.tags.start) {
                            proof {
                                lemma_defined_attr(name@, av, i as int);
                            }
                            self.start = parse_xmltv_time(a.value.as_str());
                        } else if bytes_eq(&a.key, &self.tags.stop) {
                            proof {
                                lemma_defined_attr(name@, av, i as int);
                            }
                            self.stop = parse_xmltv_time(a.value.as_str());
                        }
                        i = i + 1;
                    }
                    assert(av.take(av.len() as int) =~= av);
                } else if bytes_eq(name, &self.tags.title) {
                    self.in_title = true;
                } else if bytes_eq(name, &self.tags.desc) {
                    self.in_desc = true;
                }
                None
            },
            XmlEvent::Text { content } => {
                if self.in_title {
                    self.title = Some(text_of(content));
                } else if self.in_desc {
                    self.desc = Some(text_of(content));
                }
                None
            },
            XmlEvent::End { name } => {
                if bytes_eq(name, &self.tags.title) {
                    self.in_title = false;
                    None
                } else if bytes_eq(name, &self.tags.desc) {
                    self.in_desc = false;
                    None
                } else if bytes_eq(name, &self.tags.programme) {
                    let ch = self.channel.take();
                    let title = self.title.take();
                    match (ch, self.start, self.stop, title) {
                        (Some(ch), Some(start), Some(stop), Some(title)) => {
                            let description = self.desc.take();
                            let entry = EPGEntry {
                                id: 0,
                                channel_tvg_id: ch,
                                title,
                                start_ts: start,
                                end_ts: stop,
                                description,
                            };
                            let ghost old_made = self.batcher.pushed();
                            self.total = self.total + 1;
                            let out = self.batcher.push(entry);
                            assert(views(old_made.push(entry)) =~= views(old_made).push(entry@));
                            out
                        },
                        _ => None,
                    }
                } else {
                    None
                }
            },
            XmlEvent::Other => None,
        }
    }

    /// Receives the next event when `handle` can take it. Answers `None` and
    /// leaves the parser as it was when `ev` holds a start or stop time that
    /// cannot be read, or when it would make one programme more than a `u64`
    /// counts; else `Some` of what `handle` answers.
    pub fn try_handle(&mut self, ev: &XmlEvent) -> (out: Option<Option<Vec<EPGEntry>>>)
        requires
            old(self).wf(),
        ensures
            final(self).wf(),
            final(self).batch_size() == old(self).batch_size(),
            out is None <==> !event_defined(ev@) || (closes_programme(ev@) && closed_programme(
                epg_run(old(self).events()),
            ) is Some && old(self).made().len() >= u64::MAX),
            out is None ==> *final(self) == *old(self),
            out is Some ==> final(self).events() == old(self).events().push(ev@),
            out matches Some(Some(b)) ==> b@.len() == full_len(old(self).batch_size())
                && final(self).delivered() == old(self).delivered() + b@,
            out matches Some(None) ==> final(self).delivered() == old(self).delivered(),
    {
        if !EpgParser::accepts(ev) {
            return None;
        }
        if self.makes_programme(ev) && self.entry_count() == u64::MAX {
            return None;
        }
        Some(self.handle(ev))
    }

    /// Ends the guide; hands back the programmes not yet handed back, if any.
    pub fn finish(self) -> (out: Option<Vec<EPGEntry>>)
        requires
            self.wf(),
        ensures
            match out {
                Some(b) => {
                    &&& 0 < b@.len() < full_len(self.batch_size())
                    &&& views(self.delivered() + b@) == epg_entries(self.events())
                },
                None => views(self.delivered()) == epg_entries(self.events()),
            },
    {
        self.batcher.finish()
    }
}

} // verus!

verus! {

/// Programmes once made are never revised: the programmes of the first `k`
/// events are the first programmes of the whole guide.
pub proof fn lemma_epg_prefix(evs: Seq<XmlEventView>, k: int)
    requires
        0 <= k <= evs.len(),
    ensures
        epg_entries(evs.take(k)).len() <= epg_entries(evs).len(),
        epg_entries(evs).take(epg_entries(evs.take(k)).len() as int) == epg_entries(evs.take(k)),
    decreases evs.len() - k,
{
    if k < evs.len() {
        lemma_epg_prefix(evs.drop_last(), k);
        assert(evs.drop_last().take(k) =~= evs.take(k));
        lemma_epg_step_entries(epg_run(evs.drop_last()), evs.last());
        let a = epg_entries(evs.drop_last());
        let b = epg_entries(evs);
        let n = epg_entries(evs.take(k)).len() as int;
        assert(b.take(n) =~= a.take(n));
    } else {
        assert(evs.take(k) =~= evs);
        let b = epg_entries(evs);
        assert(b.take(b.len() as int) =~= b);
    }
}

/// An event adds at most one programme and keeps those made before.
pub proof fn lemma_epg_step_entries(st: EpgState, ev: XmlEventView)
    ensures
        epg_step(st, ev).entries == st.entries || epg_step(st, ev).entries == st.entries.push(
            epg_step(st, ev).entries.last(),
        ),
{
    match ev {
        XmlEventView::Start { name, attributes } => {
            if name == tag_programme() {
                lemma_apply_attrs_entries(
                    EpgState { channel: None, start: None, stop: None, title: None, desc: None, ..st },
                    attributes,
                );
            }
        },
        _ => {},
    }
}

/// Attributes change no programme made.
pub proof fn lemma_apply_attrs_entries(st: EpgState, attrs: Seq<XmlAttributeView>)
    ensures
        apply_attrs(st, attrs).entries == st.entries,
    decreases attrs.len(),
{
    if attrs.len() > 0 {
        lemma_apply_attrs_entries(st, attrs.drop_last());
    }
}

/// The value of the two ASCII digits `a` and `b`.
pub open spec fn two_digits(a: char, b: char) -> int {
    (a as int - '0' as int) * 10 + (b as int - '0' as int)
}

/// The value of two ASCII digits as `i64::from_str` reads them.
proof fn lemma_parse_two_digits(a: char, b: char)
    requires
        is_digit(a),
        is_digit(b),
    ensures
        std_parse_i64(seq![a, b]) == Some(two_digits(a, b)),
{
    let ds = seq![a, b];
    assert(ds.drop_last() =~= seq![a]);
    assert(seq![a].drop_last() =~= Seq::<char>::empty());
    assert(digits_value(Seq::<char>::empty()) == 0);
    assert(digits_value(seq![a]) == a as int - '0' as int);
    assert(digits_value(ds) == two_digits(a, b));
    assert(all_digits(ds)) by {
        assert forall|i: int| 0 <= i < ds.len() implies is_digit(#[trigger] ds[i]) by {
            if i == 0 {
                assert(ds[i] == a);
            } else {
                assert(ds[i] == b);
            }
        }
    }
    assert(ds[0] == a);
}

/// A time zone suffix shifts a time back by its offset: for a date and time
/// `d` of 14 ASCII digits, `d` followed by a space, a sign and the digits
/// `HHMM` denotes the time that `d` denotes less `sign * (HH * 3600 + MM * 60)`
/// seconds, and no time when `d` denotes none.
pub proof fn lemma_xmltv_offset(d: Seq<char>, sign: char, h1: char, h2: char, m1: char, m2: char)
    requires
        d.len() == 14,
        all_digits(d),
        sign == '+' || sign == '-',
        is_digit(h1),
        is_digit(h2),
        is_digit(m1),
        is_digit(m2),
    ensures
        spec_xmltv_time(d + seq![' ', sign, h1, h2, m1, m2]) == match spec_xmltv_time(d) {
            Some(t) => Some(
                t - (if sign == '-' {
                    -1int
                } else {
                    1int
                }) * (two_digits(h1, h2) * 3600 + two_digits(m1, m2) * 60),
            ),
            None => None,
        },
{
    let z = seq![sign, h1, h2, m1, m2];
    let s = d + seq![' ', sign, h1, h2, m1, m2];
    assert(is_digit(d[0]) && is_digit(d[13]));
    assert(is_ascii_text(d)) by {
        assert forall|i: int| 0 <= i < d.len() implies (#[trigger] d[i] as u32) < 0x80 by {
            assert(is_digit(d[i]));
        }
    }
    assert(is_ascii_text(s)) by {
        assert forall|i: int| 0 <= i < s.len() implies (#[trigger] s[i] as u32) < 0x80 by {
            if i < 14 {
                assert(s[i] == d[i]);
                assert(is_digit(d[i]));
            }
        }
    }
    // the date and time alone
    lemma_trim_unchanged(d);
    lemma_ascii_byte_len(d);
    lemma_ascii_char_at_byte(d, 14);
    assert(d.take(14) =~= d);
    // the date and time with the suffix
    assert(s[0] == d[0]);
    assert(s.last() == m2);
    lemma_trim_unchanged(s);
    lemma_ascii_byte_len(s);
    lemma_ascii_char_at_byte(s, 14);
    lemma_ascii_char_at_byte(s, 15);
    assert(s.take(14) =~= d);
    assert(s.skip(15) =~= z);
    // the offset
    assert(z.last() == m2);
    lemma_trim_unchanged(z);
    assert(is_ascii_text(z));
    lemma_ascii_byte_len(z);
    let dz = z.skip(1);
    assert(dz =~= seq![h1, h2, m1, m2]);
    assert(is_ascii_text(dz));
    lemma_ascii_char_at_byte(dz, 2);
    lemma_ascii_char_at_byte(dz, 4);
    assert(dz.take(2) =~= seq![h1, h2]);
    assert(dz.subrange(2, 4) =~= seq![m1, m2]);
    lemma_parse_two_digits(h1, h2);
    lemma_parse_two_digits(m1, m2);
}

} // verus!
