//! M3U playlist parsing.
//!
//! A playlist is read line by line: the first line must hold the `#EXTM3U`
//! header; an `#EXTINF:` line describes the next stream; any other line that
//! is not a comment is the URL of a stream and makes a channel. The parser is
//! a state machine that receives the lines and hands back channels in
//! batches of a bounded size, so that no more than one batch is held at once.

use vstd::prelude::*;
use crate::batch::{Batcher, full_len};
use crate::models::{Channel, ChannelView, views};
use crate::text::{
    chars_of, string_of, sub_chars, trim_bounds, find_from, rfind_in, occurs_at_exec, trim, trim_start, find,
    rfind, has_prefix, is_whitespace, occurs_at,
};

verus! {

/// `std::io::Error`, carried opaque in `M3UError::Io`.
#[verifier::external_type_specification]
#[verifier::external_body]
pub struct ExIoError(std::io::Error);

/// Errors of playlist parsing.
#[derive(Debug)]
pub enum M3UError {
    /// Reading the playlist failed.
    Io(std::io::Error),
    /// The first line is missing or does not start with `#EXTM3U`.
    InvalidFormat,
}

/// The name of `char::is_numeric`'s answer: whether `c` has one of the Unicode
/// general categories for numbers (Nd, Nl, No).
pub uninterp spec fn char_numeric(c: char) -> bool;

/// `char::is_numeric`. The contract names its answer and states what its
/// documentation gives for ASCII: of the ASCII characters exactly the digits
/// are numeric. The Unicode tables beyond ASCII are left unstated.
#[verifier::external_body]
fn is_numeric(c: char) -> (r: bool)
    ensures
        r == char_numeric(c),
        (c as u32) < 128 ==> (r <==> '0' <= c <= '9'),
{
    c.is_numeric()
}

/// What an `#EXTINF:` line tells about the stream that follows it.
#[derive(Debug, Clone)]
pub struct ChannelMeta {
    pub name: String,
    pub group_title: Option<String>,
    pub logo_url: Option<String>,
    pub tvg_id: Option<String>,
}

impl Default for ChannelMeta {
    /// Empty name, no attributes.
    fn default() -> (r: Self)
        ensures
            r@ == default_meta(),
    {
        ChannelMeta { name: String::new(), group_title: None, logo_url: None, tvg_id: None }
    }
}

/// Stream description with its text fields taken as character sequences.
pub struct ChannelMetaView {
    pub name: Seq<char>,
    pub group_title: Option<Seq<char>>,
    pub logo_url: Option<Seq<char>>,
    pub tvg_id: Option<Seq<char>>,
}

impl View for ChannelMeta {
    type V = ChannelMetaView;

    open spec fn view(&self) -> ChannelMetaView {
        ChannelMetaView {
            name: self.name@,
            group_title: self.group_title.deep_view(),
            logo_url: self.logo_url.deep_view(),
            tvg_id: self.tvg_id.deep_view(),
        }
    }
}

/// The description of a stream that has no `#EXTINF:` line.
pub open spec fn default_meta() -> ChannelMetaView {
    ChannelMetaView { name: Seq::empty(), group_title: None, logo_url: None, tvg_id: None }
}

/// The value of attribute `key="value"` in `s`: the text after the first
/// `key="` up to the next `"`, trimmed; none when either is missing or the
/// value is empty.
pub open spec fn spec_extract_attr(s: Seq<char>, key: Seq<char>) -> Option<Seq<char>> {
    let pattern = key + seq!['=', '"'];
    match find(s, pattern) {
        None => None,
        Some(p) => {
            let start = p + pattern.len();
            match find(s.subrange(start, s.len() as int), seq!['"']) {
                None => None,
                Some(q) => {
                    let v = trim(s.subrange(start, start + q));
                    if v.len() == 0 {
                        None
                    } else {
                        Some(v)
                    }
                },
            }
        },
    }
}

/// `s` without its leading run of numeric characters and `-` (the duration).
pub open spec fn skip_duration(s: Seq<char>) -> Seq<char>
    decreases s.len(),
{
    if s.len() > 0 && (char_numeric(s[0]) || s[0] == '-') {
        skip_duration(s.drop_first())
    } else {
        s
    }
}

/// The attribute part of an `#EXTINF:` line: after the prefix, up to the first
/// comma, without the leading duration.
pub open spec fn extinf_attrs(line: Seq<char>) -> Seq<char> {
    let rest = line.subrange("#EXTINF:"@.len() as int, line.len() as int);
    let first = match find(rest, seq![',']) {
        Some(q) => rest.take(q),
        None => rest,
    };
    skip_duration(first)
}

/// The stream description that `parse_extinf` makes of `line`: the name is the
/// trimmed text after the last comma, or else the `tvg-name` attribute, or
/// else `Unknown Channel`; `tvg-id`, `tvg-logo` and `group-title` attributes
/// are read from the attribute part when the line starts with `#EXTINF:`.
pub open spec fn spec_parse_extinf(line: Seq<char>) -> ChannelMetaView {
    let name0 = match rfind(line, ',') {
        Some(p) => trim(line.subrange(p + 1, line.len() as int)),
        None => Seq::empty(),
    };
    let m = if has_prefix(line, "#EXTINF:"@) {
        let attrs = extinf_attrs(line);
        ChannelMetaView {
            name: if name0.len() == 0 {
                match spec_extract_attr(attrs, "tvg-name"@) {
                    Some(v) => v,
                    None => Seq::empty(),
                }
            } else {
                name0
            },
            group_title: spec_extract_attr(attrs, "group-title"@),
            logo_url: spec_extract_attr(attrs, "tvg-logo"@),
            tvg_id: spec_extract_attr(attrs, "tvg-id"@),
        }
    } else {
        ChannelMetaView { name: name0, group_title: None, logo_url: None, tvg_id: None }
    };
    if m.name.len() == 0 {
        ChannelMetaView { name: "Unknown Channel"@, ..m }
    } else {
        m
    }
}

/// The channel made of the stream at `url`, described by `meta`, as the
/// `index`-th channel of provider `provider_id`.
pub open spec fn channel_of(meta: ChannelMetaView, url: Seq<char>, provider_id: i64, index: nat) -> ChannelView {
    ChannelView {
        id: 0,
        provider_id,
        name: meta.name,
        group_title: meta.group_title,
        logo_url: meta.logo_url,
        stream_url: url,
        tvg_id: meta.tvg_id,
        hidden: false,
        sort_order: index as i64,
    }
}

/// The state after the body lines `lines` (those after the header): the
/// description waiting for its stream, and the channels made so far.
pub open spec fn m3u_state(lines: Seq<Seq<char>>, provider_id: i64) -> (Option<ChannelMetaView>, Seq<ChannelView>)
    decreases lines.len(),
{
    if lines.len() == 0 {
        (None, Seq::empty())
    } else {
        let prev = m3u_state(lines.drop_last(), provider_id);
        let t = trim(lines.last());
        if t.len() == 0 {
            prev
        } else if has_prefix(t, "#EXTINF:"@) {
            (Some(spec_parse_extinf(t)), prev.1)
        } else if t[0] != '#' {
            let meta = match prev.0 {
                Some(m) => m,
                None => default_meta(),
            };
            (None, prev.1.push(channel_of(meta, t, provider_id, prev.1.len())))
        } else {
            prev
        }
    }
}

/// The channels that the body lines `lines` of a playlist make.
pub open spec fn m3u_channels(lines: Seq<Seq<char>>, provider_id: i64) -> Seq<ChannelView> {
    m3u_state(lines, provider_id).1
}

/// Whether a body line is the URL of a stream: once trimmed it is not empty,
/// not an `#EXTINF:` line, and does not start with `#`.
pub open spec fn makes_channel(line: Seq<char>) -> bool {
    let t = trim(line);
    t.len() > 0 && !has_prefix(t, "#EXTINF:"@) && t[0] != '#'
}

/// Whether `first` is a playlist header: once leading white space is dropped
/// it starts with `#EXTM3U`.
pub open spec fn is_header(first: Seq<char>) -> bool {
    has_prefix(trim_start(first), "#EXTM3U"@)
}

fn extract_attr_chars(s: &Vec<char>, key: &Vec<char>) -> (r: Option<String>)
    ensures
        r.deep_view() == spec_extract_attr(s@, key@),
{
    let mut pattern = key.clone();
    pattern.push('=');
    pattern.push('"');
    assert(pattern@ =~= key@ + seq!['=', '"']);
    proof {
        assert(s@.subrange(0, s@.len() as int) =~= s@);
    }
    let p = match find_from(s, &pattern, 0) {
        Some(p) => p,
        None => return None,
    };
    proof {
        crate::text::lemma_find_some(s@, pattern@);
        assert(find(s@, pattern@) == Some(p as int));
        assert(occurs_at(s@, pattern@, p as int));
        assert(s@.len() == s.len());
    }
    let start = p + pattern.len();
    let mut quote: Vec<char> = Vec::new();
    quote.push('"');
    assert(quote@ =~= seq!['"']);
    let end = match find_from(s, &quote, start) {
        Some(e) => e,
        None => return None,
    };
    let (a, b) = trim_bounds(s, start, end);
    if a == b {
        return None;
    }
    Some(string_of(s, a, b))
}

/// The value of attribute `key` in `s` (see `spec_extract_attr`).
pub fn extract_attr(s: &str, key: &str) -> (r: Option<String>)
    ensures
        r.deep_view() == spec_extract_attr(s@, key@),
{
    let cs = chars_of(s);
    let k = chars_of(key);
    extract_attr_chars(&cs, &k)
}

fn parse_extinf_chars(cs: &Vec<char>) -> (meta: ChannelMeta)
    ensures
        meta@ == spec_parse_extinf(cs@),
{
    let mut name = String::new();
    match rfind_in(cs, ',', 0, cs.len()) {
        Some(p) => {
            proof {
                assert(cs@.subrange(0, cs@.len() as int) =~= cs@);
                crate::text::lemma_rfind_some(cs@, ',');
            }
            let (a, b) = trim_bounds(cs, p + 1, cs.len());
            name = string_of(cs, a, b);
        },
        None => {},
    }
    proof {
        assert(cs@.subrange(0, cs@.len() as int) =~= cs@);
    }
    let ghost name0 = name@;
    let prefix = chars_of("#EXTINF:");
    let mut meta = ChannelMeta { name, group_title: None, logo_url: None, tvg_id: None };
    if occurs_at_exec(cs, &prefix, 0) {
        let rest_from = prefix.len();
        let mut comma: Vec<char> = Vec::new();
        comma.push(',');
        assert(comma@ =~= seq![',']);
        let end = match find_from(cs, &comma, rest_from) {
            Some(q) => q,
            None => cs.len(),
        };
        let ghost rest = cs@.subrange(rest_from as int, cs@.len() as int);
        proof {
            crate::text::lemma_find_some(rest, seq![',']);
        }
        let ghost first = match find(rest, seq![',']) {
            Some(q) => rest.take(q),
            None => rest,
        };
        assert(first =~= cs@.subrange(rest_from as int, end as int));
        let mut a = rest_from;
        while a < end && (is_numeric(cs[a]) || cs[a] == '-')
            invariant
                rest_from <= a <= end <= cs@.len(),
                skip_duration(first) == skip_duration(cs@.subrange(a as int, end as int)),
            decreases end - a,
        {
            assert(cs@.subrange(a as int, end as int).drop_first() =~= cs@.subrange(
                a + 1,
                end as int,
            ));
            a = a + 1;
        }
        let attrs = sub_chars(cs, a, end);
        assert(attrs@ == extinf_attrs(cs@));
        meta.tvg_id = extract_attr_chars(&attrs, &chars_of("tvg-id"));
        meta.logo_url = extract_attr_chars(&attrs, &chars_of("tvg-logo"));
        meta.group_title = extract_attr_chars(&attrs, &chars_of("group-title"));
        if meta.name.as_str().is_empty() {
            meta.name = match extract_attr_chars(&attrs, &chars_of("tvg-name")) {
                Some(v) => v,
                None => String::new(),
            };
        }
    }
    if meta.name.as_str().is_empty() {
        meta.name = "Unknown Channel".to_owned();
    }
    meta
}

/// Reads the description of the stream that follows an `#EXTINF:` line
/// (see `spec_parse_extinf`).
pub fn parse_extinf(line: &str) -> (meta: ChannelMeta)
    ensures
        meta@ == spec_parse_extinf(line@),
{
    let cs = chars_of(line);
    parse_extinf_chars(&cs)
}

} // verus!

verus! {

/// The view of a waiting stream description.
pub open spec fn meta_view(m: Option<ChannelMeta>) -> Option<ChannelMetaView> {
    match m {
        Some(m) => Some(m@),
        None => None,
    }
}

/// A playlist being parsed: the body lines seen so far and the channels not
/// yet handed back.
pub struct M3uParser {
    provider_id: i64,
    pending_meta: Option<ChannelMeta>,
    sort_order: i64,
    total: u64,
    batcher: Batcher<Channel>,
    lines: Ghost<Seq<Seq<char>>>,
}

impl M3uParser {
    /// The body lines received so far.
    pub closed spec fn lines(&self) -> Seq<Seq<char>> {
        self.lines@
    }

    /// The provider the channels are made for.
    pub closed spec fn provider(&self) -> i64 {
        self.provider_id
    }

    /// The batch size the parser was made with.
    pub closed spec fn batch_size(&self) -> usize {
        self.batcher.size()
    }

    /// The channels handed back so far, in order.
    pub closed spec fn delivered(&self) -> Seq<Channel> {
        self.batcher.delivered()
    }

    /// The channels made so far, handed back or not.
    pub closed spec fn made(&self) -> Seq<Channel> {
        self.batcher.pushed()
    }

    /// The channels made so far are those that the lines received make, the
    /// waiting description is the one they leave, and the counters count them.
    pub closed spec fn wf(&self) -> bool {
        &&& self.batcher.wf()
        &&& views(self.batcher.pushed()) == m3u_channels(self.lines@, self.provider_id)
        &&& meta_view(self.pending_meta) == m3u_state(self.lines@, self.provider_id).0
        &&& self.sort_order as int == self.batcher.pushed().len()
        &&& self.total as int == self.batcher.pushed().len()
    }

    /// A parser for the body of a playlist whose first line is `first`, or
    /// `InvalidFormat` when there is no first line or it is not a header.
    pub fn start(first: Option<&str>, provider_id: i64, batch_size: usize) -> (r: Result<
        M3uParser,
        M3UError,
    >)
        ensures
            match first {
                Some(l) => is_header(l@) == r is Ok,
                None => r is Err,
            },
            r matches Err(e) ==> e is InvalidFormat,
            r matches Ok(p) ==> {
                &&& p.wf()
                &&& p.lines() == Seq::<Seq<char>>::empty()
                &&& p.provider() == provider_id
                &&& p.batch_size() == batch_size
                &&& p.delivered() == Seq::<Channel>::empty()
            },
    {
        match first {
            None => Err(M3UError::InvalidFormat),
            Some(l) => {
                if check_header(l) {
                    Ok(M3uParser::new(provider_id, batch_size))
                } else {
                    Err(M3UError::InvalidFormat)
                }
            },
        }
    }

    /// A parser with no line received yet.
    pub fn new(provider_id: i64, batch_size: usize) -> (p: M3uParser)
        ensures
            p.wf(),
            p.lines() == Seq::<Seq<char>>::empty(),
            p.provider() == provider_id,
            p.batch_size() == batch_size,
            p.delivered() == Seq::<Channel>::empty(),
    {
        let p = M3uParser {
            provider_id,
            pending_meta: None,
            sort_order: 0,
            total: 0,
            batcher: Batcher::new(batch_size),
            lines: Ghost(Seq::empty()),
        };
        assert(views(p.batcher.pushed()) =~= Seq::<ChannelView>::empty());
        p
    }

    /// The number of channels made so far.
    pub fn channel_count(&self) -> (n: u64)
        requires
            self.wf(),
        ensures
            n == self.made().len(),
            n == m3u_channels(self.lines(), self.provider()).len(),
    {
        self.total
    }

    /// Receives the next body line; hands back a batch of channels when one is full.
    pub fn feed_line(&mut self, line: &str) -> (out: Option<Vec<Channel>>)
        requires
            old(self).wf(),
            makes_channel(line@) ==> old(self).made().len() < i64::MAX,
        ensures
            final(self).wf(),
            final(self).lines() == old(self).lines().push(line@),
            final(self).provider() == old(self).provider(),
            final(self).batch_size() == old(self).batch_size(),
            match out {
                Some(b) => {
                    &&& b@.len() == full_len(old(self).batch_size())
                    &&& final(self).delivered() == old(self).delivered() + b@
                },
                None => final(self).delivered() == old(self).delivered(),
            },
    {
        let ghost old_lines = self.lines@;
        proof {
            self.lines@ = self.lines@.push(line@);
            assert(self.lines@.drop_last() =~= old_lines);
        }
        let cs = chars_of(line);
        let (a, b) = trim_bounds(&cs, 0, cs.len());
        assert(cs@.subrange(0, cs@.len() as int) =~= cs@);
        let t = sub_chars(&cs, a, b);
        if t.len() == 0 {
            return None;
        }
        let prefix = chars_of("#EXTINF:");
        if occurs_at_exec(&t, &prefix, 0) {
            assert(t@.subrange(0, prefix@.len() as int) =~= t@.take(prefix@.len() as int));
            self.pending_meta = Some(parse_extinf_chars(&t));
            return None;
        }
        assert(t@.subrange(0, prefix@.len() as int) =~= t@.take(prefix@.len() as int));
        if t[0] == '#' {
            return None;
        }
        let meta = match self.pending_meta.take() {
            Some(m) => m,
            None => ChannelMeta::default(),
        };
        let n = t.len();
        let ch = Channel {
            id: 0,
            provider_id: self.provider_id,
            name: meta.name,
            group_title: meta.group_title,
            logo_url: meta.logo_url,
            stream_url: string_of(&t, 0, n),
            tvg_id: meta.tvg_id,
            hidden: false,
            sort_order: self.sort_order,
        };
        assert(t@.subrange(0, n as int) =~= t@);
        let ghost old_made = self.batcher.pushed();
        self.sort_order = self.sort_order + 1;
        self.total = self.total + 1;
        let out = self.batcher.push(ch);
        assert(views(old_made.push(ch)) =~= views(old_made).push(ch@));
        out
    }

    /// Ends the playlist; hands back the channels not yet handed back, if any.
    pub fn finish(self) -> (out: Option<Vec<Channel>>)
        requires
            self.wf(),
        ensures
            match out {
                Some(b) => {
                    &&& 0 < b@.len() < full_len(self.batch_size())
                    &&& views(self.delivered() + b@) == m3u_channels(self.lines(), self.provider())
                },
                None => views(self.delivered()) == m3u_channels(self.lines(), self.provider()),
            },
    {
        self.batcher.finish()
    }
}

/// Whether `line` is the URL of a stream (see `makes_channel`).
pub fn line_makes_channel(line: &str) -> (r: bool)
    ensures
        r == makes_channel(line@),
{
    let cs = chars_of(line);
    let (a, b) = trim_bounds(&cs, 0, cs.len());
    assert(cs@.subrange(0, cs@.len() as int) =~= cs@);
    let t = sub_chars(&cs, a, b);
    if t.len() == 0 {
        return false;
    }
    let prefix = chars_of("#EXTINF:");
    let extinf = occurs_at_exec(&t, &prefix, 0);
    assert(t@.subrange(0, prefix@.len() as int) =~= t@.take(prefix@.len() as int));
    !extinf && t[0] != '#'
}

/// Whether `first` is a playlist header (see `is_header`).
pub fn check_header(first: &str) -> (r: bool)
    ensures
        r == is_header(first@),
{
    let cs = chars_of(first);
    let mut i: usize = 0;
    assert(cs@.skip(0) =~= cs@);
    while i < cs.len() && is_whitespace(cs[i])
        invariant
            i <= cs@.len(),
            trim_start(cs@) == trim_start(cs@.skip(i as int)),
        decreases cs@.len() - i,
    {
        assert(cs@.skip(i as int).drop_first() =~= cs@.skip(i + 1));
        i = i + 1;
    }
    let rest = sub_chars(&cs, i, cs.len());
    assert(rest@ =~= cs@.skip(i as int));
    let header = chars_of("#EXTM3U");
    let r = occurs_at_exec(&rest, &header, 0);
    assert(rest@.subrange(0, header@.len() as int) =~= rest@.take(header@.len() as int));
    r
}

} // verus!

verus! {

/// Every channel of a playlist belongs to its provider, is visible, has no
/// database id yet, and its sort order is its position in the playlist.
pub proof fn lemma_m3u_channel_fields(lines: Seq<Seq<char>>, provider_id: i64)
    requires
        m3u_channels(lines, provider_id).len() <= i64::MAX,
    ensures
        forall|i: int|
            0 <= i < m3u_channels(lines, provider_id).len() ==> {
                let c = #[trigger] m3u_channels(lines, provider_id)[i];
                &&& c.sort_order == i
                &&& c.provider_id == provider_id
                &&& c.id == 0
                &&& !c.hidden
            },
    decreases lines.len(),
{
    if lines.len() > 0 {
        let prev = m3u_state(lines.drop_last(), provider_id);
        assert(prev.1.len() <= m3u_channels(lines, provider_id).len());
        lemma_m3u_channel_fields(lines.drop_last(), provider_id);
    }
}

} // verus!

verus! {

/// Channels once made are never revised: the channels of the first `k` body
/// lines are the first channels of the whole playlist.
pub proof fn lemma_m3u_prefix(lines: Seq<Seq<char>>, provider_id: i64, k: int)
    requires
        0 <= k <= lines.len(),
    ensures
        m3u_channels(lines.take(k), provider_id).len() <= m3u_channels(lines, provider_id).len(),
        m3u_channels(lines, provider_id).take(m3u_channels(lines.take(k), provider_id).len() as int)
            == m3u_channels(lines.take(k), provider_id),
    decreases lines.len() - k,
{
    if k < lines.len() {
        lemma_m3u_prefix(lines.drop_last(), provider_id, k);
        assert(lines.drop_last().take(k) =~= lines.take(k));
        let a = m3u_channels(lines.drop_last(), provider_id);
        let b = m3u_channels(lines, provider_id);
        assert(b == a || b == a.push(b.last()));
        let n = m3u_channels(lines.take(k), provider_id).len() as int;
        assert(b.take(n) =~= a.take(n));
    } else {
        assert(lines.take(k) =~= lines);
        let b = m3u_channels(lines, provider_id);
        assert(b.take(b.len() as int) =~= b);
    }
}

} // verus!

verus! {

/// An attribute value, when there is one, is non-empty and has no white
/// space around it.
pub proof fn lemma_attr_value_trimmed(s: Seq<char>, key: Seq<char>)
    ensures
        spec_extract_attr(s, key) matches Some(v) ==> v.len() > 0 && trim(v) == v,
{
    let pattern = key + seq!['=', '"'];
    if let Some(p) = find(s, pattern) {
        let start = p + pattern.len();
        if let Some(q) = find(s.subrange(start, s.len() as int), seq!['"']) {
            crate::text::lemma_trim_idempotent(s.subrange(start, start + q));
        }
    }
}

/// A stream described by an `#EXTINF:` line always has a name.
pub proof fn lemma_extinf_name_nonempty(line: Seq<char>)
    ensures
        spec_parse_extinf(line).name.len() > 0,
{
    reveal_strlit("Unknown Channel");
}

/// Whether a body line is a comment: once trimmed it starts with `#` but is
/// not an `#EXTINF:` line.
pub open spec fn is_comment(line: Seq<char>) -> bool {
    let t = trim(line);
    t.len() > 0 && t[0] == '#' && !has_prefix(t, "#EXTINF:"@)
}

/// A comment line changes nothing: the lines `before`, a comment, then
/// `after` leave the parser in the state that `before` then `after` leave it
/// in. So a stream takes the description of the last `#EXTINF:` line before
/// it, whatever comments lie between them, and makes the same channels.
pub proof fn lemma_m3u_comment_ignored(before: Seq<Seq<char>>, comment: Seq<char>, after: Seq<Seq<char>>, provider_id: i64)
    requires
        is_comment(comment),
    ensures
        m3u_state(before.push(comment) + after, provider_id) == m3u_state(before + after, provider_id),
        m3u_channels(before.push(comment) + after, provider_id) == m3u_channels(before + after, provider_id),
    decreases after.len(),
{
    if after.len() == 0 {
        assert(before.push(comment) + after =~= before.push(comment));
        assert(before + after =~= before);
        assert(before.push(comment).drop_last() =~= before);
    } else {
        lemma_m3u_comment_ignored(before, comment, after.drop_last(), provider_id);
        assert((before.push(comment) + after).drop_last() =~= before.push(comment) + after.drop_last());
        assert((before + after).drop_last() =~= before + after.drop_last());
        assert((before.push(comment) + after).last() == after.last());
        assert((before + after).last() == after.last());
    }
}

} // verus!
