//! The channel database: providers, channels, favourites and programme
//! guide, kept in SQLite.
//!
//! What the database holds is outside what the library can know; the
//! library decides the statements and their parameters and how the rows that
//! come back become records.

use vstd::prelude::*;

verus! {

/// rusqlite's `Connection`, opaque.
#[verifier::external_type_specification]
#[verifier::external_body]
pub struct ExConnection(rusqlite::Connection);

/// rusqlite's `Error`, opaque.
#[verifier::external_type_specification]
#[verifier::external_body]
pub struct ExSqliteError(rusqlite::Error);

/// rusqlite's owned column value, opaque.
#[verifier::external_type_specification]
#[verifier::external_body]
pub struct ExValue(rusqlite::types::Value);

/// rusqlite's borrowed column value, opaque.
#[verifier::external_type_specification]
#[verifier::external_body]
pub struct ExValueRef<'a>(rusqlite::types::ValueRef<'a>);

/// rusqlite's result row, opaque.
#[verifier::external_type_specification]
#[verifier::external_body]
pub struct ExRow<'stmt>(rusqlite::Row<'stmt>);

/// A value bound to a statement parameter.
pub enum SqlParam {
    Null,
    Integer(i64),
    Text(String),
}

} // verus!

verus! {

use crate::models::{
    Provider, ProviderType, Channel, ChannelSummary, ChannelSummaryView, ChannelPage, EPGEntry,
    EPGEntryView, FilterOptions, views,
};
use crate::text::{utf8_string, has_prefix, occurs_at};

/// Errors of the channel database.
#[derive(Debug)]
pub enum StorageError {
    Sqlite(rusqlite::Error),
}

/// A parameter value as a mathematical value.
pub enum SqlParamView {
    Null,
    Integer(i64),
    Text(Seq<char>),
}

impl View for SqlParam {
    type V = SqlParamView;

    open spec fn view(&self) -> SqlParamView {
        match self {
            SqlParam::Null => SqlParamView::Null,
            SqlParam::Integer(i) => SqlParamView::Integer(*i),
            SqlParam::Text(s) => SqlParamView::Text(s@),
        }
    }
}

/// A column value of a result row: text is kept as the bytes SQLite stored;
/// floating-point numbers and blobs, which no record reads, are `Other`.
pub enum SqlValue {
    Null,
    Integer(i64),
    Text(Vec<u8>),
    Other,
}

/// The text a column holds, as rusqlite reads a `String`: only a text value
/// in UTF-8.
pub open spec fn col_text(v: SqlValue) -> Option<Seq<char>> {
    match v {
        SqlValue::Text(b) => if vstd::utf8::valid_utf8(b@) {
            Some(vstd::utf8::decode_utf8(b@))
        } else {
            None
        },
        _ => None,
    }
}

/// An optional text as rusqlite reads an `Option<String>`: `NULL` is none.
pub open spec fn col_opt_text(v: SqlValue) -> Option<Option<Seq<char>>> {
    match v {
        SqlValue::Null => Some(None),
        _ => match col_text(v) {
            Some(s) => Some(Some(s)),
            None => None,
        },
    }
}

/// An integer as rusqlite reads an `i64`.
pub open spec fn col_i64(v: SqlValue) -> Option<i64> {
    match v {
        SqlValue::Integer(i) => Some(i),
        _ => None,
    }
}

/// An integer as rusqlite reads an `i32`: an integer value within range.
pub open spec fn col_i32(v: SqlValue) -> Option<i32> {
    match v {
        SqlValue::Integer(i) => if i32::MIN <= i <= i32::MAX {
            Some(i as i32)
        } else {
            None
        },
        _ => None,
    }
}

/// The channel summary a row `id, name, group_title, logo_url, hidden,
/// is_fav` makes; none when a column does not read as its type.
pub open spec fn summary_of_row(r: Seq<SqlValue>) -> Option<ChannelSummaryView> {
    if r.len() < 6 {
        None
    } else {
        match (col_i64(r[0]), col_text(r[1]), col_opt_text(r[2]), col_opt_text(r[3]), col_i32(r[4]), col_i32(r[5])) {
            (Some(id), Some(name), Some(group_title), Some(logo_url), Some(hidden), Some(fav)) => Some(
                ChannelSummaryView {
                    id,
                    name,
                    group_title,
                    logo_url,
                    hidden: hidden != 0,
                    is_favorite: fav != 0,
                },
            ),
            _ => None,
        }
    }
}

/// The programme a row `id, channel_tvg_id, title, start_ts, end_ts,
/// description` makes; none when a column does not read as its type.
pub open spec fn epg_of_row(r: Seq<SqlValue>) -> Option<EPGEntryView> {
    if r.len() < 6 {
        None
    } else {
        match (col_i64(r[0]), col_text(r[1]), col_text(r[2]), col_i64(r[3]), col_i64(r[4]), col_opt_text(r[5])) {
            (Some(id), Some(ch), Some(title), Some(start_ts), Some(end_ts), Some(description)) => Some(
                EPGEntryView { id, channel_tvg_id: ch, title, start_ts, end_ts, description },
            ),
            _ => None,
        }
    }
}

/// The rows that arrived whole and decode, decoded, in order.
pub open spec fn decoded<T>(rows: Seq<Option<Vec<SqlValue>>>, f: spec_fn(Seq<SqlValue>) -> Option<T>) -> Seq<T>
    decreases rows.len(),
{
    if rows.len() == 0 {
        Seq::empty()
    } else {
        let prev = decoded(rows.drop_last(), f);
        match rows.last() {
            Some(r) => match f(r@) {
                Some(x) => prev.push(x),
                None => prev,
            },
            None => prev,
        }
    }
}

/// A text column read as rusqlite reads a `String` (see `col_text`).
fn read_text(v: &SqlValue) -> (r: Option<String>)
    ensures
        r.deep_view() == col_text(*v),
{
    match v {
        SqlValue::Text(b) => utf8_string(b),
        _ => None,
    }
}

/// An optional text column (see `col_opt_text`).
fn read_opt_text(v: &SqlValue) -> (r: Option<Option<String>>)
    ensures
        match r {
            Some(o) => col_opt_text(*v) == Some(o.deep_view()),
            None => col_opt_text(*v) is None,
        },
{
    match v {
        SqlValue::Null => Some(None),
        _ => match read_text(v) {
            Some(s) => Some(Some(s)),
            None => None,
        },
    }
}

/// An integer column (see `col_i64`).
fn read_i64(v: &SqlValue) -> (r: Option<i64>)
    ensures
        r == col_i64(*v),
{
    match v {
        SqlValue::Integer(i) => Some(*i),
        _ => None,
    }
}

/// An `i32` column (see `col_i32`).
fn read_i32(v: &SqlValue) -> (r: Option<i32>)
    ensures
        r == col_i32(*v),
{
    match v {
        SqlValue::Integer(i) => if i32::MIN as i64 <= *i && *i <= i32::MAX as i64 {
            Some(*i as i32)
        } else {
            None
        },
        _ => None,
    }
}

/// The channel summary a row makes (see `summary_of_row`).
pub fn summary_from_row(r: &Vec<SqlValue>) -> (s: Option<ChannelSummary>)
    ensures
        match s {
            Some(c) => summary_of_row(r@) == Some(c@),
            None => summary_of_row(r@) is None,
        },
{
    if r.len() < 6 {
        return None;
    }
    let id = read_i64(&r[0]);
    let name = read_text(&r[1]);
    let group_title = read_opt_text(&r[2]);
    let logo_url = read_opt_text(&r[3]);
    let hidden = read_i32(&r[4]);
    let fav = read_i32(&r[5]);
    match (id, name, group_title, logo_url, hidden, fav) {
        (Some(id), Some(name), Some(group_title), Some(logo_url), Some(hidden), Some(fav)) => Some(
            ChannelSummary {
                id,
                name,
                group_title,
                logo_url,
                hidden: hidden != 0,
                is_favorite: fav != 0,
            },
        ),
        _ => None,
    }
}

/// The programme a row makes (see `epg_of_row`).
pub fn epg_entry_from_row(r: &Vec<SqlValue>) -> (e: Option<EPGEntry>)
    ensures
        match e {
            Some(x) => epg_of_row(r@) == Some(x@),
            None => epg_of_row(r@) is None,
        },
{
    if r.len() < 6 {
        return None;
    }
    let id = read_i64(&r[0]);
    let ch = read_text(&r[1]);
    let title = read_text(&r[2]);
    let start_ts = read_i64(&r[3]);
    let end_ts = read_i64(&r[4]);
    let description = read_opt_text(&r[5]);
    match (id, ch, title, start_ts, end_ts, description) {
        (Some(id), Some(ch), Some(title), Some(start_ts), Some(end_ts), Some(description)) => Some(
            EPGEntry { id, channel_tvg_id: ch, title, start_ts, end_ts, description },
        ),
        _ => None,
    }
}

/// The channel summaries that the rows make (see `decoded`).
pub fn decode_summaries(rows: &Vec<Option<Vec<SqlValue>>>) -> (r: Vec<ChannelSummary>)
    ensures
        views(r@) == decoded(rows@, |x: Seq<SqlValue>| summary_of_row(x)),
{
    let mut r: Vec<ChannelSummary> = Vec::new();
    let mut i: usize = 0;
    while i < rows.len()
        invariant
            i <= rows@.len(),
            views(r@) == decoded(rows@.take(i as int), |x: Seq<SqlValue>| summary_of_row(x)),
        decreases rows@.len() - i,
    {
        assert(rows@.take(i + 1).drop_last() =~= rows@.take(i as int));
        let ghost before = r@;
        match &rows[i] {
            Some(row) => match summary_from_row(row) {
                Some(s) => {
                    r.push(s);
                    assert(views(r@) =~= views(before).push(s@));
                },
                None => {},
            },
            None => {},
        }
        i = i + 1;
    }
    assert(rows@.take(rows@.len() as int) =~= rows@);
    r
}

/// The programmes that the rows make (see `decoded`).
pub fn decode_epg_entries(rows: &Vec<Option<Vec<SqlValue>>>) -> (r: Vec<EPGEntry>)
    ensures
        views(r@) == decoded(rows@, |x: Seq<SqlValue>| epg_of_row(x)),
{
    let mut r: Vec<EPGEntry> = Vec::new();
    let mut i: usize = 0;
    while i < rows.len()
        invariant
            i <= rows@.len(),
            views(r@) == decoded(rows@.take(i as int), |x: Seq<SqlValue>| epg_of_row(x)),
        decreases rows@.len() - i,
    {
        assert(rows@.take(i + 1).drop_last() =~= rows@.take(i as int));
        let ghost before = r@;
        match &rows[i] {
            Some(row) => match epg_entry_from_row(row) {
                Some(s) => {
                    r.push(s);
                    assert(views(r@) =~= views(before).push(s@));
                },
                None => {},
            },
            None => {},
        }
        i = i + 1;
    }
    assert(rows@.take(rows@.len() as int) =~= rows@);
    r
}

/// The text of the first column of a row.
pub open spec fn first_text(x: Seq<SqlValue>) -> Option<Seq<char>> {
    if x.len() >= 1 {
        col_text(x[0])
    } else {
        None
    }
}

/// The texts of the first column of the rows that read as text.
pub fn decode_texts(rows: &Vec<Option<Vec<SqlValue>>>) -> (r: Vec<String>)
    ensures
        views(r@) == decoded(rows@, |x: Seq<SqlValue>| first_text(x)),
{
    let mut r: Vec<String> = Vec::new();
    let mut i: usize = 0;
    while i < rows.len()
        invariant
            i <= rows@.len(),
            views(r@) == decoded(rows@.take(i as int), |x: Seq<SqlValue>| first_text(x)),
        decreases rows@.len() - i,
    {
        assert(rows@.take(i + 1).drop_last() =~= rows@.take(i as int));
        let ghost before = r@;
        match &rows[i] {
            Some(row) => if row.len() >= 1 {
                assert(first_text(row@) == col_text(row@[0]));
                match read_text(&row[0]) {
                    Some(s) => {
                        r.push(s);
                        assert(views(r@) =~= views(before).push(s@));
                    },
                    None => {},
                }
            } else {
                assert(first_text(row@) is None);
            },
            None => {},
        }
        i = i + 1;
    }
    assert(rows@.take(rows@.len() as int) =~= rows@);
    r
}

} // verus!

verus! {

/// The parameter for an optional text: `NULL` when absent.
pub open spec fn opt_param(o: Option<Seq<char>>) -> SqlParamView {
    match o {
        Some(s) => SqlParamView::Text(s),
        None => SqlParamView::Null,
    }
}

/// How a provider type is stored.
pub open spec fn provider_type_text(t: ProviderType) -> Seq<char> {
    match t {
        ProviderType::XtreamCodes => "xtream"@,
        ProviderType::M3U => "m3u"@,
    }
}

fn opt_text_param(o: &Option<String>) -> (r: SqlParam)
    ensures
        r@ == opt_param(o.deep_view()),
{
    match o {
        Some(s) => SqlParam::Text(s.clone()),
        None => SqlParam::Null,
    }
}

/// The parameters that store a provider: name, type, URL, user name, password.
pub open spec fn provider_param_views(p: Provider) -> Seq<SqlParamView> {
    seq![
        SqlParamView::Text(p.name@),
        SqlParamView::Text(provider_type_text(p.provider_type)),
        SqlParamView::Text(p.url@),
        opt_param(p.username.deep_view()),
        opt_param(p.password.deep_view()),
    ]
}

/// The parameters that store a provider (see `provider_param_views`).
pub fn provider_params(p: &Provider) -> (r: Vec<SqlParam>)
    ensures
        views(r@) == provider_param_views(*p),
{
    let type_str = match p.provider_type {
        ProviderType::XtreamCodes => "xtream",
        ProviderType::M3U => "m3u",
    };
    let r = vec![
        SqlParam::Text(p.name.clone()),
        SqlParam::Text(String::from_str(type_str)),
        SqlParam::Text(p.url.clone()),
        opt_text_param(&p.username),
        opt_text_param(&p.password),
    ];
    assert(views(r@) =~= seq![
        SqlParamView::Text(p.name@),
        SqlParamView::Text(provider_type_text(p.provider_type)),
        SqlParamView::Text(p.url@),
        opt_param(p.username.deep_view()),
        opt_param(p.password.deep_view()),
    ]);
    r
}

/// The parameters that store a channel: provider, name, group, logo, stream
/// URL, EPG id, hidden (1 or 0), sort order.
pub open spec fn channel_param_views(ch: Channel) -> Seq<SqlParamView> {
    seq![
        SqlParamView::Integer(ch.provider_id),
        SqlParamView::Text(ch.name@),
        opt_param(ch.group_title.deep_view()),
        opt_param(ch.logo_url.deep_view()),
        SqlParamView::Text(ch.stream_url@),
        opt_param(ch.tvg_id.deep_view()),
        SqlParamView::Integer(if ch.hidden { 1 } else { 0 }),
        SqlParamView::Integer(ch.sort_order),
    ]
}

/// The parameters that store a channel (see `channel_param_views`).
pub fn channel_params(ch: &Channel) -> (r: Vec<SqlParam>)
    ensures
        views(r@) == channel_param_views(*ch),
{
    let r = vec![
        SqlParam::Integer(ch.provider_id),
        SqlParam::Text(ch.name.clone()),
        opt_text_param(&ch.group_title),
        opt_text_param(&ch.logo_url),
        SqlParam::Text(ch.stream_url.clone()),
        opt_text_param(&ch.tvg_id),
        SqlParam::Integer(if ch.hidden { 1 } else { 0 }),
        SqlParam::Integer(ch.sort_order),
    ];
    assert(views(r@) =~= seq![
        SqlParamView::Integer(ch.provider_id),
        SqlParamView::Text(ch.name@),
        opt_param(ch.group_title.deep_view()),
        opt_param(ch.logo_url.deep_view()),
        SqlParamView::Text(ch.stream_url@),
        opt_param(ch.tvg_id.deep_view()),
        SqlParamView::Integer(if ch.hidden { 1 } else { 0 }),
        SqlParamView::Integer(ch.sort_order),
    ]);
    r
}

/// The parameters that store a programme: channel, title, start, end, description.
pub open spec fn epg_param_views(e: EPGEntry) -> Seq<SqlParamView> {
    seq![
        SqlParamView::Text(e.channel_tvg_id@),
        SqlParamView::Text(e.title@),
        SqlParamView::Integer(e.start_ts),
        SqlParamView::Integer(e.end_ts),
        opt_param(e.description.deep_view()),
    ]
}

/// The parameters that store a programme (see `epg_param_views`).
pub fn epg_params(e: &EPGEntry) -> (r: Vec<SqlParam>)
    ensures
        views(r@) == epg_param_views(*e),
{
    let r = vec![
        SqlParam::Text(e.channel_tvg_id.clone()),
        SqlParam::Text(e.title.clone()),
        SqlParam::Integer(e.start_ts),
        SqlParam::Integer(e.end_ts),
        opt_text_param(&e.description),
    ];
    assert(views(r@) =~= seq![
        SqlParamView::Text(e.channel_tvg_id@),
        SqlParamView::Text(e.title@),
        SqlParamView::Integer(e.start_ts),
        SqlParamView::Integer(e.end_ts),
        opt_param(e.description.deep_view()),
    ]);
    r
}

/// The search text of a channel-list filter, when it is given and not empty.
pub open spec fn active_search(q: Option<Seq<char>>) -> Option<Seq<char>> {
    match q {
        Some(s) => if s.len() > 0 {
            Some(s)
        } else {
            None
        },
        None => None,
    }
}

/// The `WHERE` clause of a channel-list query: hidden channels left out unless
/// asked for, and names or groups matched against the search text.
pub open spec fn page_where(show_hidden: bool, search: Option<Seq<char>>) -> Seq<char> {
    match (show_hidden, active_search(search)) {
        (true, None) => ""@,
        (false, None) => "WHERE c.hidden = 0"@,
        (true, Some(_)) => "WHERE (c.name LIKE ?1 OR c.group_title LIKE ?1)"@,
        (false, Some(_)) => "WHERE c.hidden = 0 AND (c.name LIKE ?1 OR c.group_title LIKE ?1)"@,
    }
}

/// The parameters of the `WHERE` clause: the search text between `%`.
pub open spec fn page_where_params(search: Option<Seq<char>>) -> Seq<SqlParamView> {
    match active_search(search) {
        Some(q) => seq![SqlParamView::Text("%"@ + q + "%"@)],
        None => Seq::empty(),
    }
}

/// The statement that counts the channels of a channel list.
pub open spec fn page_count_sql(where_clause: Seq<char>) -> Seq<char> {
    "SELECT COUNT(*) FROM channels c LEFT JOIN favorites f ON f.channel_id = c.id "@ + where_clause
}

/// The statement that reads one page of a channel list, its limit and offset
/// numbered after the `WHERE` clause's `n` parameters.
pub open spec fn page_data_sql(where_clause: Seq<char>, n: nat) -> Seq<char> {
    "SELECT c.id, c.name, c.group_title, c.logo_url, c.hidden, (CASE WHEN f.id IS NOT NULL THEN 1 ELSE 0 END) as is_fav FROM channels c LEFT JOIN favorites f ON f.channel_id = c.id "@
        + where_clause + if n == 0 {
        " ORDER BY c.sort_order, c.name LIMIT ?1 OFFSET ?2"@
    } else {
        " ORDER BY c.sort_order, c.name LIMIT ?2 OFFSET ?3"@
    }
}

/// The statements and parameters that read a page of a channel list.
pub struct PageQuery {
    pub count_sql: String,
    pub count_params: Vec<SqlParam>,
    pub data_sql: String,
    pub data_params: Vec<SqlParam>,
}

/// The queries for the page at `offset` of `page_size` channels filtered by `opts`.
pub fn channels_page_query(opts: &FilterOptions, page_size: u32, offset: u32) -> (q: PageQuery)
    ensures
        q.count_sql@ == page_count_sql(page_where(opts.show_hidden, opts.search_query.deep_view())),
        views(q.count_params@) == page_where_params(opts.search_query.deep_view()),
        q.data_sql@ == page_data_sql(
            page_where(opts.show_hidden, opts.search_query.deep_view()),
            page_where_params(opts.search_query.deep_view()).len(),
        ),
        views(q.data_params@) == page_where_params(opts.search_query.deep_view()) + seq![
            SqlParamView::Integer(page_size as i64),
            SqlParamView::Integer(offset as i64),
        ],
{
    let search: Option<&String> = match &opts.search_query {
        Some(q) => if q.as_str().is_empty() {
            None
        } else {
            Some(q)
        },
        None => None,
    };
    let where_clause = match (opts.show_hidden, search.is_some()) {
        (true, false) => String::from_str(""),
        (false, false) => String::from_str("WHERE c.hidden = 0"),
        (true, true) => String::from_str("WHERE (c.name LIKE ?1 OR c.group_title LIKE ?1)"),
        (false, true) => String::from_str(
            "WHERE c.hidden = 0 AND (c.name LIKE ?1 OR c.group_title LIKE ?1)",
        ),
    };
    assert(where_clause@ == page_where(opts.show_hidden, opts.search_query.deep_view()));
    let mut count_params: Vec<SqlParam> = Vec::new();
    let mut data_params: Vec<SqlParam> = Vec::new();
    match search {
        Some(q) => {
            let mut pattern = String::from_str("%");
            pattern.append(q.as_str());
            pattern.append("%");
            count_params.push(SqlParam::Text(pattern.clone()));
            data_params.push(SqlParam::Text(pattern));
        },
        None => {},
    }
    let ghost wp = page_where_params(opts.search_query.deep_view());
    assert(views(count_params@) =~= wp);
    let mut count_sql = String::from_str(
        "SELECT COUNT(*) FROM channels c LEFT JOIN favorites f ON f.channel_id = c.id ",
    );
    count_sql.append(where_clause.as_str());
    let mut data_sql = String::from_str(
        "SELECT c.id, c.name, c.group_title, c.logo_url, c.hidden, (CASE WHEN f.id IS NOT NULL THEN 1 ELSE 0 END) as is_fav FROM channels c LEFT JOIN favorites f ON f.channel_id = c.id ",
    );
    data_sql.append(where_clause.as_str());
    if data_params.len() == 0 {
        data_sql.append(" ORDER BY c.sort_order, c.name LIMIT ?1 OFFSET ?2");
    } else {
        data_sql.append(" ORDER BY c.sort_order, c.name LIMIT ?2 OFFSET ?3");
    }
    data_params.push(SqlParam::Integer(page_size as i64));
    data_params.push(SqlParam::Integer(offset as i64));
    assert(views(data_params@) =~= wp + seq![
        SqlParamView::Integer(page_size as i64),
        SqlParamView::Integer(offset as i64),
    ]);
    PageQuery { count_sql, count_params, data_sql, data_params }
}

/// `s` without any `c`.
pub open spec fn remove_char(s: Seq<char>, c: char) -> Seq<char>
    decreases s.len(),
{
    if s.len() == 0 {
        s
    } else if s.last() == c {
        remove_char(s.drop_last(), c)
    } else {
        remove_char(s.drop_last(), c).push(s.last())
    }
}

/// The full-text query for `query`: its text without `"`, matched as a prefix.
pub open spec fn spec_fts_query(query: Seq<char>) -> Seq<char> {
    remove_char(query, '"').push('*')
}

/// The full-text query for `query` (see `spec_fts_query`).
pub fn fts_query(query: &str) -> (r: String)
    ensures
        r@ == spec_fts_query(query@),
{
    let cs = crate::text::chars_of(query);
    let mut r = String::new();
    let mut i: usize = 0;
    while i < cs.len()
        invariant
            i <= cs@.len(),
            r@ == remove_char(cs@.take(i as int), '"'),
        decreases cs@.len() - i,
    {
        assert(cs@.take(i + 1).drop_last() =~= cs@.take(i as int));
        if cs[i] != '"' {
            r.push(cs[i]);
        }
        i = i + 1;
    }
    assert(cs@.take(cs@.len() as int) =~= cs@);
    r.push('*');
    r
}

} // verus!


verus! {

use rusqlite::types::Value;

/// Switches the database file to write-ahead logging.
pub const WAL_SQL: &'static str = "PRAGMA journal_mode=WAL;";

/// Creates the tables and indexes that are missing.
pub const SCHEMA_SQL: &'static str = "PRAGMA foreign_keys=ON;
CREATE TABLE IF NOT EXISTS providers (id INTEGER PRIMARY KEY AUTOINCREMENT, name TEXT NOT NULL, provider_type TEXT NOT NULL, url TEXT NOT NULL, username TEXT, password TEXT);
CREATE TABLE IF NOT EXISTS channels (id INTEGER PRIMARY KEY AUTOINCREMENT, provider_id INTEGER NOT NULL REFERENCES providers(id) ON DELETE CASCADE, name TEXT NOT NULL, group_title TEXT, logo_url TEXT, stream_url TEXT NOT NULL, tvg_id TEXT, hidden INTEGER NOT NULL DEFAULT 0, sort_order INTEGER NOT NULL DEFAULT 0);
CREATE INDEX IF NOT EXISTS idx_channels_provider ON channels(provider_id);
CREATE INDEX IF NOT EXISTS idx_channels_group ON channels(group_title);
CREATE INDEX IF NOT EXISTS idx_channels_hidden ON channels(hidden);
CREATE VIRTUAL TABLE IF NOT EXISTS channels_fts USING fts5(name, group_title, content='channels', content_rowid='id', tokenize='unicode61');
CREATE TABLE IF NOT EXISTS favorites (id INTEGER PRIMARY KEY AUTOINCREMENT, channel_id INTEGER NOT NULL UNIQUE REFERENCES channels(id) ON DELETE CASCADE, added_at INTEGER NOT NULL DEFAULT (strftime('%s', 'now')));
CREATE TABLE IF NOT EXISTS filters (id INTEGER PRIMARY KEY AUTOINCREMENT, name TEXT NOT NULL, group_filter TEXT, name_filter TEXT, show_hidden INTEGER NOT NULL DEFAULT 0);
CREATE TABLE IF NOT EXISTS epg (id INTEGER PRIMARY KEY AUTOINCREMENT, channel_tvg_id TEXT NOT NULL, title TEXT NOT NULL, start_ts INTEGER NOT NULL, end_ts INTEGER NOT NULL, description TEXT);
CREATE INDEX IF NOT EXISTS idx_epg_channel ON epg(channel_tvg_id, start_ts);
CREATE TABLE IF NOT EXISTS vod (id INTEGER PRIMARY KEY AUTOINCREMENT, provider_id INTEGER NOT NULL REFERENCES providers(id) ON DELETE CASCADE, name TEXT NOT NULL, cover_url TEXT, stream_url TEXT NOT NULL, genre TEXT, rating TEXT, year TEXT);
CREATE VIRTUAL TABLE IF NOT EXISTS vod_fts USING fts5(name, genre, content='vod', content_rowid='id', tokenize='unicode61');
CREATE TABLE IF NOT EXISTS series (id INTEGER PRIMARY KEY AUTOINCREMENT, provider_id INTEGER NOT NULL REFERENCES providers(id) ON DELETE CASCADE, name TEXT NOT NULL, cover_url TEXT, genre TEXT);
CREATE TABLE IF NOT EXISTS episodes (id INTEGER PRIMARY KEY AUTOINCREMENT, series_id INTEGER NOT NULL REFERENCES series(id) ON DELETE CASCADE, season INTEGER NOT NULL, episode INTEGER NOT NULL, name TEXT NOT NULL, stream_url TEXT NOT NULL);";

/// Stores a provider.
pub const INSERT_PROVIDER_SQL: &'static str = "INSERT INTO providers (name, provider_type, url, username, password) VALUES (?1, ?2, ?3, ?4, ?5)";

/// Stores a channel.
pub const INSERT_CHANNEL_SQL: &'static str = "INSERT OR IGNORE INTO channels (provider_id, name, group_title, logo_url, stream_url, tvg_id, hidden, sort_order) VALUES (?1, ?2, ?3, ?4, ?5, ?6, ?7, ?8)";

/// Rebuilds the full-text index of the channels.
pub const REBUILD_FTS_SQL: &'static str = "INSERT INTO channels_fts(channels_fts) VALUES ('rebuild');";

/// Reads a page of the visible channels that match a full-text query.
pub const SEARCH_SQL: &'static str = "SELECT c.id, c.name, c.group_title, c.logo_url, c.hidden, (CASE WHEN f.id IS NOT NULL THEN 1 ELSE 0 END) as is_fav FROM channels_fts fts JOIN channels c ON c.id = fts.rowid LEFT JOIN favorites f ON f.channel_id = c.id WHERE channels_fts MATCH ?1 AND c.hidden = 0 ORDER BY rank LIMIT ?2 OFFSET ?3";

/// Counts the favourite rows of a channel.
pub const COUNT_FAVORITE_SQL: &'static str = "SELECT COUNT(*) FROM favorites WHERE channel_id = ?1";

/// Makes a channel a favourite.
pub const INSERT_FAVORITE_SQL: &'static str = "INSERT INTO favorites (channel_id) VALUES (?1)";

/// Makes a channel no favourite.
pub const DELETE_FAVORITE_SQL: &'static str = "DELETE FROM favorites WHERE channel_id = ?1";

/// Reads a channel's hidden flag.
pub const SELECT_HIDDEN_SQL: &'static str = "SELECT hidden FROM channels WHERE id = ?1";

/// Sets a channel's hidden flag.
pub const UPDATE_HIDDEN_SQL: &'static str = "UPDATE channels SET hidden = ?1 WHERE id = ?2";

/// Reads a channel's stream URL.
pub const STREAM_URL_SQL: &'static str = "SELECT stream_url FROM channels WHERE id = ?1";

/// Reads the distinct groups of a provider's channels, in order.
pub const GROUPS_SQL: &'static str = "SELECT DISTINCT group_title FROM channels WHERE provider_id = ?1 AND group_title IS NOT NULL ORDER BY group_title";

/// Stores a programme.
pub const INSERT_EPG_SQL: &'static str = "INSERT OR IGNORE INTO epg (channel_tvg_id, title, start_ts, end_ts, description) VALUES (?1, ?2, ?3, ?4, ?5)";

/// Reads the programmes of a channel that overlap a time range, by start.
pub const EPG_SQL: &'static str = "SELECT id, channel_tvg_id, title, start_ts, end_ts, description FROM epg WHERE channel_tvg_id = ?1 AND end_ts >= ?2 AND start_ts <= ?3 ORDER BY start_ts";

/// What the database answered a statement.
pub enum SqlAnswer {
    /// The statement failed.
    Failed,
    /// The statement ran.
    Done,
    /// The rows of a query, each as it was read (`None` for one that could not be).
    Rows(Seq<Option<Vec<SqlValue>>>),
    /// The integer in the first column of the first row.
    Int(i64),
    /// The text in the first column of the first row.
    Text(Seq<char>),
}

/// A statement sent to the database: its text, its parameters and the answer.
pub struct SqlCall {
    pub sql: Seq<char>,
    pub params: Seq<SqlParamView>,
    pub answer: SqlAnswer,
}

/// The log entry of statement `sql` sent with `params` and answered `answer`.
pub open spec fn sql_call(sql: Seq<char>, params: Seq<SqlParamView>, answer: SqlAnswer) -> SqlCall {
    SqlCall { sql, params, answer }
}

/// `Done` for a statement that ran, `Failed` for one that did not.
pub open spec fn ran<T, E>(r: Result<T, E>) -> SqlAnswer {
    if r is Ok {
        SqlAnswer::Done
    } else {
        SqlAnswer::Failed
    }
}

/// The rows a query answered, or `Failed`.
pub open spec fn rows_answer<E>(r: Result<Vec<Option<Vec<SqlValue>>>, E>) -> SqlAnswer {
    match r {
        Ok(rows) => SqlAnswer::Rows(rows@),
        Err(_) => SqlAnswer::Failed,
    }
}

/// The `i32` a query answered, or `Failed`.
pub open spec fn i32_answer<E>(r: Result<i32, E>) -> SqlAnswer {
    match r {
        Ok(v) => SqlAnswer::Int(v as i64),
        Err(_) => SqlAnswer::Failed,
    }
}

/// The `u32` a query answered, or `Failed`.
pub open spec fn u32_answer<E>(r: Result<u32, E>) -> SqlAnswer {
    match r {
        Ok(v) => SqlAnswer::Int(v as i64),
        Err(_) => SqlAnswer::Failed,
    }
}

/// The text a query answered, or `Failed`.
pub open spec fn text_answer<E>(r: Result<String, E>) -> SqlAnswer {
    match r {
        Ok(s) => SqlAnswer::Text(s@),
        Err(_) => SqlAnswer::Failed,
    }
}

/// The rows in an answer (none in another answer).
pub open spec fn answer_rows(a: SqlAnswer) -> Seq<Option<Vec<SqlValue>>> {
    match a {
        SqlAnswer::Rows(rows) => rows,
        _ => Seq::empty(),
    }
}

/// `after` is `before` and one more statement, `sql` with `params`.
pub open spec fn one_more(before: Seq<SqlCall>, after: Seq<SqlCall>, sql: Seq<char>, params: Seq<SqlParamView>) -> bool {
    &&& after.len() == before.len() + 1
    &&& after.drop_last() == before
    &&& after.last().sql == sql
    &&& after.last().params == params
}

/// The statements that create the schema, each having run: write-ahead
/// logging first when asked.
pub open spec fn migration_calls(use_wal: bool) -> Seq<SqlCall> {
    if use_wal {
        seq![
            sql_call(WAL_SQL@, Seq::empty(), SqlAnswer::Done),
            sql_call(SCHEMA_SQL@, Seq::empty(), SqlAnswer::Done),
        ]
    } else {
        seq![sql_call(SCHEMA_SQL@, Seq::empty(), SqlAnswer::Done)]
    }
}

/// The statements that store channels one by one, each having run.
pub open spec fn channel_inserts(cs: Seq<Channel>) -> Seq<SqlCall> {
    cs.map_values(|c: Channel| sql_call(INSERT_CHANNEL_SQL@, channel_param_views(c), SqlAnswer::Done))
}

/// The statements that store programmes one by one, each having run.
pub open spec fn epg_inserts(es: Seq<EPGEntry>) -> Seq<SqlCall> {
    es.map_values(|e: EPGEntry| sql_call(INSERT_EPG_SQL@, epg_param_views(e), SqlAnswer::Done))
}

/// The first `ncols` column values of a row.
fn row_values(row: &rusqlite::Row, ncols: usize) -> (r: Result<Vec<SqlValue>, rusqlite::Error>)
    ensures
        r matches Ok(v) ==> v@.len() == ncols,
        ncols == 0 ==> r is Ok,
{
    let mut v: Vec<SqlValue> = Vec::new();
    let mut i: usize = 0;
    while i < ncols
        invariant
            i <= ncols,
            v@.len() == i,
        decreases ncols - i,
    {
        match row_get_ref(row, i) {
            Ok(x) => v.push(sql_value_of(x)),
            Err(e) => return Err(e),
        }
        i = i + 1;
    }
    Ok(v)
}

/// A column value of a row: `NULL`, integer and text (its bytes) as they are,
/// floating-point numbers and blobs as `Other`.
#[verifier::external_body]
fn sql_value_of(v: rusqlite::types::ValueRef) -> (r: SqlValue) {
    match v {
        rusqlite::types::ValueRef::Null => SqlValue::Null,
        rusqlite::types::ValueRef::Integer(i) => SqlValue::Integer(i),
        rusqlite::types::ValueRef::Text(t) => SqlValue::Text(t.to_vec()),
        rusqlite::types::ValueRef::Real(_) => SqlValue::Other,
        rusqlite::types::ValueRef::Blob(_) => SqlValue::Other,
    }
}

/// `Row::get_ref(i)`: the value of column `i` of the row; what it holds is
/// the database's.
#[verifier::external_body]
fn row_get_ref<'a>(row: &'a rusqlite::Row<'a>, i: usize) -> (r: Result<rusqlite::types::ValueRef<'a>, rusqlite::Error>) {
    row.get_ref(i)
}

/// `Connection::open(path)`: opens (or creates) the database file at `path`,
/// with an empty log; whether it succeeds is the machine's.
#[verifier::external_body]
fn sql_open(path: &str) -> (r: Result<Database, rusqlite::Error>)
    ensures
        r matches Ok(db) ==> db.source() == Some(path@) && db.log() == Seq::<SqlCall>::empty(),
{
    let conn = rusqlite::Connection::open(path)?;
    Ok(Database { conn, log: Ghost(Seq::empty()), source: Ghost(Some(path@)) })
}

/// `Connection::open_in_memory()`: a database held in memory, with an empty
/// log; whether it succeeds is the machine's.
#[verifier::external_body]
fn sql_open_in_memory() -> (r: Result<Database, rusqlite::Error>)
    ensures
        r matches Ok(db) ==> db.source() is None && db.log() == Seq::<SqlCall>::empty(),
{
    let conn = rusqlite::Connection::open_in_memory()?;
    Ok(Database { conn, log: Ghost(Seq::empty()), source: Ghost(None) })
}

/// `Connection::execute_batch(sql)` on the database's connection: the log
/// gains the statement, answered `Done` when it ran; whether it runs is the
/// database's.
#[verifier::external_body]
fn sql_execute_batch(db: &mut Database, sql: &str) -> (r: Result<(), rusqlite::Error>)
    ensures
        final(db).log() == old(db).log().push(sql_call(sql@, Seq::empty(), ran(r))),
        final(db).source() == old(db).source(),
{
    db.conn.execute_batch(sql)
}

/// `Connection::execute(sql, params)` with each parameter bound, in order, as
/// the rusqlite value of the same kind: the log gains the statement, answered
/// `Done` when it ran; whether it runs is the database's.
#[verifier::external_body]
fn sql_execute(db: &mut Database, sql: &str, params: &Vec<SqlParam>) -> (r: Result<usize, rusqlite::Error>)
    ensures
        final(db).log() == old(db).log().push(sql_call(sql@, views(params@), ran(r))),
        final(db).source() == old(db).source(),
{
    db.conn.execute(sql, rusqlite::params_from_iter(params.iter().map(|p| match p {
        SqlParam::Null => Value::Null,
        SqlParam::Integer(i) => Value::Integer(*i),
        SqlParam::Text(s) => Value::Text(s.clone()),
    })))
}

/// The log entry of a `last_insert_rowid` call, named by the SQL function
/// that answers the same.
pub open spec fn last_rowid_sql() -> Seq<char> {
    "last_insert_rowid()"@
}

/// `Connection::last_insert_rowid()`: the log gains the call and the id it
/// answered; the id is the database's.
#[verifier::external_body]
fn sql_last_insert_rowid(db: &mut Database) -> (r: i64)
    ensures
        final(db).log() == old(db).log().push(sql_call(last_rowid_sql(), Seq::empty(), SqlAnswer::Int(r))),
        final(db).source() == old(db).source(),
{
    db.conn.last_insert_rowid()
}

/// `Statement::query_map` over `Connection::prepare(sql)`, the parameters
/// bound as by `sql_execute`: the rows, each read by `row_values` (`None` for
/// one that could not be read). The log gains the statement and the rows, or
/// `Failed`; the rows are the database's.
#[verifier::external_body]
fn sql_query_rows(db: &mut Database, sql: &str, params: &Vec<SqlParam>, ncols: usize) -> (r: Result<Vec<Option<Vec<SqlValue>>>, rusqlite::Error>)
    ensures
        final(db).log() == old(db).log().push(sql_call(sql@, views(params@), rows_answer(r))),
        final(db).source() == old(db).source(),
{
    let mut stmt = db.conn.prepare(sql)?;
    let values = params.iter().map(|p| match p {
        SqlParam::Null => Value::Null,
        SqlParam::Integer(i) => Value::Integer(*i),
        SqlParam::Text(s) => Value::Text(s.clone()),
    });
    let rows = stmt.query_map(rusqlite::params_from_iter(values), |row| row_values(row, ncols))?;
    Ok(rows.map(|x| x.ok()).collect())
}

/// `Connection::query_row(sql, params, |r| r.get(0))` read as `i32`, the
/// parameters bound as by `sql_execute`: the log gains the statement and the
/// value, or `Failed`; the value is the database's.
#[verifier::external_body]
fn sql_query_row_i32(db: &mut Database, sql: &str, params: &Vec<SqlParam>) -> (r: Result<i32, rusqlite::Error>)
    ensures
        final(db).log() == old(db).log().push(sql_call(sql@, views(params@), i32_answer(r))),
        final(db).source() == old(db).source(),
{
    let values = params.iter().map(|p| match p {
        SqlParam::Null => Value::Null,
        SqlParam::Integer(i) => Value::Integer(*i),
        SqlParam::Text(s) => Value::Text(s.clone()),
    });
    db.conn.query_row(sql, rusqlite::params_from_iter(values), |r| r.get(0))
}

/// `Connection::query_row(sql, params, |r| r.get(0))` read as `u32` (see
/// `sql_query_row_i32`).
#[verifier::external_body]
fn sql_query_row_u32(db: &mut Database, sql: &str, params: &Vec<SqlParam>) -> (r: Result<u32, rusqlite::Error>)
    ensures
        final(db).log() == old(db).log().push(sql_call(sql@, views(params@), u32_answer(r))),
        final(db).source() == old(db).source(),
{
    let values = params.iter().map(|p| match p {
        SqlParam::Null => Value::Null,
        SqlParam::Integer(i) => Value::Integer(*i),
        SqlParam::Text(s) => Value::Text(s.clone()),
    });
    db.conn.query_row(sql, rusqlite::params_from_iter(values), |r| r.get(0))
}

/// `Connection::query_row(sql, params, |r| r.get(0))` read as `String` (see
/// `sql_query_row_i32`).
#[verifier::external_body]
fn sql_query_row_string(db: &mut Database, sql: &str, params: &Vec<SqlParam>) -> (r: Result<String, rusqlite::Error>)
    ensures
        final(db).log() == old(db).log().push(sql_call(sql@, views(params@), text_answer(r))),
        final(db).source() == old(db).source(),
{
    let values = params.iter().map(|p| match p {
        SqlParam::Null => Value::Null,
        SqlParam::Integer(i) => Value::Integer(*i),
        SqlParam::Text(s) => Value::Text(s.clone()),
    });
    db.conn.query_row(sql, rusqlite::params_from_iter(values), |r| r.get(0))
}

/// A connection to the channel database, with the log of the statements
/// sent through it.
pub struct Database {
    conn: rusqlite::Connection,
    log: Ghost<Seq<SqlCall>>,
    source: Ghost<Option<Seq<char>>>,
}

impl Database {
    /// The statements sent through this connection, in order, each with what
    /// the database answered.
    pub closed spec fn log(&self) -> Seq<SqlCall> {
        self.log@
    }

    /// The path of the file the connection was opened on; none for a
    /// database held in memory.
    pub closed spec fn source(&self) -> Option<Seq<char>> {
        self.source@
    }

    /// Opens the database file at `path` (with write-ahead logging) and
    /// creates the tables that are missing.
    pub fn open(path: &str) -> (r: Result<Database, StorageError>)
        ensures
            r matches Ok(db) ==> db.log() == migration_calls(true) && db.source() == Some(path@),
    {
        let mut db = match sql_open(path) {
            Ok(db) => db,
            Err(e) => return Err(StorageError::Sqlite(e)),
        };
        match db.run_migrations(true) {
            Ok(()) => {
                assert(db.log() =~= migration_calls(true));
                Ok(db)
            },
            Err(e) => Err(e),
        }
    }

    /// Opens a database held in memory and creates the tables.
    pub fn open_in_memory() -> (r: Result<Database, StorageError>)
        ensures
            r matches Ok(db) ==> db.log() == migration_calls(false) && db.source() is None,
    {
        let mut db = match sql_open_in_memory() {
            Ok(db) => db,
            Err(e) => return Err(StorageError::Sqlite(e)),
        };
        match db.run_migrations(false) {
            Ok(()) => {
                assert(db.log() =~= migration_calls(false));
                Ok(db)
            },
            Err(e) => Err(e),
        }
    }

    /// Switches to write-ahead logging when asked, then creates the schema.
    fn run_migrations(&mut self, use_wal: bool) -> (r: Result<(), StorageError>)
        ensures
            final(self).source() == old(self).source(),
            r is Ok ==> final(self).log() == old(self).log() + migration_calls(use_wal),
    {
        if use_wal {
            match sql_execute_batch(self, WAL_SQL) {
                Ok(()) => {},
                Err(e) => return Err(StorageError::Sqlite(e)),
            }
        }
        match sql_execute_batch(self, SCHEMA_SQL) {
            Ok(()) => {
                assert(self.log() =~= old(self).log() + migration_calls(use_wal));
                Ok(())
            },
            Err(e) => Err(StorageError::Sqlite(e)),
        }
    }
}

impl Database {
    /// Stores a provider; answers the id the database gave it.
    pub fn insert_provider(&mut self, p: &Provider) -> (r: Result<i64, StorageError>)
        ensures
            final(self).source() == old(self).source(),
            r matches Ok(id) ==> final(self).log() == old(self).log().push(
                sql_call(INSERT_PROVIDER_SQL@, provider_param_views(*p), SqlAnswer::Done),
            ).push(sql_call(last_rowid_sql(), Seq::empty(), SqlAnswer::Int(id))),
            r is Err ==> final(self).log() == old(self).log().push(
                sql_call(INSERT_PROVIDER_SQL@, provider_param_views(*p), SqlAnswer::Failed),
            ),
    {
        let params = provider_params(p);
        match sql_execute(self, INSERT_PROVIDER_SQL, &params) {
            Ok(_) => Ok(sql_last_insert_rowid(self)),
            Err(e) => Err(StorageError::Sqlite(e)),
        }
    }

    /// Stores the channels one by one, stopping at the first error; answers
    /// how many were stored.
    pub fn insert_channels_batch(&mut self, channels: &[Channel]) -> (r: Result<usize, StorageError>)
        ensures
            final(self).source() == old(self).source(),
            r matches Ok(n) ==> n == channels@.len() && final(self).log() == old(self).log()
                + channel_inserts(channels@),
            r is Err ==> exists|k: int|
                0 <= k < channels@.len() && final(self).log() == old(self).log() + channel_inserts(
                    #[trigger] channels@.take(k),
                ).push(sql_call(INSERT_CHANNEL_SQL@, channel_param_views(channels@[k]), SqlAnswer::Failed)),
    {
        let mut count: usize = 0;
        while count < channels.len()
            invariant
                count <= channels@.len(),
                self.log() == old(self).log() + channel_inserts(channels@.take(count as int)),
                self.source() == old(self).source(),
            decreases channels@.len() - count,
        {
            let params = channel_params(&channels[count]);
            let ghost before = self.log();
            let sent = sql_execute(self, INSERT_CHANNEL_SQL, &params);
            match sent {
                Ok(_) => {},
                Err(e) => {
                    assert(self.log() == old(self).log() + channel_inserts(channels@.take(count as int)).push(
                        sql_call(INSERT_CHANNEL_SQL@, channel_param_views(channels@[count as int]), SqlAnswer::Failed),
                    ));
                    return Err(StorageError::Sqlite(e));
                },
            }
            assert(channel_inserts(channels@.take(count + 1)) =~= channel_inserts(
                channels@.take(count as int),
            ).push(sql_call(INSERT_CHANNEL_SQL@, channel_param_views(channels@[count as int]), SqlAnswer::Done)));
            count = count + 1;
        }
        assert(channels@.take(channels@.len() as int) =~= channels@);
        Ok(count)
    }

    /// Rebuilds the full-text index of the channels.
    pub fn rebuild_channels_fts(&mut self) -> (r: Result<(), StorageError>)
        ensures
            final(self).source() == old(self).source(),
            final(self).log() == old(self).log().push(sql_call(REBUILD_FTS_SQL@, Seq::empty(), ran(r))),
    {
        match sql_execute_batch(self, REBUILD_FTS_SQL) {
            Ok(()) => Ok(()),
            Err(e) => Err(StorageError::Sqlite(e)),
        }
    }

    /// The visible channels whose name or group matches `query` as a prefix
    /// in the full-text index, best matches first, page `page` of `page_size`.
    pub fn search_channels(&mut self, query: &str, page: u32, page_size: u32) -> (r: Result<Vec<ChannelSummary>, StorageError>)
        requires
            page * page_size <= u32::MAX,
        ensures
            final(self).source() == old(self).source(),
            one_more(old(self).log(), final(self).log(), SEARCH_SQL@, seq![
                SqlParamView::Text(spec_fts_query(query@)),
                SqlParamView::Integer(page_size as i64),
                SqlParamView::Integer((page * page_size) as i64),
            ]),
            r is Ok <==> final(self).log().last().answer is Rows,
            r matches Ok(v) ==> views(v@) == decoded(
                answer_rows(final(self).log().last().answer),
                |x: Seq<SqlValue>| summary_of_row(x),
            ),
    {
        let offset = page * page_size;
        let params = vec![
            SqlParam::Text(fts_query(query)),
            SqlParam::Integer(page_size as i64),
            SqlParam::Integer(offset as i64),
        ];
        assert(views(params@) =~= seq![
            SqlParamView::Text(spec_fts_query(query@)),
            SqlParamView::Integer(page_size as i64),
            SqlParamView::Integer((page * page_size) as i64),
        ]);
        let res = sql_query_rows(self, SEARCH_SQL, &params, 6);
        assert(self.log().drop_last() =~= old(self).log());
        match res {
            Ok(rows) => Ok(decode_summaries(&rows)),
            Err(e) => Err(StorageError::Sqlite(e)),
        }
    }

    /// The stream URL of a channel.
    pub fn get_stream_url(&mut self, channel_id: i64) -> (r: Result<String, StorageError>)
        ensures
            final(self).source() == old(self).source(),
            one_more(old(self).log(), final(self).log(), STREAM_URL_SQL@, seq![SqlParamView::Integer(channel_id)]),
            r matches Ok(s) ==> final(self).log().last().answer == SqlAnswer::Text(s@),
            r is Err ==> final(self).log().last().answer is Failed,
    {
        let params = vec![SqlParam::Integer(channel_id)];
        assert(views(params@) =~= seq![SqlParamView::Integer(channel_id)]);
        let res = sql_query_row_string(self, STREAM_URL_SQL, &params);
        assert(self.log().drop_last() =~= old(self).log());
        match res {
            Ok(s) => Ok(s),
            Err(e) => Err(StorageError::Sqlite(e)),
        }
    }

    /// The distinct groups of a provider's channels, in order.
    pub fn get_groups(&mut self, provider_id: i64) -> (r: Result<Vec<String>, StorageError>)
        ensures
            final(self).source() == old(self).source(),
            one_more(old(self).log(), final(self).log(), GROUPS_SQL@, seq![SqlParamView::Integer(provider_id)]),
            r is Ok <==> final(self).log().last().answer is Rows,
            r matches Ok(v) ==> views(v@) == decoded(
                answer_rows(final(self).log().last().answer),
                |x: Seq<SqlValue>| first_text(x),
            ),
    {
        let params = vec![SqlParam::Integer(provider_id)];
        assert(views(params@) =~= seq![SqlParamView::Integer(provider_id)]);
        let res = sql_query_rows(self, GROUPS_SQL, &params, 1);
        assert(self.log().drop_last() =~= old(self).log());
        match res {
            Ok(rows) => Ok(decode_texts(&rows)),
            Err(e) => Err(StorageError::Sqlite(e)),
        }
    }

    /// The programmes of channel `tvg_id` that overlap `from_ts..=to_ts`, by start.
    pub fn get_epg(&mut self, tvg_id: &str, from_ts: i64, to_ts: i64) -> (r: Result<Vec<EPGEntry>, StorageError>)
        ensures
            final(self).source() == old(self).source(),
            one_more(old(self).log(), final(self).log(), EPG_SQL@, seq![
                SqlParamView::Text(tvg_id@),
                SqlParamView::Integer(from_ts),
                SqlParamView::Integer(to_ts),
            ]),
            r is Ok <==> final(self).log().last().answer is Rows,
            r matches Ok(v) ==> views(v@) == decoded(
                answer_rows(final(self).log().last().answer),
                |x: Seq<SqlValue>| epg_of_row(x),
            ),
    {
        let params = vec![
            SqlParam::Text(String::from_str(tvg_id)),
            SqlParam::Integer(from_ts),
            SqlParam::Integer(to_ts),
        ];
        assert(views(params@) =~= seq![
            SqlParamView::Text(tvg_id@),
            SqlParamView::Integer(from_ts),
            SqlParamView::Integer(to_ts),
        ]);
        let res = sql_query_rows(self, EPG_SQL, &params, 6);
        assert(self.log().drop_last() =~= old(self).log());
        match res {
            Ok(rows) => Ok(decode_epg_entries(&rows)),
            Err(e) => Err(StorageError::Sqlite(e)),
        }
    }

    /// Stores the programmes one by one, stopping at the first error; answers
    /// how many were stored.
    pub fn insert_epg_batch(&mut self, entries: &[EPGEntry]) -> (r: Result<usize, StorageError>)
        ensures
            final(self).source() == old(self).source(),
            r matches Ok(n) ==> n == entries@.len() && final(self).log() == old(self).log()
                + epg_inserts(entries@),
            r is Err ==> exists|k: int|
                0 <= k < entries@.len() && final(self).log() == old(self).log() + epg_inserts(
                    #[trigger] entries@.take(k),
                ).push(sql_call(INSERT_EPG_SQL@, epg_param_views(entries@[k]), SqlAnswer::Failed)),
    {
        let mut count: usize = 0;
        while count < entries.len()
            invariant
                count <= entries@.len(),
                self.log() == old(self).log() + epg_inserts(entries@.take(count as int)),
                self.source() == old(self).source(),
            decreases entries@.len() - count,
        {
            let params = epg_params(&entries[count]);
            let sent = sql_execute(self, INSERT_EPG_SQL, &params);
            match sent {
                Ok(_) => {},
                Err(e) => {
                    assert(self.log() == old(self).log() + epg_inserts(entries@.take(count as int)).push(
                        sql_call(INSERT_EPG_SQL@, epg_param_views(entries@[count as int]), SqlAnswer::Failed),
                    ));
                    return Err(StorageError::Sqlite(e));
                },
            }
            assert(epg_inserts(entries@.take(count + 1)) =~= epg_inserts(
                entries@.take(count as int),
            ).push(sql_call(INSERT_EPG_SQL@, epg_param_views(entries@[count as int]), SqlAnswer::Done)));
            count = count + 1;
        }
        assert(entries@.take(entries@.len() as int) =~= entries@);
        Ok(count)
    }

    /// The page `page` of `page_size` channels that `opts` selects, in sort
    /// order then name, with the number of channels selected.
    pub fn get_channels_page(&mut self, page: u32, page_size: u32, opts: &FilterOptions) -> (r: Result<ChannelPage, StorageError>)
        requires
            page * page_size <= u32::MAX,
        ensures
            final(self).source() == old(self).source(),
            ({
                let before = old(self).log();
                let after = final(self).log();
                let n = before.len() as int;
                let w = page_where(opts.show_hidden, opts.search_query.deep_view());
                let wp = page_where_params(opts.search_query.deep_view());
                &&& n < after.len() <= n + 2
                &&& after.take(n) == before
                &&& after[n].sql == page_count_sql(w)
                &&& after[n].params == wp
                &&& after.len() == n + 2 ==> after[n].answer is Int && after[n + 1].sql == page_data_sql(
                    w,
                    wp.len(),
                ) && after[n + 1].params == wp + seq![
                    SqlParamView::Integer(page_size as i64),
                    SqlParamView::Integer((page * page_size) as i64),
                ]
                &&& r is Err ==> after.last().answer is Failed
                &&& r matches Ok(p) ==> {
                    &&& after.len() == n + 2
                    &&& after[n].answer == SqlAnswer::Int(p.total as i64)
                    &&& after[n + 1].answer is Rows
                    &&& views(p.channels@) == decoded(
                        answer_rows(after[n + 1].answer),
                        |x: Seq<SqlValue>| summary_of_row(x),
                    )
                    &&& p.page == page
                    &&& p.page_size == page_size
                }
            }),
    {
        let offset = page * page_size;
        let q = channels_page_query(opts, page_size, offset);
        let counted = sql_query_row_u32(self, q.count_sql.as_str(), &q.count_params);
        assert(self.log().take(old(self).log().len() as int) =~= old(self).log());
        let total = match counted {
            Ok(t) => t,
            Err(e) => return Err(StorageError::Sqlite(e)),
        };
        let ghost mid = self.log();
        let res = sql_query_rows(self, q.data_sql.as_str(), &q.data_params, 6);
        assert(self.log().take(old(self).log().len() as int) =~= old(self).log());
        assert(self.log()[old(self).log().len() as int] == mid[old(self).log().len() as int]);
        match res {
            Ok(rows) => Ok(ChannelPage { channels: decode_summaries(&rows), total, page, page_size }),
            Err(e) => Err(StorageError::Sqlite(e)),
        }
    }

    /// Makes the channel a favourite when it is not one, and not one when it
    /// is; answers whether it is one now.
    pub fn toggle_favorite(&mut self, channel_id: i64) -> (r: Result<bool, StorageError>)
        ensures
            final(self).source() == old(self).source(),
            ({
                let before = old(self).log();
                let after = final(self).log();
                let n = before.len() as int;
                let ps = seq![SqlParamView::Integer(channel_id)];
                &&& n < after.len() <= n + 2
                &&& after.take(n) == before
                &&& after[n].sql == COUNT_FAVORITE_SQL@
                &&& after[n].params == ps
                &&& after.len() == n + 2 ==> (after[n].answer matches SqlAnswer::Int(c) && after[n + 1].sql == (
                if c <= 0 {
                    INSERT_FAVORITE_SQL@
                } else {
                    DELETE_FAVORITE_SQL@
                }) && after[n + 1].params == ps)
                &&& r is Err ==> after.last().answer is Failed
                &&& r matches Ok(b) ==> after.len() == n + 2 && after[n + 1].answer is Done && (
                after[n].answer matches SqlAnswer::Int(c) && b == (c <= 0))
            }),
    {
        let params = vec![SqlParam::Integer(channel_id)];
        assert(views(params@) =~= seq![SqlParamView::Integer(channel_id)]);
        let counted = sql_query_row_i32(self, COUNT_FAVORITE_SQL, &params);
        assert(self.log().take(old(self).log().len() as int) =~= old(self).log());
        let count = match counted {
            Ok(c) => c,
            Err(e) => return Err(StorageError::Sqlite(e)),
        };
        let now_favorite = favorite_after_toggle(count);
        let sql = if now_favorite {
            INSERT_FAVORITE_SQL
        } else {
            DELETE_FAVORITE_SQL
        };
        let ghost mid = self.log();
        let res = sql_execute(self, sql, &params);
        assert(self.log().take(old(self).log().len() as int) =~= old(self).log());
        assert(self.log()[old(self).log().len() as int] == mid[old(self).log().len() as int]);
        match res {
            Ok(_) => Ok(now_favorite),
            Err(e) => Err(StorageError::Sqlite(e)),
        }
    }

    /// Flips whether the channel is hidden; answers whether it is hidden now.
    pub fn toggle_hidden(&mut self, channel_id: i64) -> (r: Result<bool, StorageError>)
        ensures
            final(self).source() == old(self).source(),
            ({
                let before = old(self).log();
                let after = final(self).log();
                let n = before.len() as int;
                &&& n < after.len() <= n + 2
                &&& after.take(n) == before
                &&& after[n].sql == SELECT_HIDDEN_SQL@
                &&& after[n].params == seq![SqlParamView::Integer(channel_id)]
                &&& after.len() == n + 2 ==> (after[n].answer matches SqlAnswer::Int(h) && after[n + 1].sql
                    == UPDATE_HIDDEN_SQL@ && after[n + 1].params == seq![
                    SqlParamView::Integer(if h == 0 { 1 } else { 0 }),
                    SqlParamView::Integer(channel_id),
                ])
                &&& r is Err ==> after.last().answer is Failed
                &&& r matches Ok(b) ==> after.len() == n + 2 && after[n + 1].answer is Done && (
                after[n].answer matches SqlAnswer::Int(h) && b == (h == 0))
            }),
    {
        let lookup = vec![SqlParam::Integer(channel_id)];
        assert(views(lookup@) =~= seq![SqlParamView::Integer(channel_id)]);
        let read = sql_query_row_i32(self, SELECT_HIDDEN_SQL, &lookup);
        assert(self.log().take(old(self).log().len() as int) =~= old(self).log());
        let hidden = match read {
            Ok(h) => h,
            Err(e) => return Err(StorageError::Sqlite(e)),
        };
        let new_hidden = hidden_after_toggle(hidden);
        let params = vec![
            SqlParam::Integer(if new_hidden { 1 } else { 0 }),
            SqlParam::Integer(channel_id),
        ];
        assert(views(params@) =~= seq![
            SqlParamView::Integer(if hidden == 0 { 1 } else { 0 }),
            SqlParamView::Integer(channel_id),
        ]);
        let ghost mid = self.log();
        let res = sql_execute(self, UPDATE_HIDDEN_SQL, &params);
        assert(self.log().take(old(self).log().len() as int) =~= old(self).log());
        assert(self.log()[old(self).log().len() as int] == mid[old(self).log().len() as int]);
        match res {
            Ok(_) => Ok(new_hidden),
            Err(e) => Err(StorageError::Sqlite(e)),
        }
    }
}

/// Whether a channel is a favourite after a toggle, given how many favourite
/// rows it had: it becomes one exactly when it had none.
pub fn favorite_after_toggle(count: i32) -> (r: bool)
    ensures
        r == (count <= 0),
{
    !(count > 0)
}

/// Whether a channel is hidden after a toggle, given its stored flag.
pub fn hidden_after_toggle(hidden: i32) -> (r: bool)
    ensures
        r == (hidden == 0),
{
    !(hidden != 0)
}

/// Column value `v` reads back as the parameter `p` that was stored in its
/// column: `NULL` as `NULL`, an integer as itself, a text as text that
/// decodes to it.
pub open spec fn reads_as(v: SqlValue, p: SqlParamView) -> bool {
    match p {
        SqlParamView::Null => v is Null,
        SqlParamView::Integer(i) => v == SqlValue::Integer(i),
        SqlParamView::Text(s) => col_text(v) == Some(s),
    }
}

/// A channel stored and read back on a page keeps what was stored. The page
/// query selects `c.id, c.name, c.group_title, c.logo_url, c.hidden` and the
/// favourite flag; `INSERT_CHANNEL_SQL` binds its parameters to
/// `provider_id, name, group_title, logo_url, stream_url, tvg_id, hidden,
/// sort_order`. When the row holds, column by column, the values bound to
/// `name`, `group_title`, `logo_url` and `hidden`, the summary is the channel's.
pub proof fn lemma_channel_round_trip(ch: Channel, r: Seq<SqlValue>, id: i64, fav: bool)
    requires
        r.len() == 6,
        r[0] == SqlValue::Integer(id),
        reads_as(r[1], channel_param_views(ch)[1]),
        reads_as(r[2], channel_param_views(ch)[2]),
        reads_as(r[3], channel_param_views(ch)[3]),
        reads_as(r[4], channel_param_views(ch)[6]),
        r[5] == SqlValue::Integer(if fav { 1 } else { 0 }),
    ensures
        summary_of_row(r) == Some(
            (ChannelSummaryView {
                id,
                name: ch.name@,
                group_title: ch.group_title.deep_view(),
                logo_url: ch.logo_url.deep_view(),
                hidden: ch.hidden,
                is_favorite: fav,
            }),
        ),
{
}

/// A programme stored by `insert_epg_batch` and read back by `get_epg` keeps
/// what was stored. `INSERT_EPG_SQL` binds its parameters to `channel_tvg_id,
/// title, start_ts, end_ts, description`, and `EPG_SQL` selects `id` and then
/// these columns in the same order: when the row holds the id and, column by
/// column, the stored values, the programme read is the one stored.
pub proof fn lemma_epg_round_trip(e: EPGEntry, r: Seq<SqlValue>, id: i64)
    requires
        r.len() == 6,
        r[0] == SqlValue::Integer(id),
        reads_as(r[1], epg_param_views(e)[0]),
        reads_as(r[2], epg_param_views(e)[1]),
        reads_as(r[3], epg_param_views(e)[2]),
        reads_as(r[4], epg_param_views(e)[3]),
        reads_as(r[5], epg_param_views(e)[4]),
    ensures
        epg_of_row(r) == Some(
            (EPGEntryView {
                id,
                channel_tvg_id: e.channel_tvg_id@,
                title: e.title@,
                start_ts: e.start_ts,
                end_ts: e.end_ts,
                description: e.description.deep_view(),
            }),
        ),
{
}

/// `p` occurs somewhere in `s`.
pub open spec fn mentions(s: Seq<char>, p: Seq<char>) -> bool {
    exists|i: int| occurs_at(s, p, i)
}

/// A text without the character `c` holds no text that has `c`.
proof fn lemma_no_char_no_occurrence(s: Seq<char>, p: Seq<char>, k: int)
    requires
        0 <= k < p.len(),
        forall|j: int| 0 <= j < s.len() ==> s[j] != p[k],
    ensures
        !mentions(s, p),
{
    assert forall|i: int| !occurs_at(s, p, i) by {
        if occurs_at(s, p, i) {
            assert(s.subrange(i, i + p.len())[k] == s[i + k]);
        }
    }
}

/// The hidden flag filters a channel list exactly when hidden channels are
/// not asked for: with `show_hidden` the `WHERE` clause has no condition on
/// `c.hidden` (and is empty without search text); without it the clause
/// starts with `WHERE c.hidden = 0`.
pub proof fn lemma_page_where_hidden(show_hidden: bool, search: Option<Seq<char>>)
    ensures
        show_hidden ==> !mentions(page_where(show_hidden, search), "c.hidden"@),
        show_hidden && active_search(search) is None ==> page_where(show_hidden, search).len() == 0,
        !show_hidden ==> has_prefix(page_where(show_hidden, search), "WHERE c.hidden = 0"@),
{
    reveal_strlit("c.hidden");
    reveal_strlit("");
    reveal_strlit("WHERE c.hidden = 0");
    reveal_strlit("WHERE (c.name LIKE ?1 OR c.group_title LIKE ?1)");
    reveal_strlit("WHERE c.hidden = 0 AND (c.name LIKE ?1 OR c.group_title LIKE ?1)");
    let w = page_where(show_hidden, search);
    let p = "c.hidden"@;
    assert(p[2] == 'h');
    if show_hidden {
        let ws = "WHERE (c.name LIKE ?1 OR c.group_title LIKE ?1)"@;
        assert forall|j: int| 0 <= j < ws.len() implies ws[j] != 'h' by {}
        lemma_no_char_no_occurrence(ws, p, 2);
        assert forall|j: int| 0 <= j < ""@.len() implies ""@[j] != 'h' by {}
        lemma_no_char_no_occurrence(""@, p, 2);
    } else {
        let pre = "WHERE c.hidden = 0"@;
        let both = "WHERE c.hidden = 0 AND (c.name LIKE ?1 OR c.group_title LIKE ?1)"@;
        assert(pre.take(pre.len() as int) =~= pre);
        assert(both.take(pre.len() as int) =~= pre);
    }
}

/// The search text filters a channel list exactly when it is given and not
/// empty: then the `WHERE` clause matches names and groups against `?1`, bound
/// to the search text between `%` wildcards; otherwise nothing is bound and
/// no name or group is matched.
pub proof fn lemma_page_where_search(show_hidden: bool, search: Option<Seq<char>>)
    ensures
        active_search(search) is None ==> page_where_params(search).len() == 0
            && !mentions(page_where(show_hidden, search), "LIKE"@),
        search is Some && search->0.len() > 0 ==> {
            let q = search->0;
            &&& page_where_params(search).len() == 1
            &&& page_where_params(search)[0] is Text
            &&& page_where_params(search)[0]->Text_0.len() == q.len() + 2
            &&& page_where_params(search)[0]->Text_0[0] == '%'
            &&& page_where_params(search)[0]->Text_0.last() == '%'
            &&& page_where_params(search)[0]->Text_0.subrange(1, q.len() as int + 1) == q
            &&& mentions(page_where(show_hidden, search), "c.name LIKE ?1"@)
            &&& mentions(page_where(show_hidden, search), "c.group_title LIKE ?1"@)
        },
{
    reveal_strlit("%");
    reveal_strlit("LIKE");
    reveal_strlit("");
    reveal_strlit("WHERE c.hidden = 0");
    reveal_strlit("c.name LIKE ?1");
    reveal_strlit("c.group_title LIKE ?1");
    reveal_strlit("WHERE (c.name LIKE ?1 OR c.group_title LIKE ?1)");
    reveal_strlit("WHERE c.hidden = 0 AND (c.name LIKE ?1 OR c.group_title LIKE ?1)");
    let like = "LIKE"@;
    assert(like[0] == 'L');
    match active_search(search) {
        None => {
            let a = ""@;
            let b = "WHERE c.hidden = 0"@;
            assert forall|j: int| 0 <= j < a.len() implies a[j] != 'L' by {}
            assert forall|j: int| 0 <= j < b.len() implies b[j] != 'L' by {}
            lemma_no_char_no_occurrence(a, like, 0);
            lemma_no_char_no_occurrence(b, like, 0);
        },
        Some(q) => {
            let pat = "%"@ + q + "%"@;
            assert(pat.subrange(1, q.len() as int + 1) =~= q);
            let a = "WHERE (c.name LIKE ?1 OR c.group_title LIKE ?1)"@;
            let b = "WHERE c.hidden = 0 AND (c.name LIKE ?1 OR c.group_title LIKE ?1)"@;
            let n = "c.name LIKE ?1"@;
            let g = "c.group_title LIKE ?1"@;
            assert(a.subrange(7, 7 + n.len() as int) =~= n);
            assert(occurs_at(a, n, 7));
            assert(b.subrange(24, 24 + n.len() as int) =~= n);
            assert(occurs_at(b, n, 24));
            assert(a.subrange(25, 25 + g.len() as int) =~= g);
            assert(occurs_at(a, g, 25));
            assert(b.subrange(42, 42 + g.len() as int) =~= g);
            assert(occurs_at(b, g, 42));
        },
    }
}

} // verus!
