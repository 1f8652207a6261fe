//! Records exchanged between the parsers, the database and the callers.
//!
//! Each record with text fields has a view in which every `String` is its
//! sequence of characters; the contracts of the library speak of these views.

use vstd::prelude::*;

verus! {

/// The kind of source a provider is.
#[derive(Debug, Clone, Copy, PartialEq, Eq, Structural)]
pub enum ProviderType {
    XtreamCodes,
    M3U,
}

/// A playlist source registered by the user.
#[derive(Debug, Clone)]
pub struct Provider {
    pub id: Option<i64>,
    pub name: String,
    pub provider_type: ProviderType,
    pub url: String,
    pub username: Option<String>,
    pub password: Option<String>,
}

/// A live channel.
#[derive(Debug, Clone)]
pub struct Channel {
    pub id: i64,
    pub provider_id: i64,
    pub name: String,
    pub group_title: Option<String>,
    pub logo_url: Option<String>,
    pub stream_url: String,
    pub tvg_id: Option<String>,
    pub hidden: bool,
    pub sort_order: i64,
}

/// The part of a channel shown in a channel list.
#[derive(Debug, Clone)]
pub struct ChannelSummary {
    pub id: i64,
    pub name: String,
    pub group_title: Option<String>,
    pub logo_url: Option<String>,
    pub hidden: bool,
    pub is_favorite: bool,
}

/// One programme of the electronic programme guide.
#[derive(Debug, Clone)]
pub struct EPGEntry {
    pub id: i64,
    pub channel_tvg_id: String,
    pub title: String,
    pub start_ts: i64,
    pub end_ts: i64,
    pub description: Option<String>,
}

/// A video-on-demand item.
#[derive(Debug, Clone)]
pub struct VodItem {
    pub id: i64,
    pub provider_id: i64,
    pub name: String,
    pub cover_url: Option<String>,
    pub stream_url: String,
    pub genre: Option<String>,
    pub rating: Option<String>,
    pub year: Option<String>,
}

/// A series.
#[derive(Debug, Clone)]
pub struct Series {
    pub id: i64,
    pub provider_id: i64,
    pub name: String,
    pub cover_url: Option<String>,
    pub genre: Option<String>,
}

/// One episode of a series.
#[derive(Debug, Clone)]
pub struct Episode {
    pub id: i64,
    pub series_id: i64,
    pub season: i32,
    pub episode: i32,
    pub name: String,
    pub stream_url: String,
}

/// A saved channel filter.
#[derive(Debug, Clone)]
pub struct FilterPreset {
    pub id: Option<i64>,
    pub name: String,
    pub group_filter: Option<String>,
    pub name_filter: Option<String>,
    pub show_hidden: bool,
}

/// How a channel list is filtered.
#[derive(Debug, Clone)]
pub struct FilterOptions {
    pub preset_id: Option<i64>,
    pub search_query: Option<String>,
    pub show_hidden: bool,
}

impl Default for FilterOptions {
    /// No preset, no search, hidden channels left out.
    fn default() -> (r: Self)
        ensures
            r.preset_id is None,
            r.search_query is None,
            !r.show_hidden,
    {
        FilterOptions { preset_id: None, search_query: None, show_hidden: false }
    }
}

/// One page of a channel list.
#[derive(Debug, Clone)]
pub struct ChannelPage {
    pub channels: Vec<ChannelSummary>,
    pub total: u32,
    pub page: u32,
    pub page_size: u32,
}

/// A channel with its text fields taken as character sequences.
pub struct ChannelView {
    pub id: i64,
    pub provider_id: i64,
    pub name: Seq<char>,
    pub group_title: Option<Seq<char>>,
    pub logo_url: Option<Seq<char>>,
    pub stream_url: Seq<char>,
    pub tvg_id: Option<Seq<char>>,
    pub hidden: bool,
    pub sort_order: i64,
}

impl View for Channel {
    type V = ChannelView;

    open spec fn view(&self) -> ChannelView {
        ChannelView {
            id: self.id,
            provider_id: self.provider_id,
            name: self.name@,
            group_title: self.group_title.deep_view(),
            logo_url: self.logo_url.deep_view(),
            stream_url: self.stream_url@,
            tvg_id: self.tvg_id.deep_view(),
            hidden: self.hidden,
            sort_order: self.sort_order,
        }
    }
}

/// A channel summary with its text fields taken as character sequences.
pub struct ChannelSummaryView {
    pub id: i64,
    pub name: Seq<char>,
    pub group_title: Option<Seq<char>>,
    pub logo_url: Option<Seq<char>>,
    pub hidden: bool,
    pub is_favorite: bool,
}

impl View for ChannelSummary {
    type V = ChannelSummaryView;

    open spec fn view(&self) -> ChannelSummaryView {
        ChannelSummaryView {
            id: self.id,
            name: self.name@,
            group_title: self.group_title.deep_view(),
            logo_url: self.logo_url.deep_view(),
            hidden: self.hidden,
            is_favorite: self.is_favorite,
        }
    }
}

/// A programme with its text fields taken as character sequences.
pub struct EPGEntryView {
    pub id: i64,
    pub channel_tvg_id: Seq<char>,
    pub title: Seq<char>,
    pub start_ts: i64,
    pub end_ts: i64,
    pub description: Option<Seq<char>>,
}

impl View for EPGEntry {
    type V = EPGEntryView;

    open spec fn view(&self) -> EPGEntryView {
        EPGEntryView {
            id: self.id,
            channel_tvg_id: self.channel_tvg_id@,
            title: self.title@,
            start_ts: self.start_ts,
            end_ts: self.end_ts,
            description: self.description.deep_view(),
        }
    }
}

/// A video-on-demand item with its text fields taken as character sequences.
pub struct VodItemView {
    pub id: i64,
    pub provider_id: i64,
    pub name: Seq<char>,
    pub cover_url: Option<Seq<char>>,
    pub stream_url: Seq<char>,
    pub genre: Option<Seq<char>>,
    pub rating: Option<Seq<char>>,
    pub year: Option<Seq<char>>,
}

impl View for VodItem {
    type V = VodItemView;

    open spec fn view(&self) -> VodItemView {
        VodItemView {
            id: self.id,
            provider_id: self.provider_id,
            name: self.name@,
            cover_url: self.cover_url.deep_view(),
            stream_url: self.stream_url@,
            genre: self.genre.deep_view(),
            rating: self.rating.deep_view(),
            year: self.year.deep_view(),
        }
    }
}

/// The views of a sequence of records.
pub open spec fn views<T: View>(s: Seq<T>) -> Seq<T::V> {
    s.map_values(|x: T| x@)
}

} // verus!
