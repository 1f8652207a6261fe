//! Xtream Codes panels: the URLs of the panel's API and streams, and the
//! conversion of the panel's stream lists into channels and VOD items.
//!
//! The HTTP requests themselves are made by the caller; this module decides
//! what is asked and what the answers become.

use vstd::prelude::*;
use crate::models::{Channel, ChannelView, VodItem, VodItemView, views};
use crate::text::{trim_end_matches, trim_matches, trim_end_char, trim_char};

verus! {

/// A live-stream category of a panel.
#[derive(Debug, Clone)]
pub struct XtreamCategory {
    pub category_id: String,
    pub category_name: String,
}

/// A live stream as a panel lists it. `stream_id` is the JSON text of the
/// panel's `stream_id` value.
#[derive(Debug, Clone)]
pub struct XtreamStream {
    pub stream_id: Option<String>,
    pub name: Option<String>,
    pub stream_icon: Option<String>,
    pub epg_channel_id: Option<String>,
    pub category_name: Option<String>,
}

/// A VOD item as a panel lists it. `stream_id` is the JSON text of the
/// panel's `stream_id` value.
#[derive(Debug, Clone)]
pub struct XtreamVod {
    pub stream_id: Option<String>,
    pub name: Option<String>,
    pub stream_icon: Option<String>,
    pub category_name: Option<String>,
    pub rating: Option<String>,
    pub year: Option<String>,
}

/// A listed live stream with its texts as character sequences.
pub struct XtreamStreamView {
    pub stream_id: Option<Seq<char>>,
    pub name: Option<Seq<char>>,
    pub stream_icon: Option<Seq<char>>,
    pub epg_channel_id: Option<Seq<char>>,
    pub category_name: Option<Seq<char>>,
}

impl View for XtreamStream {
    type V = XtreamStreamView;

    open spec fn view(&self) -> XtreamStreamView {
        XtreamStreamView {
            stream_id: self.stream_id.deep_view(),
            name: self.name.deep_view(),
            stream_icon: self.stream_icon.deep_view(),
            epg_channel_id: self.epg_channel_id.deep_view(),
            category_name: self.category_name.deep_view(),
        }
    }
}

/// A listed VOD item with its texts as character sequences.
pub struct XtreamVodView {
    pub stream_id: Option<Seq<char>>,
    pub name: Option<Seq<char>>,
    pub stream_icon: Option<Seq<char>>,
    pub category_name: Option<Seq<char>>,
    pub rating: Option<Seq<char>>,
    pub year: Option<Seq<char>>,
}

impl View for XtreamVod {
    type V = XtreamVodView;

    open spec fn view(&self) -> XtreamVodView {
        XtreamVodView {
            stream_id: self.stream_id.deep_view(),
            name: self.name.deep_view(),
            stream_icon: self.stream_icon.deep_view(),
            category_name: self.category_name.deep_view(),
            rating: self.rating.deep_view(),
            year: self.year.deep_view(),
        }
    }
}

/// A panel and the account used on it.
#[derive(Debug, Clone)]
pub struct XtreamClient {
    base_url: String,
    username: String,
    password: String,
}

/// The text itself unless it is empty.
pub open spec fn non_empty(o: Option<Seq<char>>) -> Option<Seq<char>> {
    match o {
        Some(s) => if s.len() == 0 {
            None
        } else {
            Some(s)
        },
        None => None,
    }
}

/// The text, or the empty text.
pub open spec fn or_empty(o: Option<Seq<char>>) -> Seq<char> {
    match o {
        Some(s) => s,
        None => Seq::empty(),
    }
}

/// The id used in URLs for a listed id: its JSON text without surrounding
/// quotes.
pub open spec fn id_text(json: Seq<char>) -> Seq<char> {
    trim_char(json, '"')
}

/// The API URL for `action`.
pub open spec fn spec_api_url(base: Seq<char>, user: Seq<char>, pass: Seq<char>, action: Seq<char>) -> Seq<char> {
    base + "/player_api.php?username="@ + user + "&password="@ + pass + "&action="@ + action
}

/// The URL of the live stream with id `id`.
pub open spec fn spec_live_url(base: Seq<char>, user: Seq<char>, pass: Seq<char>, id: Seq<char>) -> Seq<char> {
    base + "/"@ + user + "/"@ + pass + "/"@ + id + ".ts"@
}

/// The URL of the VOD item with id `id`.
pub open spec fn spec_vod_url(base: Seq<char>, user: Seq<char>, pass: Seq<char>, id: Seq<char>) -> Seq<char> {
    base + "/movie/"@ + user + "/"@ + pass + "/"@ + id + ".mp4"@
}

/// `o.filter(|s| !s.is_empty())`.
fn filter_non_empty(o: &Option<String>) -> (r: Option<String>)
    ensures
        r.deep_view() == non_empty(o.deep_view()),
{
    match o {
        Some(s) => if s.as_str().is_empty() {
            None
        } else {
            Some(s.clone())
        },
        None => None,
    }
}

/// `o.clone().unwrap_or_default()`.
fn text_or_empty(o: &Option<String>) -> (r: String)
    ensures
        r@ == or_empty(o.deep_view()),
{
    match o {
        Some(s) => s.clone(),
        None => String::new(),
    }
}

/// A copy of an optional text.
fn clone_text(o: &Option<String>) -> (r: Option<String>)
    ensures
        r.deep_view() == o.deep_view(),
{
    match o {
        Some(s) => Some(s.clone()),
        None => None,
    }
}

impl XtreamClient {
    /// The panel's base URL (without trailing `/`).
    pub closed spec fn base(&self) -> Seq<char> {
        self.base_url@
    }

    /// The account's user name.
    pub closed spec fn user(&self) -> Seq<char> {
        self.username@
    }

    /// The account's password.
    pub closed spec fn pass(&self) -> Seq<char> {
        self.password@
    }

    /// A client for the panel at `base_url`; trailing `/` are dropped from it.
    pub fn new(base_url: String, username: String, password: String) -> (c: Self)
        ensures
            c.base() == trim_end_char(base_url@, '/'),
            c.user() == username@,
            c.pass() == password@,
    {
        XtreamClient { base_url: trim_end_matches(base_url.as_str(), '/'), username, password }
    }

    /// The panel's base URL.
    pub fn base_url(&self) -> (r: &str)
        ensures
            r@ == self.base(),
    {
        self.base_url.as_str()
    }

    /// The account's user name.
    pub fn username(&self) -> (r: &str)
        ensures
            r@ == self.user(),
    {
        self.username.as_str()
    }

    /// The account's password.
    pub fn password(&self) -> (r: &str)
        ensures
            r@ == self.pass(),
    {
        self.password.as_str()
    }

    /// The URL of `action` of the panel's API.
    pub fn api_url(&self, action: &str) -> (r: String)
        ensures
            r@ == spec_api_url(self.base(), self.user(), self.pass(), action@),
    {
        let mut r = self.base_url.clone();
        r.append("/player_api.php?username=");
        r.append(self.username.as_str());
        r.append("&password=");
        r.append(self.password.as_str());
        r.append("&action=");
        r.append(action);
        r
    }

    /// The URL that authenticates the account.
    pub fn auth_url(&self) -> (r: String)
        ensures
            r@ == self.base() + "/player_api.php?username="@ + self.user() + "&password="@
                + self.pass(),
    {
        let mut r = self.base_url.clone();
        r.append("/player_api.php?username=");
        r.append(self.username.as_str());
        r.append("&password=");
        r.append(self.password.as_str());
        r
    }

    /// The URL of the live stream with id `id`.
    pub fn live_stream_url(&self, id: &str) -> (r: String)
        ensures
            r@ == spec_live_url(self.base(), self.user(), self.pass(), id@),
    {
        let mut r = self.base_url.clone();
        r.append("/");
        r.append(self.username.as_str());
        r.append("/");
        r.append(self.password.as_str());
        r.append("/");
        r.append(id);
        r.append(".ts");
        r
    }

    /// The URL of the VOD item with id `id`.
    pub fn vod_url(&self, id: &str) -> (r: String)
        ensures
            r@ == spec_vod_url(self.base(), self.user(), self.pass(), id@),
    {
        let mut r = self.base_url.clone();
        r.append("/movie/");
        r.append(self.username.as_str());
        r.append("/");
        r.append(self.password.as_str());
        r.append("/");
        r.append(id);
        r.append(".mp4");
        r
    }
}

} // verus!

verus! {

impl XtreamClient {
    /// The channel that the `index`-th listed live stream `s` makes for
    /// provider `provider_id`: none without a stream id; the stream URL built
    /// from the id, the name or the empty name, the category as group, and the
    /// icon and EPG id when they are not empty.
    pub open spec fn spec_live_channel(&self, provider_id: i64, index: int, s: XtreamStreamView) -> Option<ChannelView> {
        match s.stream_id {
            None => None,
            Some(j) => Some(
                ChannelView {
                    id: 0,
                    provider_id,
                    name: or_empty(s.name),
                    group_title: s.category_name,
                    logo_url: non_empty(s.stream_icon),
                    stream_url: spec_live_url(self.base(), self.user(), self.pass(), id_text(j)),
                    tvg_id: non_empty(s.epg_channel_id),
                    hidden: false,
                    sort_order: index as i64,
                },
            ),
        }
    }

    /// The channels that the listed live streams make, in list order; a
    /// channel's sort order is its stream's position in the list.
    pub open spec fn spec_live_channels(&self, provider_id: i64, streams: Seq<XtreamStreamView>) -> Seq<ChannelView>
        decreases streams.len(),
    {
        if streams.len() == 0 {
            Seq::empty()
        } else {
            let prev = self.spec_live_channels(provider_id, streams.drop_last());
            match self.spec_live_channel(provider_id, streams.len() - 1, streams.last()) {
                Some(c) => prev.push(c),
                None => prev,
            }
        }
    }

    /// The VOD item that the listed item `v` makes for provider `provider_id`:
    /// none without a stream id; the stream URL built from the id, the name or
    /// the empty name, the icon as cover when not empty, the category as genre.
    pub open spec fn spec_vod_item(&self, provider_id: i64, v: XtreamVodView) -> Option<VodItemView> {
        match v.stream_id {
            None => None,
            Some(j) => Some(
                VodItemView {
                    id: 0,
                    provider_id,
                    name: or_empty(v.name),
                    cover_url: non_empty(v.stream_icon),
                    stream_url: spec_vod_url(self.base(), self.user(), self.pass(), id_text(j)),
                    genre: v.category_name,
                    rating: v.rating,
                    year: v.year,
                },
            ),
        }
    }

    /// The VOD items that the listed items make, in list order.
    pub open spec fn spec_vod_items(&self, provider_id: i64, items: Seq<XtreamVodView>) -> Seq<VodItemView>
        decreases items.len(),
    {
        if items.len() == 0 {
            Seq::empty()
        } else {
            let prev = self.spec_vod_items(provider_id, items.drop_last());
            match self.spec_vod_item(provider_id, items.last()) {
                Some(c) => prev.push(c),
                None => prev,
            }
        }
    }

    /// The channel that the `index`-th listed live stream makes (see `spec_live_channel`).
    pub fn live_channel(&self, provider_id: i64, index: usize, s: &XtreamStream) -> (r: Option<Channel>)
        ensures
            match r {
                Some(c) => self.spec_live_channel(provider_id, index as int, s@) == Some(c@),
                None => self.spec_live_channel(provider_id, index as int, s@) is None,
            },
    {
        match &s.stream_id {
            None => None,
            Some(json) => {
                let id = trim_matches(json.as_str(), '"');
                Some(
                    Channel {
                        id: 0,
                        provider_id,
                        name: text_or_empty(&s.name),
                        group_title: clone_text(&s.category_name),
                        logo_url: filter_non_empty(&s.stream_icon),
                        stream_url: self.live_stream_url(id.as_str()),
                        tvg_id: filter_non_empty(&s.epg_channel_id),
                        hidden: false,
                        sort_order: index as i64,
                    },
                )
            },
        }
    }

    /// The channels that the listed live streams make (see `spec_live_channels`).
    pub fn live_channels(&self, provider_id: i64, streams: &Vec<XtreamStream>) -> (r: Vec<Channel>)
        ensures
            views(r@) == self.spec_live_channels(provider_id, views(streams@)),
    {
        let mut r: Vec<Channel> = Vec::new();
        let mut i: usize = 0;
        while i < streams.len()
            invariant
                i <= streams@.len(),
                views(r@) == self.spec_live_channels(provider_id, views(streams@).take(i as int)),
            decreases streams@.len() - i,
        {
            let ghost sv = views(streams@);
            assert(sv.take(i + 1).drop_last() =~= sv.take(i as int));
            assert(sv.take(i + 1).last() == streams@[i as int]@);
            let ghost before = r@;
            match self.live_channel(provider_id, i, &streams[i]) {
                Some(c) => {
                    r.push(c);
                    assert(views(r@) =~= views(before).push(c@));
                },
                None => {},
            }
            i = i + 1;
        }
        assert(views(streams@).take(streams@.len() as int) =~= views(streams@));
        r
    }

    /// The VOD item that a listed item makes (see `spec_vod_item`).
    pub fn vod_item(&self, provider_id: i64, v: &XtreamVod) -> (r: Option<VodItem>)
        ensures
            match r {
                Some(x) => self.spec_vod_item(provider_id, v@) == Some(x@),
                None => self.spec_vod_item(provider_id, v@) is None,
            },
    {
        match &v.stream_id {
            None => None,
            Some(json) => {
                let id = trim_matches(json.as_str(), '"');
                Some(
                    VodItem {
                        id: 0,
                        provider_id,
                        name: text_or_empty(&v.name),
                        cover_url: filter_non_empty(&v.stream_icon),
                        stream_url: self.vod_url(id.as_str()),
                        genre: clone_text(&v.category_name),
                        rating: clone_text(&v.rating),
                        year: clone_text(&v.year),
                    },
                )
            },
        }
    }

    /// The VOD items that the listed items make (see `spec_vod_items`).
    pub fn vod_items(&self, provider_id: i64, items: &Vec<XtreamVod>) -> (r: Vec<VodItem>)
        ensures
            views(r@) == self.spec_vod_items(provider_id, views(items@)),
    {
        let mut r: Vec<VodItem> = Vec::new();
        let mut i: usize = 0;
        while i < items.len()
            invariant
                i <= items@.len(),
                views(r@) == self.spec_vod_items(provider_id, views(items@).take(i as int)),
            decreases items@.len() - i,
        {
            let ghost sv = views(items@);
            assert(sv.take(i + 1).drop_last() =~= sv.take(i as int));
            assert(sv.take(i + 1).last() == items@[i as int]@);
            let ghost before = r@;
            match self.vod_item(provider_id, &items[i]) {
                Some(x) => {
                    r.push(x);
                    assert(views(r@) =~= views(before).push(x@));
                },
                None => {},
            }
            i = i + 1;
        }
        assert(views(items@).take(items@.len() as int) =~= views(items@));
        r
    }

    /// The URL that lists the live categories.
    pub fn live_categories_url(&self) -> (r: String)
        ensures
            r@ == spec_api_url(self.base(), self.user(), self.pass(), "get_live_categories"@),
    {
        self.api_url("get_live_categories")
    }

    /// The URL that lists the live streams, of one category or of all.
    pub fn live_streams_url(&self, category_id: Option<&str>) -> (r: String)
        ensures
            r@ == spec_api_url(
                self.base(),
                self.user(),
                self.pass(),
                match category_id {
                    Some(cat) => "get_live_streams&category_id="@ + cat@,
                    None => "get_live_streams"@,
                },
            ),
    {
        match category_id {
            Some(cat) => {
                let mut action = String::from_str("get_live_streams&category_id=");
                action.append(cat);
                self.api_url(action.as_str())
            },
            None => self.api_url("get_live_streams"),
        }
    }

    /// The URL that lists the VOD items.
    pub fn vod_streams_url(&self) -> (r: String)
        ensures
            r@ == spec_api_url(self.base(), self.user(), self.pass(), "get_vod_streams"@),
    {
        self.api_url("get_vod_streams")
    }
}

/// Whether the panel's `user_info.auth` answer means the account was accepted.
pub fn is_authenticated(auth: i32) -> (r: bool)
    ensures
        r == (auth == 1),
{
    auth == 1
}

} // verus!

verus! {

/// Every channel of a panel's list belongs to the provider, is visible, has
/// no database id yet, and the channels keep the order of the streams: their
/// sort orders increase and stay below the number of streams.
pub proof fn lemma_live_channel_fields(
    c: XtreamClient,
    provider_id: i64,
    streams: Seq<XtreamStreamView>,
)
    requires
        streams.len() <= i64::MAX,
    ensures
        forall|i: int|
            0 <= i < c.spec_live_channels(provider_id, streams).len() ==> {
                let ch = #[trigger] c.spec_live_channels(provider_id, streams)[i];
                &&& ch.provider_id == provider_id
                &&& ch.id == 0
                &&& !ch.hidden
                &&& 0 <= ch.sort_order < streams.len()
            },
        forall|i: int, j: int|
            0 <= i < j < c.spec_live_channels(provider_id, streams).len() ==> (
            #[trigger] c.spec_live_channels(provider_id, streams)[i]).sort_order < (
            #[trigger] c.spec_live_channels(provider_id, streams)[j]).sort_order,
    decreases streams.len(),
{
    if streams.len() > 0 {
        lemma_live_channel_fields(c, provider_id, streams.drop_last());
    }
}

/// A VOD item carries what its listed item says: an item is made exactly
/// from a listed item with a stream id, for the provider, with the listed
/// rating as its rating, the listed year as its year, the listed category as
/// its genre and the listed name (or the empty name) as its name.
pub proof fn lemma_vod_item_fields(c: XtreamClient, provider_id: i64, v: XtreamVodView)
    ensures
        c.spec_vod_item(provider_id, v) is Some <==> v.stream_id is Some,
        c.spec_vod_item(provider_id, v) matches Some(item) ==> {
            &&& item.provider_id == provider_id
            &&& item.rating == v.rating
            &&& item.year == v.year
            &&& item.genre == v.category_name
            &&& item.name == or_empty(v.name)
        },
{
}

/// When every listed item has a stream id, the VOD items are one per listed
/// item, in list order, each with the rating, year and genre of its item.
pub proof fn lemma_vod_items_fields(c: XtreamClient, provider_id: i64, items: Seq<XtreamVodView>)
    requires
        forall|i: int| 0 <= i < items.len() ==> (#[trigger] items[i]).stream_id is Some,
    ensures
        c.spec_vod_items(provider_id, items).len() == items.len(),
        forall|k: int|
            0 <= k < items.len() ==> {
                let item = #[trigger] c.spec_vod_items(provider_id, items)[k];
                &&& item.provider_id == provider_id
                &&& item.rating == items[k].rating
                &&& item.year == items[k].year
                &&& item.genre == items[k].category_name
            },
    decreases items.len(),
{
    if items.len() > 0 {
        let init = items.drop_last();
        assert forall|i: int| 0 <= i < init.len() implies (#[trigger] init[i]).stream_id is Some by {
            assert(init[i] == items[i]);
        }
        lemma_vod_items_fields(c, provider_id, init);
        lemma_vod_item_fields(c, provider_id, items.last());
        assert(items.last() == items[items.len() - 1]);
        assert forall|k: int| 0 <= k < items.len() implies ({
            let item = #[trigger] c.spec_vod_items(provider_id, items)[k];
            &&& item.provider_id == provider_id
            &&& item.rating == items[k].rating
            &&& item.year == items[k].year
            &&& item.genre == items[k].category_name
        }) by {
            if k < items.len() - 1 {
                assert(init[k] == items[k]);
            }
        }
    }
}

} // verus!
