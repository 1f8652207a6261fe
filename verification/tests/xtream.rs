use iptv_core::xtream::{is_authenticated, XtreamClient, XtreamStream, XtreamVod};

#[test]
fn api_url_format() {
    let client = XtreamClient::new(
        "http://example.com:8080".to_string(),
        "user".to_string(),
        "pass".to_string(),
    );
    let url = client.api_url("get_live_categories");
    assert!(url.contains("player_api.php"));
    assert!(url.contains("username=user"));
    assert!(url.contains("password=pass"));
    assert!(url.contains("action=get_live_categories"));
}

#[test]
fn stream_url_construction() {
    let client = XtreamClient::new(
        "http://example.com".to_string(),
        "user".to_string(),
        "pass".to_string(),
    );
    let url = format!("{}/{}/{}/12345.ts", client.base_url(), client.username(), client.password());
    assert_eq!(url, "http://example.com/user/pass/12345.ts");
}

#[test]
fn trailing_slashes_are_dropped() {
    let client = XtreamClient::new("http://h//".to_string(), "u".to_string(), "p".to_string());
    assert_eq!(client.base_url(), "http://h");
    assert_eq!(
        client.api_url("get_vod_streams"),
        "http://h/player_api.php?username=u&password=p&action=get_vod_streams"
    );
    assert_eq!(client.auth_url(), "http://h/player_api.php?username=u&password=p");
    assert_eq!(
        client.live_streams_url(Some("7")),
        "http://h/player_api.php?username=u&password=p&action=get_live_streams&category_id=7"
    );
    assert_eq!(client.live_streams_url(None), client.api_url("get_live_streams"));
    assert_eq!(client.live_categories_url(), client.api_url("get_live_categories"));
    assert_eq!(client.vod_streams_url(), client.api_url("get_vod_streams"));
}

fn stream(id: Option<&str>, icon: Option<&str>) -> XtreamStream {
    XtreamStream {
        stream_id: id.map(|s| s.to_string()),
        name: Some("News".to_string()),
        stream_icon: icon.map(|s| s.to_string()),
        epg_channel_id: Some(String::new()),
        category_name: Some("Cat".to_string()),
    }
}

#[test]
fn live_channels_skip_missing_ids_and_keep_positions() {
    let client = XtreamClient::new("http://h".to_string(), "u".to_string(), "p".to_string());
    let streams = vec![stream(Some("\"12\""), Some("")), stream(None, None), stream(Some("34"), Some("i.png"))];
    let chans = client.live_channels(9, &streams);
    assert_eq!(chans.len(), 2);
    assert_eq!(chans[0].stream_url, "http://h/u/p/12.ts");
    assert_eq!(chans[0].sort_order, 0);
    assert_eq!(chans[0].logo_url, None);
    assert_eq!(chans[0].tvg_id, None);
    assert_eq!(chans[0].group_title.as_deref(), Some("Cat"));
    assert_eq!(chans[1].stream_url, "http://h/u/p/34.ts");
    assert_eq!(chans[1].sort_order, 2);
    assert_eq!(chans[1].logo_url.as_deref(), Some("i.png"));
    assert_eq!(chans[1].provider_id, 9);
}

#[test]
fn vod_items_use_movie_urls() {
    let client = XtreamClient::new("http://h".to_string(), "u".to_string(), "p".to_string());
    let items = vec![XtreamVod {
        stream_id: Some("5".to_string()),
        name: None,
        stream_icon: Some("c.jpg".to_string()),
        category_name: Some("Drama".to_string()),
        rating: Some("7".to_string()),
        year: None,
    }];
    let v = client.vod_items(3, &items);
    assert_eq!(v.len(), 1);
    assert_eq!(v[0].stream_url, "http://h/movie/u/p/5.mp4");
    assert_eq!(v[0].name, "");
    assert_eq!(v[0].genre.as_deref(), Some("Drama"));
    assert_eq!(v[0].cover_url.as_deref(), Some("c.jpg"));
}

#[test]
fn authentication_answer() {
    assert!(is_authenticated(1));
    assert!(!is_authenticated(0));
}
