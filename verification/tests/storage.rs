use iptv_core::api::{provider_from_input, FilterOptions as ApiFilterOptions, ProviderInput};
use iptv_core::models::{Channel, EPGEntry, FilterOptions, Provider, ProviderType};
use iptv_core::storage::{channels_page_query, fts_query, Database};

fn test_db() -> Database {
    Database::open_in_memory().expect("in-memory db")
}

fn sample_provider() -> Provider {
    Provider {
        id: None,
        name: "Test Provider".to_string(),
        provider_type: ProviderType::M3U,
        url: "http://example.com/playlist.m3u".to_string(),
        username: None,
        password: None,
    }
}

#[test]
fn insert_and_retrieve_provider() {
    let mut db = test_db();
    let id = db.insert_provider(&sample_provider()).unwrap();
    assert!(id > 0);
}

#[test]
fn batch_insert_channels_and_paginate() {
    let mut db = test_db();
    let pid = db.insert_provider(&sample_provider()).unwrap();

    let channels: Vec<Channel> = (0..150)
        .map(|i| Channel {
            id: 0,
            provider_id: pid,
            name: format!("Channel {}", i),
            group_title: Some("Sports".to_string()),
            logo_url: None,
            stream_url: format!("http://example.com/stream/{}", i),
            tvg_id: Some(format!("ch{}", i)),
            hidden: false,
            sort_order: i,
        })
        .collect();

    let count = db.insert_channels_batch(&channels).unwrap();
    assert_eq!(count, 150);

    let page = db.get_channels_page(0, 50, &FilterOptions::default()).unwrap();
    assert_eq!(page.channels.len(), 50);
    assert_eq!(page.total, 150);
    assert_eq!(page.page, 0);
}

#[test]
fn hidden_channels_excluded_by_default() {
    let mut db = test_db();
    let pid = db.insert_provider(&sample_provider()).unwrap();

    let channels = vec![
        Channel { id: 0, provider_id: pid, name: "Visible".to_string(), group_title: None, logo_url: None, stream_url: "http://x.com/1".to_string(), tvg_id: None, hidden: false, sort_order: 0 },
        Channel { id: 0, provider_id: pid, name: "Hidden".to_string(), group_title: None, logo_url: None, stream_url: "http://x.com/2".to_string(), tvg_id: None, hidden: true, sort_order: 1 },
    ];
    db.insert_channels_batch(&channels).unwrap();

    let page = db.get_channels_page(0, 50, &FilterOptions::default()).unwrap();
    assert_eq!(page.total, 1);
    assert_eq!(page.channels[0].name, "Visible");
}

#[test]
fn toggle_favorite_adds_and_removes() {
    let mut db = test_db();
    let pid = db.insert_provider(&sample_provider()).unwrap();
    let channels = vec![Channel { id: 0, provider_id: pid, name: "CNN".to_string(), group_title: None, logo_url: None, stream_url: "http://x.com/1".to_string(), tvg_id: None, hidden: false, sort_order: 0 }];
    db.insert_channels_batch(&channels).unwrap();

    let page = db.get_channels_page(0, 50, &FilterOptions::default()).unwrap();
    let ch_id = page.channels[0].id;

    let is_fav = db.toggle_favorite(ch_id).unwrap();
    assert!(is_fav);
    let is_fav = db.toggle_favorite(ch_id).unwrap();
    assert!(!is_fav);
}

#[test]
fn toggle_hidden_flips_value() {
    let mut db = test_db();
    let pid = db.insert_provider(&sample_provider()).unwrap();
    let channels = vec![Channel { id: 0, provider_id: pid, name: "BBC".to_string(), group_title: None, logo_url: None, stream_url: "http://x.com/1".to_string(), tvg_id: None, hidden: false, sort_order: 0 }];
    db.insert_channels_batch(&channels).unwrap();
    let page = db.get_channels_page(0, 50, &FilterOptions { show_hidden: true, ..Default::default() }).unwrap();
    let ch_id = page.channels[0].id;

    let now_hidden = db.toggle_hidden(ch_id).unwrap();
    assert!(now_hidden);
    let now_hidden = db.toggle_hidden(ch_id).unwrap();
    assert!(!now_hidden);
}

#[test]
fn fts5_search_returns_matches() {
    let mut db = test_db();
    let pid = db.insert_provider(&sample_provider()).unwrap();
    let channels: Vec<Channel> = vec![("BBC News", "UK"), ("BBC One", "UK"), ("CNN International", "US"), ("Fox Sports", "US")]
        .into_iter()
        .enumerate()
        .map(|(i, (name, group))| Channel {
            id: 0,
            provider_id: pid,
            name: name.to_string(),
            group_title: Some(group.to_string()),
            logo_url: None,
            stream_url: format!("http://x.com/{}", i),
            tvg_id: None,
            hidden: false,
            sort_order: i as i64,
        })
        .collect();
    db.insert_channels_batch(&channels).unwrap();
    db.rebuild_channels_fts().unwrap();

    let results = db.search_channels("BBC", 0, 50).unwrap();
    assert_eq!(results.len(), 2);
    assert!(results.iter().all(|r| r.name.contains("BBC")));
}

#[test]
fn search_filter_matches_names_and_groups() {
    let mut db = test_db();
    let pid = db.insert_provider(&sample_provider()).unwrap();
    let channels = vec![
        Channel { id: 0, provider_id: pid, name: "Alpha".to_string(), group_title: Some("News".to_string()), logo_url: None, stream_url: "u1".to_string(), tvg_id: None, hidden: false, sort_order: 0 },
        Channel { id: 0, provider_id: pid, name: "Beta".to_string(), group_title: Some("Sport".to_string()), logo_url: None, stream_url: "u2".to_string(), tvg_id: None, hidden: false, sort_order: 1 },
    ];
    db.insert_channels_batch(&channels).unwrap();
    let opts = FilterOptions { preset_id: None, search_query: Some("por".to_string()), show_hidden: false };
    let page = db.get_channels_page(0, 10, &opts).unwrap();
    assert_eq!(page.total, 1);
    assert_eq!(page.channels[0].name, "Beta");
    assert_eq!(db.get_stream_url(page.channels[0].id).unwrap(), "u2");
    let groups = db.get_groups(pid).unwrap();
    assert_eq!(groups, vec!["News".to_string(), "Sport".to_string()]);
}

#[test]
fn epg_round_trip_by_window() {
    let mut db = test_db();
    let e = |t: &str, s: i64| EPGEntry { id: 0, channel_tvg_id: "c".to_string(), title: t.to_string(), start_ts: s, end_ts: s + 100, description: None };
    assert_eq!(db.insert_epg_batch(&[e("A", 0), e("B", 1000), e("C", 5000)]).unwrap(), 3);
    let got = db.get_epg("c", 50, 1100).unwrap();
    assert_eq!(got.len(), 2);
    assert_eq!(got[0].title, "A");
    assert_eq!(got[1].title, "B");
    assert!(db.get_epg("other", 0, 10_000).unwrap().is_empty());
}

#[test]
fn page_query_text() {
    let opts = FilterOptions { preset_id: None, search_query: Some("x".to_string()), show_hidden: true };
    let q = channels_page_query(&opts, 50, 100);
    assert!(q.count_sql.ends_with("WHERE (c.name LIKE ?1 OR c.group_title LIKE ?1)"));
    assert!(q.data_sql.ends_with("LIMIT ?2 OFFSET ?3"));
    assert_eq!(q.count_params.len(), 1);
    assert_eq!(q.data_params.len(), 3);
    let q = channels_page_query(&FilterOptions::default(), 50, 0);
    assert!(q.count_sql.ends_with("WHERE c.hidden = 0"));
    assert!(q.data_sql.ends_with("LIMIT ?1 OFFSET ?2"));
    assert!(q.count_params.is_empty());
}

#[test]
fn fts_query_drops_quotes() {
    assert_eq!(fts_query("a\"b\""), "ab*");
    assert_eq!(fts_query(""), "*");
}

#[test]
fn provider_input_type_names() {
    let mk = |t: &str| ProviderInput { name: "n".to_string(), provider_type: t.to_string(), url: "u".to_string(), username: None, password: Some("p".to_string()) };
    assert_eq!(provider_from_input(mk("xtream")).provider_type, ProviderType::XtreamCodes);
    assert_eq!(provider_from_input(mk("m3u")).provider_type, ProviderType::M3U);
    assert_eq!(provider_from_input(mk("Xtream")).provider_type, ProviderType::M3U);
    let p = provider_from_input(mk("xtream"));
    assert!(p.id.is_none());
    assert_eq!(p.password.as_deref(), Some("p"));
    let f: FilterOptions = ApiFilterOptions { preset_id: Some(3), search_query: None, show_hidden: true }.into();
    assert_eq!(f.preset_id, Some(3));
    assert!(f.show_hidden);
}

#[test]
fn missing_channel_is_a_database_error() {
    let mut db = test_db();
    assert!(matches!(db.get_stream_url(42), Err(iptv_core::storage::StorageError::Sqlite(_))));
    assert!(db.toggle_hidden(42).is_err());
}

#[test]
fn provider_ids_are_the_database_row_ids() {
    let mut db = test_db();
    let first = db.insert_provider(&sample_provider()).unwrap();
    let second = db.insert_provider(&sample_provider()).unwrap();
    assert_eq!(first, 1);
    assert_eq!(second, 2);
}
