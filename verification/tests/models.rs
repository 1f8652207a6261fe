use iptv_core::models::{ChannelSummary, FilterOptions};

#[test]
fn channel_summary_has_required_fields() {
    let ch = ChannelSummary {
        id: 1,
        name: "BBC One".to_string(),
        group_title: Some("UK".to_string()),
        logo_url: None,
        hidden: false,
        is_favorite: false,
    };
    assert_eq!(ch.name, "BBC One");
    assert!(!ch.hidden);
}

#[test]
fn filter_options_default_is_no_filter() {
    let opts = FilterOptions::default();
    assert!(opts.preset_id.is_none());
    assert!(opts.search_query.is_none());
    assert!(!opts.show_hidden);
}
