use iptv_core::batch::split_batches;
use iptv_core::m3u::{check_header, extract_attr, line_makes_channel, parse_extinf, M3UError, M3uParser};
use iptv_core::models::Channel;
use std::io::{BufRead, BufReader, Read};

/// Reads a playlist line by line and drives the parser, as the application does.
fn parse_m3u_streaming<R: Read, F: FnMut(Vec<Channel>)>(
    reader: R,
    provider_id: i64,
    batch_size: usize,
    mut on_batch: F,
) -> Result<u64, M3UError> {
    let mut lines = BufReader::new(reader).lines();
    let first = match lines.next() {
        None => None,
        Some(Err(e)) => return Err(M3UError::Io(e)),
        Some(Ok(l)) => Some(l),
    };
    let mut parser = M3uParser::start(first.as_deref(), provider_id, batch_size)?;
    for line in lines {
        let line = line.map_err(M3UError::Io)?;
        assert!(parser.channel_count() < i64::MAX as u64 || !line_makes_channel(&line));
        if let Some(batch) = parser.feed_line(&line) {
            on_batch(batch);
        }
    }
    let total = parser.channel_count();
    if let Some(batch) = parser.finish() {
        on_batch(batch);
    }
    Ok(total)
}

const SAMPLE_M3U: &str = r#"#EXTM3U
#EXTINF:-1 tvg-id="bbc1.uk" tvg-logo="http://logos.com/bbc1.png" group-title="UK",BBC One
http://stream.example.com/bbc1
#EXTINF:-1 tvg-id="bbc2.uk" group-title="UK",BBC Two
http://stream.example.com/bbc2
#EXTINF:-1 group-title="US",CNN
http://stream.example.com/cnn
"#;

#[test]
fn parse_basic_m3u() {
    let mut channels = Vec::new();
    let count = parse_m3u_streaming(SAMPLE_M3U.as_bytes(), 1, 500, |batch| channels.extend(batch)).unwrap();

    assert_eq!(count, 3);
    assert_eq!(channels.len(), 3);
    assert_eq!(channels[0].name, "BBC One");
    assert_eq!(channels[0].tvg_id.as_deref(), Some("bbc1.uk"));
    assert_eq!(channels[0].group_title.as_deref(), Some("UK"));
    assert!(channels[0].logo_url.is_some());
    assert_eq!(channels[2].name, "CNN");
    assert_eq!(channels[2].group_title.as_deref(), Some("US"));
}

#[test]
fn batching_works_for_large_input() {
    let header = "#EXTM3U\n";
    let entries: String = (0..1000)
        .map(|i| format!("#EXTINF:-1 group-title=\"Group{}\",Channel {}\nhttp://x.com/{}\n", i % 10, i, i))
        .collect();
    let input = format!("{}{}", header, entries);

    let mut batch_count = 0;
    let mut total_channels = 0u64;

    let count = parse_m3u_streaming(input.as_bytes(), 1, 100, |batch| {
        assert!(batch.len() <= 100, "batch too large: {}", batch.len());
        total_channels += batch.len() as u64;
        batch_count += 1;
    })
    .unwrap();

    assert_eq!(count, 1000);
    assert_eq!(total_channels, 1000);
    assert_eq!(batch_count, 10);
}

#[test]
fn invalid_m3u_returns_error() {
    let result = parse_m3u_streaming(b"not a m3u file".as_ref(), 1, 100, |_| {});
    assert!(matches!(result, Err(M3UError::InvalidFormat)));
}

#[test]
fn sort_order_is_sequential() {
    let mut channels = Vec::new();
    parse_m3u_streaming(SAMPLE_M3U.as_bytes(), 1, 500, |b| channels.extend(b)).unwrap();
    for (i, ch) in channels.iter().enumerate() {
        assert_eq!(ch.sort_order, i as i64);
    }
}

#[test]
fn empty_input_is_invalid() {
    let result = parse_m3u_streaming(b"".as_ref(), 1, 100, |_| {});
    assert!(matches!(result, Err(M3UError::InvalidFormat)));
}

#[test]
fn header_may_follow_white_space() {
    assert!(check_header("  \t#EXTM3U x-tvg-url=\"a\""));
    assert!(!check_header("#EXTM3"));
    assert!(!check_header("x#EXTM3U"));
}

#[test]
fn extract_attr_reads_quoted_value() {
    assert_eq!(extract_attr("tvg-id=\" bbc1 \" x=\"y\"", "tvg-id").as_deref(), Some("bbc1"));
    assert_eq!(extract_attr("tvg-id=\"\"", "tvg-id"), None);
    assert_eq!(extract_attr("tvg-id=\"open", "tvg-id"), None);
    assert_eq!(extract_attr("group-title=\"A\"", "tvg-id"), None);
    assert_eq!(extract_attr("a=\"1\" a=\"2\"", "a").as_deref(), Some("1"));
}

#[test]
fn extinf_name_falls_back_to_tvg_name_then_unknown() {
    let m = parse_extinf("#EXTINF:-1 tvg-name=\"Named\" tvg-id=\"x\",");
    assert_eq!(m.name, "Named");
    assert_eq!(m.tvg_id.as_deref(), Some("x"));
    let m = parse_extinf("#EXTINF:-1 group-title=\"G\"");
    assert_eq!(m.name, "Unknown Channel");
    assert_eq!(m.group_title.as_deref(), Some("G"));
    let m = parse_extinf("no prefix, Shown ");
    assert_eq!(m.name, "Shown");
    assert_eq!(m.group_title, None);
}

#[test]
fn extinf_attributes_stop_at_first_comma() {
    let m = parse_extinf("#EXTINF:0 tvg-logo=\"http://a/b,c.png\",Name");
    assert_eq!(m.name, "Name");
    assert_eq!(m.logo_url, None);
}

#[test]
fn stream_without_extinf_has_empty_name_and_comments_are_skipped() {
    let input = "#EXTM3U\n# a comment\n\n  http://a/1  \n#EXTINF:-1,Second\nhttp://a/2\n";
    let mut channels = Vec::new();
    let count = parse_m3u_streaming(input.as_bytes(), 7, 10, |b| channels.extend(b)).unwrap();
    assert_eq!(count, 2);
    assert_eq!(channels[0].name, "");
    assert_eq!(channels[0].stream_url, "http://a/1");
    assert_eq!(channels[0].provider_id, 7);
    assert_eq!(channels[1].name, "Second");
    assert_eq!(channels[1].sort_order, 1);
}

#[test]
fn batch_size_zero_hands_back_single_channels() {
    let mut sizes = Vec::new();
    parse_m3u_streaming(SAMPLE_M3U.as_bytes(), 1, 0, |b| sizes.push(b.len())).unwrap();
    assert_eq!(sizes, vec![1, 1, 1]);
}

#[test]
fn split_batches_cuts_in_order() {
    let b = split_batches((0..7).collect::<Vec<u32>>(), 3);
    assert_eq!(b, vec![vec![0, 1, 2], vec![3, 4, 5], vec![6]]);
    let b = split_batches(Vec::<u32>::new(), 3);
    assert!(b.is_empty());
    let b = split_batches(vec![1u32, 2], 0);
    assert_eq!(b, vec![vec![1], vec![2]]);
}

#[test]
fn batches_do_not_change_the_channels() {
    let mut one = Vec::new();
    let mut many = Vec::new();
    parse_m3u_streaming(SAMPLE_M3U.as_bytes(), 1, 1, |b| one.extend(b)).unwrap();
    parse_m3u_streaming(SAMPLE_M3U.as_bytes(), 1, 500, |b| many.extend(b)).unwrap();
    assert_eq!(one.len(), many.len());
    for (a, b) in one.iter().zip(many.iter()) {
        assert_eq!(a.name, b.name);
        assert_eq!(a.stream_url, b.stream_url);
        assert_eq!(a.sort_order, b.sort_order);
    }
}

struct FailingReader;

impl Read for FailingReader {
    fn read(&mut self, _buf: &mut [u8]) -> std::io::Result<usize> {
        Err(std::io::Error::new(std::io::ErrorKind::Other, "boom"))
    }
}

#[test]
fn read_failure_is_io_error() {
    let result = parse_m3u_streaming(FailingReader, 1, 10, |_| {});
    assert!(matches!(result, Err(M3UError::Io(_))));
}

#[test]
fn numeric_duration_is_skipped() {
    let m = parse_extinf("#EXTINF:\u{0663}12 tvg-id=\"x\",N");
    assert_eq!(m.tvg_id.as_deref(), Some("x"));
    assert!(line_makes_channel(" http://a "));
    assert!(!line_makes_channel("#EXTINF:-1,N"));
    assert!(!line_makes_channel("   "));
}
