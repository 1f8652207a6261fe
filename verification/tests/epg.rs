use iptv_core::epg::{
    checked_xmltv_time, parse_tz_offset, parse_xmltv_time, EpgParser, XmlAttribute, XmlEvent,
};
use iptv_core::models::EPGEntry;
use quick_xml::events::Event;
use quick_xml::reader::Reader;
use std::io::BufRead;

/// Reads a guide with quick-xml and drives the parser, as the application does.
fn parse_xmltv_streaming<R: BufRead, F: FnMut(Vec<EPGEntry>)>(
    reader: R,
    batch_size: usize,
    mut on_batch: F,
) -> Result<u64, quick_xml::Error> {
    let mut xml_reader = Reader::from_reader(reader);
    xml_reader.config_mut().trim_text(true);
    let mut buf = Vec::new();
    let mut parser = EpgParser::new(batch_size);
    loop {
        let ev = match xml_reader.read_event_into(&mut buf)? {
            Event::Start(e) => XmlEvent::Start {
                name: e.name().as_ref().to_vec(),
                attributes: e
                    .attributes()
                    .flatten()
                    .map(|a| XmlAttribute {
                        key: a.key.as_ref().to_vec(),
                        value: String::from_utf8_lossy(&a.value).to_string(),
                    })
                    .collect(),
            },
            Event::Text(e) => XmlEvent::Text { content: e.into_inner().to_vec() },
            Event::End(e) => XmlEvent::End { name: e.name().as_ref().to_vec() },
            Event::Eof => break,
            _ => XmlEvent::Other,
        };
        match parser.try_handle(&ev) {
            Some(Some(batch)) => on_batch(batch),
            Some(None) => {}
            None => panic!("byte index is not a char boundary"),
        }
        buf.clear();
    }
    let total = parser.entry_count();
    if let Some(batch) = parser.finish() {
        on_batch(batch);
    }
    Ok(total)
}

const SAMPLE_EPG: &str = r#"<?xml version="1.0" encoding="UTF-8"?>
<tv>
    <programme start="20240315140000 +0000" stop="20240315150000 +0000" channel="bbc1.uk">
        <title lang="en">BBC News at One</title>
        <desc lang="en">The latest news from the BBC.</desc>
    </programme>
    <programme start="20240315150000 +0000" stop="20240315160000 +0000" channel="bbc1.uk">
        <title lang="en">Afternoon Live</title>
    </programme>
    <programme start="20240315140000 +0000" stop="20240315150000 +0000" channel="cnn.us">
        <title lang="en">CNN Newsroom</title>
    </programme>
</tv>
"#;

#[test]
fn parse_basic_xmltv() {
    let mut entries = Vec::new();
    let count = parse_xmltv_streaming(SAMPLE_EPG.as_bytes(), 500, |batch| entries.extend(batch)).unwrap();

    assert_eq!(count, 3);
    assert_eq!(entries[0].channel_tvg_id, "bbc1.uk");
    assert_eq!(entries[0].title, "BBC News at One");
    assert!(entries[0].description.is_some());
    assert_eq!(entries[1].title, "Afternoon Live");
    assert!(entries[1].description.is_none());
}

#[test]
fn timestamps_parsed_correctly() {
    let ts = parse_xmltv_time("20240315140000 +0000");
    assert!(ts.is_some());
    let ts2 = parse_xmltv_time("20240315150000 +0000");
    assert!(ts2.unwrap() > ts.unwrap());
}

#[test]
fn batching_works() {
    let header = r#"<?xml version="1.0"?><tv>"#;
    let programmes: String = (0..200)
        .map(|i| {
            format!(
                r#"<programme start="20240315{:02}0000 +0000" stop="20240315{:02}3000 +0000" channel="ch{}.tv"><title>Show {}</title></programme>"#,
                (i / 6) % 24,
                (i / 6) % 24,
                i % 5,
                i
            )
        })
        .collect();
    let footer = "</tv>";
    let input = format!("{}{}{}", header, programmes, footer);

    let mut batch_count = 0;
    let count = parse_xmltv_streaming(input.as_bytes(), 50, |batch| {
        assert!(batch.len() <= 50);
        batch_count += 1;
    })
    .unwrap();
    assert_eq!(count, 200);
    assert_eq!(batch_count, 4);
}

#[test]
fn xmltv_time_exact_values() {
    assert_eq!(parse_xmltv_time("20240315140000 +0000"), Some(1710511200));
    assert_eq!(parse_xmltv_time("  20240315140000  "), Some(1710511200));
    assert_eq!(parse_xmltv_time("20240315140000 +0100"), Some(1710511200 - 3600));
    assert_eq!(parse_xmltv_time("20240315140000 -0230"), Some(1710511200 + 9000));
    assert_eq!(parse_xmltv_time("2024031514"), None);
    assert_eq!(parse_xmltv_time("20241315140000"), None);
}

#[test]
fn tz_offset_values() {
    assert_eq!(parse_tz_offset("+0100"), 3600);
    assert_eq!(parse_tz_offset("-0130"), -5400);
    assert_eq!(parse_tz_offset("+01"), 0);
    assert_eq!(parse_tz_offset("+xx30"), 1800);
}

#[test]
fn time_that_would_panic_is_refused() {
    // byte 14 falls inside the two-byte `é`
    assert_eq!(checked_xmltv_time("2024031514000é"), None);
    assert_eq!(checked_xmltv_time("20240315140000 +0000"), Some(Some(1710511200)));
}

#[test]
fn programme_without_title_is_dropped_and_text_is_unescaped() {
    let input = r#"<tv><programme start="20240315140000" stop="20240315150000" channel="a"></programme><programme start="20240315140000" stop="20240315150000" channel="b"><title>Tom &amp; Jerry</title></programme></tv>"#;
    let mut entries = Vec::new();
    let count = parse_xmltv_streaming(input.as_bytes(), 10, |b| entries.extend(b)).unwrap();
    assert_eq!(count, 1);
    assert_eq!(entries[0].channel_tvg_id, "b");
    assert_eq!(entries[0].title, "Tom & Jerry");
    assert_eq!(entries[0].start_ts, 1710511200);
    assert_eq!(entries[0].end_ts, 1710514800);
}

#[test]
fn batches_do_not_change_the_programmes() {
    let mut one = Vec::new();
    let mut many = Vec::new();
    parse_xmltv_streaming(SAMPLE_EPG.as_bytes(), 1, |b| one.extend(b)).unwrap();
    parse_xmltv_streaming(SAMPLE_EPG.as_bytes(), 500, |b| many.extend(b)).unwrap();
    assert_eq!(one.len(), 3);
    for (a, b) in one.iter().zip(many.iter()) {
        assert_eq!(a.title, b.title);
        assert_eq!(a.start_ts, b.start_ts);
    }
}

#[test]
fn malformed_xml_is_an_error() {
    let r = parse_xmltv_streaming("<tv><programme></tv>".as_bytes(), 10, |_| {});
    assert!(r.is_err());
}

#[test]
fn try_handle_refuses_time_split_inside_a_character() {
    let mut parser = EpgParser::new(10);
    let ev = XmlEvent::Start {
        name: b"programme".to_vec(),
        attributes: vec![XmlAttribute {
            key: b"start".to_vec(),
            value: "2024031514000\u{e9}".to_string(),
        }],
    };
    assert!(!EpgParser::accepts(&ev));
    assert!(parser.try_handle(&ev).is_none());
    assert_eq!(parser.entry_count(), 0);
    let ok = XmlEvent::Start {
        name: b"programme".to_vec(),
        attributes: vec![XmlAttribute {
            key: b"start".to_vec(),
            value: "20240315140000 +0000".to_string(),
        }],
    };
    assert!(matches!(parser.try_handle(&ok), Some(None)));
}

#[test]
fn time_zone_suffix_shifts_the_time_by_its_offset() {
    let base = parse_xmltv_time("20240315140000").unwrap();
    assert_eq!(base, 1710511200);
    assert_eq!(parse_xmltv_time("20240315140000 +0100"), Some(1710507600));
    assert_eq!(parse_xmltv_time("20240315140000 -0530"), Some(1710531000));
    assert_eq!(parse_xmltv_time("20240315140000 +0000"), Some(base));
    assert_eq!(parse_xmltv_time("20241315140000 +0100"), None);
}
