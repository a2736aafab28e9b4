use yta_rs::dash::{parse_manifest, parse_manifest_events, DashError, PlainEvent, Representation};
use yta_rs::numstr::{parse_i64, parse_u64};

fn attrs(pairs: &[(&str, &str)]) -> Vec<(String, String)> {
    pairs.iter().map(|(k, v)| (String::from(*k), String::from(*v))).collect()
}

#[test]
fn parse_manifest_full_document() {
    let text = "<MPD><Period><SegmentList startNumber=\"1\"><S d=\"5000\"/><S d=\"5000\"/></SegmentList><AdaptationSet><Representation id=\"140\" codecs=\"mp4a.40.2\" bandwidth=\"128000\"><BaseURL>http://example.test/a/</BaseURL></Representation><Representation id=\"299\" codecs=\"avc1.64002a\" bandwidth=\"5000000\" width=\"1920\" height=\"1080\" frameRate=\"30\"><BaseURL>http://example.test/v/</BaseURL></Representation></AdaptationSet></Period></MPD>";
    let m = parse_manifest(text).expect("manifest should parse");
    assert_eq!(m.segment_duration, 5000);
    assert_eq!(m.latest_segment_number, 2);
    assert_eq!(m.representations.len(), 2);

    let a = &m.representations[0];
    assert_eq!(a.id, 140);
    assert_eq!(a.codecs, "mp4a.40.2");
    assert_eq!(a.bandwidth, 128000);
    assert_eq!(a.base_url, "http://example.test/a/");
    assert!(a.width.is_none() && a.height.is_none() && a.frame_rate.is_none());

    let v = &m.representations[1];
    assert_eq!(v.id, 299);
    assert_eq!(v.width, Some(1920));
    assert_eq!(v.height, Some(1080));
    assert_eq!(v.frame_rate, Some(30));
    assert_eq!(v.base_url, "http://example.test/v/");
}

#[test]
fn parse_manifest_unescapes_and_trims() {
    let text = "<MPD>\n  <Representation id=\"7\" codecs=\"c\" bandwidth=\"1\">\n    <BaseURL>\n      http://example.test/?a=1&amp;b=2\n    </BaseURL>\n  </Representation>\n</MPD>";
    let m = parse_manifest(text).expect("manifest should parse");
    assert_eq!(m.representations.len(), 1);
    assert_eq!(m.representations[0].base_url, "http://example.test/?a=1&b=2");
}

#[test]
fn parse_manifest_rejects_malformed_text() {
    assert!(matches!(parse_manifest("<MPD><unclosed"), Err(DashError::ReadError)));
}

#[test]
fn segment_entry_without_duration_is_rejected() {
    let events = vec![PlainEvent::EmptyTag { name: String::from("S"), attrs: attrs(&[]) }];
    assert!(matches!(parse_manifest_events(&events), Err(DashError::AttributeNotFound)));
}

#[test]
fn representation_without_end_tag_is_rejected() {
    let events = vec![PlainEvent::StartTag {
        name: String::from("Representation"),
        attrs: attrs(&[("id", "1"), ("codecs", "c"), ("bandwidth", "2")]),
    }];
    assert!(matches!(parse_manifest_events(&events), Err(DashError::UnexpectedEnd)));
}

#[test]
fn representation_missing_bandwidth_is_rejected() {
    let events = vec![PlainEvent::StartTag {
        name: String::from("Representation"),
        attrs: attrs(&[("id", "1"), ("codecs", "c")]),
    }];
    assert!(matches!(parse_manifest_events(&events), Err(DashError::AttributeNotFound)));
}

#[test]
fn start_number_underflow_is_rejected() {
    let events = vec![PlainEvent::StartTag {
        name: String::from("SegmentList"),
        attrs: attrs(&[("startNumber", "-9223372036854775808")]),
    }];
    assert!(matches!(parse_manifest_events(&events), Err(DashError::NumberOutOfRange)));
}

#[test]
fn base_url_text_outside_base_url_tag_is_ignored() {
    let events = vec![
        PlainEvent::StartTag {
            name: String::from("Representation"),
            attrs: attrs(&[("id", "1"), ("codecs", "c"), ("bandwidth", "2")]),
        },
        PlainEvent::Text { text: String::from("stray") },
        PlainEvent::StartTag { name: String::from("BaseURL"), attrs: attrs(&[]) },
        PlainEvent::Text { text: String::from("http://example.test/") },
        PlainEvent::EndTag { name: String::from("Representation") },
    ];
    let m = parse_manifest_events(&events).expect("events should fold");
    assert_eq!(m.representations.len(), 1);
    assert_eq!(m.representations[0].base_url, "http://example.test/");
}

#[test]
fn get_url_appends_sequence_number() {
    let rep = Representation {
        id: 140,
        codecs: String::from("mp4a.40.2"),
        bandwidth: 128000,
        base_url: String::from("http://example.test/a/"),
        width: None,
        height: None,
        frame_rate: None,
    };
    assert_eq!(rep.get_url(7), "http://example.test/a/sq/7");
    assert_eq!(rep.get_url(-3), "http://example.test/a/sq/-3");
}

#[test]
fn decimal_parsing_accepts_and_rejects() {
    assert_eq!(parse_u64("0"), Some(0));
    assert_eq!(parse_u64("5000"), Some(5000));
    assert_eq!(parse_u64("18446744073709551615"), Some(u64::MAX));
    assert_eq!(parse_u64("18446744073709551616"), None);
    assert_eq!(parse_u64(""), None);
    assert_eq!(parse_u64("12a"), None);
    assert_eq!(parse_u64("-3"), None);

    assert_eq!(parse_i64("123"), Some(123));
    assert_eq!(parse_i64("+123"), Some(123));
    assert_eq!(parse_i64("-123"), Some(-123));
    assert_eq!(parse_i64("9223372036854775807"), Some(i64::MAX));
    assert_eq!(parse_i64("9223372036854775808"), None);
    assert_eq!(parse_i64("-9223372036854775808"), Some(i64::MIN));
    assert_eq!(parse_i64("-9223372036854775809"), None);
    assert_eq!(parse_i64("-"), None);
    assert_eq!(parse_i64("1.5"), None);
}
