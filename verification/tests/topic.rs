use sdmq::{SdmqError, Topic};

#[test]
fn main_returns_remainder_after_first_dot() {
    let topic = Topic::parse(b"a.b.c").unwrap();
    assert_eq!(topic.main(), "b.c");
}

#[test]
fn main_without_dot_returns_whole_name() {
    let topic = Topic::parse(b"single").unwrap();
    assert_eq!(topic.main(), "single");
}

#[test]
fn get_indexes_segments() {
    let topic = Topic::parse(b"a.b.c").unwrap();
    assert_eq!(topic.get(0), "a");
    assert_eq!(topic.get(1), "b");
    assert_eq!(topic.get(2), "c");
    assert_eq!(topic.get(5), "");
}

#[test]
fn get_handles_empty_segments() {
    let topic = Topic::parse(b"a..b.").unwrap();
    assert_eq!(topic.get(0), "a");
    assert_eq!(topic.get(1), "");
    assert_eq!(topic.get(2), "b");
    assert_eq!(topic.get(3), "");
    assert_eq!(topic.get(4), "");

    let empty = Topic::parse(b"").unwrap();
    assert_eq!(empty.get(0), "");
    assert_eq!(empty.main(), "");
}

#[test]
fn multibyte_names_split_cleanly() {
    let topic = Topic::parse("höme.wörld.ü".as_bytes()).unwrap();
    assert_eq!(topic.main(), "wörld.ü");
    assert_eq!(topic.get(0), "höme");
    assert_eq!(topic.get(1), "wörld");
    assert_eq!(topic.get(2), "ü");
}

#[test]
fn invalid_utf8_is_rejected() {
    assert!(matches!(
        Topic::parse(&[0x61, 0xC0, 0x61]),
        Err(SdmqError::InvalidTopicEncoding)
    ));
    assert!(matches!(
        Topic::parse(&[0xED, 0xA0, 0x80]),
        Err(SdmqError::InvalidTopicEncoding)
    ));
}
