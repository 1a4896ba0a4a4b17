use std::cell::RefCell;

use cmustify::{format_notification_body, notification, parse, run, Metadata, Notifier, Tag};

struct NotifyMock {
    calls: RefCell<Vec<(String, String)>>,
}

impl Notifier for NotifyMock {
    fn send(&self, summary: String, content: String) {
        self.calls.borrow_mut().push((summary, content));
    }
}

fn record(pairs: &[(&str, &str)]) -> Metadata {
    let mut m = Metadata::new();
    for (k, v) in pairs {
        m.insert(k.to_string(), v.to_string());
    }
    m
}

#[test]
fn parse_cmus_data_correctly() {
    let cmus_data = "artist Todd album Reno title super song".to_string();
    let result = parse(cmus_data);

    assert_eq!(result.get("artist").unwrap(), "Todd");
    assert_eq!(result.get("album").unwrap(), "Reno");
    assert_eq!(result.get("title").unwrap(), "super song");
}

#[test]
fn format_notification_body_correctly() {
    let mut metadata = Metadata::new();
    metadata.insert("title".to_string(), "Super title".to_string());
    metadata.insert("artist".to_string(), "Todd".to_string());

    let notification_body = format_notification_body(&metadata);

    assert!(notification_body.contains("Super title"));
    assert!(notification_body.contains("Todd"));
}

#[test]
fn run_send_notification() {
    let notifier_mock = NotifyMock { calls: RefCell::new(vec![]) };
    let notification_body = "Hola".to_string();
    run(&notifier_mock, notification_body);

    assert!(!notifier_mock.calls.borrow().is_empty())
}

#[test]
fn parse_keeps_only_the_three_fields() {
    let r = parse("artist Todd album Reno title super song".to_string());
    for name in ["status", "url", "file", "discnumber", "tracknumber", "date", "duration"] {
        assert!(r.get(name).is_none());
    }
}

#[test]
fn parse_leaves_out_a_field_without_words() {
    let r = parse("artist title X".to_string());
    assert!(r.get("artist").is_none());
    assert_eq!(r.get("title").unwrap(), "X");
}

#[test]
fn parse_keeps_the_last_value_of_a_field() {
    let r = parse("title A title B".to_string());
    assert_eq!(r.get("title").unwrap(), "B");
    assert!(r.get("artist").is_none());
}

#[test]
fn parse_drops_words_before_the_first_field() {
    let r = parse("junk tokens title Foo".to_string());
    assert_eq!(r.get("title").unwrap(), "Foo");
    assert!(r.get("junk").is_none());
    assert!(r.get("tokens").is_none());
}

#[test]
fn parse_of_an_empty_line_is_empty() {
    let r = parse(String::new());
    assert!(r.get("title").is_none());
    assert_eq!(format_notification_body(&r), "Unknown");
}

#[test]
fn parse_keeps_empty_words_from_repeated_spaces() {
    let r = parse("title a  b artist x".to_string());
    assert_eq!(r.get("title").unwrap(), "a  b");
    assert_eq!(r.get("artist").unwrap(), "x");
}

#[test]
fn parse_takes_a_trailing_space_as_an_empty_word() {
    let r = parse("title ".to_string());
    assert_eq!(r.get("title").unwrap(), "");
}

#[test]
fn parse_reads_every_field_name() {
    let line = "status playing url u file /m/a.ogg artist A album B discnumber 1 \
                tracknumber 2 title T date 1999 duration 245";
    let r = parse(line.to_string());
    let expected = [
        ("status", "playing"),
        ("url", "u"),
        ("file", "/m/a.ogg"),
        ("artist", "A"),
        ("album", "B"),
        ("discnumber", "1"),
        ("tracknumber", "2"),
        ("title", "T"),
        ("date", "1999"),
        ("duration", "245"),
    ];
    for (k, v) in expected {
        assert_eq!(r.get(k).unwrap(), v);
    }
}

#[test]
fn parse_treats_other_words_as_values() {
    let r = parse("title Title !break! TITLE".to_string());
    assert_eq!(r.get("title").unwrap(), "Title !break! TITLE");
    assert!(r.get("!break!").is_none());
}

#[test]
fn parse_keeps_non_ascii_values() {
    let r = parse("artist Björk title Jóga".to_string());
    assert_eq!(r.get("artist").unwrap(), "Björk");
    assert_eq!(r.get("title").unwrap(), "Jóga");
}

#[test]
fn format_of_an_empty_record_is_unknown() {
    assert_eq!(format_notification_body(&Metadata::new()), "Unknown");
}

#[test]
fn format_title_and_artist() {
    let m = record(&[("title", "Super title"), ("artist", "Todd")]);
    assert_eq!(format_notification_body(&m), "Super title by Todd");
}

#[test]
fn format_title_artist_and_album() {
    let m = record(&[("title", "T"), ("artist", "A"), ("album", "B")]);
    assert_eq!(format_notification_body(&m), "T by A, B");
}

#[test]
fn format_leaves_out_album_without_artist() {
    let m = record(&[("title", "T"), ("album", "B")]);
    assert_eq!(format_notification_body(&m), "T");
}

#[test]
fn format_without_title_says_unknown() {
    let m = record(&[("artist", "A"), ("album", "B"), ("date", "1999")]);
    assert_eq!(format_notification_body(&m), "Unknown by A, B");
}

#[test]
fn metadata_insert_replaces_a_value() {
    let mut m = record(&[("title", "A"), ("artist", "X")]);
    m.insert("title".to_string(), "B".to_string());
    assert_eq!(m.get("title").unwrap(), "B");
    assert_eq!(m.get("artist").unwrap(), "X");
    assert!(m.get("album").is_none());
}

#[test]
fn tag_names_round_trip() {
    let tags = [
        Tag::Status,
        Tag::Url,
        Tag::File,
        Tag::Artist,
        Tag::Album,
        Tag::Discnumber,
        Tag::Tracknumber,
        Tag::Title,
        Tag::Date,
        Tag::Duration,
    ];
    for t in tags {
        assert_eq!(Tag::from_word(t.name()), Some(t));
    }
    assert_eq!(Tag::from_word("Title"), None);
    assert_eq!(Tag::from_word(""), None);
}

#[test]
fn notification_has_the_fixed_summary() {
    let (summary, body) = notification("artist A title T album B".to_string());
    assert_eq!(summary, "Cmustify - Current song");
    assert_eq!(body, "T by A, B");
}

#[test]
fn run_sends_exactly_once_with_the_formatted_body() {
    let mock = NotifyMock { calls: RefCell::new(vec![]) };
    let line = "artist Todd album Reno title super song";
    run(&mock, line.to_string());
    let calls = mock.calls.borrow();
    assert_eq!(calls.len(), 1);
    assert_eq!(calls[0].0, "Cmustify - Current song");
    assert_eq!(calls[0].1, format_notification_body(&parse(line.to_string())));
    assert_eq!(calls[0].1, "super song by Todd, Reno");
}

#[test]
fn run_on_a_line_without_fields_sends_unknown() {
    let mock = NotifyMock { calls: RefCell::new(vec![]) };
    run(&mock, "Hola".to_string());
    let calls = mock.calls.borrow();
    assert_eq!(calls.len(), 1);
    assert_eq!(calls[0].1, "Unknown");
}
