use std::cell::RefCell;
use std::rc::Rc;

use segment::segment::{accepted, build_alias_body, build_identify_body, build_track_body, post};
use segment::segment::{ALIAS_URL, IDENTIFY_URL, STATUS_OK, TIMEOUT_SECS, TRACK_URL};
use segment::{JsonObject, Segment, SegmentQuery, ToJsonString, WorkerClosure};

const SEGMENT_WRITE_KEY: &str = "okSiXGEgvMbIOjlmQFDq034TJIfnomu6";

type Sent = Rc<RefCell<Vec<(Option<String>, String, String)>>>;

/// Stands in for the network: keeps the key, the url and the body of each query.
struct Outbox {
    sent: Sent,
}

impl WorkerClosure<SegmentQuery, Option<String>> for Outbox {
    fn call(&self, write_key: &Option<String>, query: SegmentQuery) -> bool {
        self.sent.borrow_mut().push((
            write_key.clone(),
            query.url().to_string(),
            query.body().to_string(),
        ));
        true
    }
}

fn client() -> (Segment<Outbox>, Sent) {
    let sent: Sent = Rc::new(RefCell::new(Vec::new()));
    let outbox = Outbox { sent: sent.clone() };
    (
        Segment::new(Some(SEGMENT_WRITE_KEY.to_string()), outbox),
        sent,
    )
}

fn key() -> Option<String> {
    Some(SEGMENT_WRITE_KEY.to_string())
}

#[test]
fn it_should_send_alias_message() {
    let (mut segment, sent) = client();
    segment.alias("previous_id", "user_id");

    assert_eq!(segment.worker.run(), 1);
    assert_eq!(
        *sent.borrow(),
        vec![(
            key(),
            "https://api.segment.io/v1/alias".to_string(),
            "{\"previousId\":\"previous_id\",\"userId\":\"user_id\"}".to_string(),
        )]
    );
}

#[test]
fn it_should_send_identify_message() {
    let (mut segment, sent) = client();
    let mut context = JsonObject::new();
    context.insert("ip", "134.157.15.3");
    segment.identify(Some("anonymous_id"), None, None::<String>, Some(context));

    assert_eq!(segment.worker.run(), 1);
    assert_eq!(
        *sent.borrow(),
        vec![(
            key(),
            "https://api.segment.io/v1/identify".to_string(),
            "{\"anonymousId\":\"anonymous_id\",\"context\":{\"ip\":\"134.157.15.3\"}}".to_string(),
        )]
    );
}

#[test]
fn it_should_send_track_message() {
    let (mut segment, sent) = client();
    let mut properties = JsonObject::new();
    properties.insert("firstname", "Jimmy");
    properties.insert("lastname", "Page");

    segment.track(
        Some("anonymous_id"),
        None,
        "Test Event",
        Some(properties),
        None::<String>,
    );

    assert_eq!(segment.worker.run(), 1);
    assert_eq!(
        *sent.borrow(),
        vec![(
            key(),
            "https://api.segment.io/v1/track".to_string(),
            "{\"event\":\"Test Event\",\"anonymousId\":\"anonymous_id\",\"properties\":{\"firstname\":\"Jimmy\",\"lastname\":\"Page\"}}"
                .to_string(),
        )]
    );
}

#[test]
fn it_should_send_many_message() {
    let (mut segment, sent) = client();

    let first = segment.track(
        Some("anonymous_id"),
        None,
        "Test Event 1",
        None::<String>,
        None::<String>,
    );
    let second = segment.track(
        Some("anonymous_id"),
        None,
        "Test Event 2",
        None::<String>,
        None::<String>,
    );
    assert!(!first);
    assert!(!second);
    assert_eq!(segment.worker.pending(), 2);

    assert_eq!(segment.worker.run(), 2);
    let sent = sent.borrow();
    assert_eq!(sent.len(), 2);
    assert_eq!(
        sent[0].2,
        "{\"event\":\"Test Event 1\",\"anonymousId\":\"anonymous_id\"}"
    );
    assert_eq!(
        sent[1].2,
        "{\"event\":\"Test Event 2\",\"anonymousId\":\"anonymous_id\"}"
    );
    assert_eq!(sent[0].1, TRACK_URL);
    assert_eq!(sent[1].1, TRACK_URL);
}

#[test]
fn new_client_is_alive_with_an_empty_queue() {
    let (segment, sent) = client();
    assert!(segment.worker.is_alive());
    assert_eq!(segment.worker.pending(), 0);
    assert_eq!(*segment.worker.parameters(), key());
    assert!(sent.borrow().is_empty());
}

#[test]
fn calls_are_queued_until_the_worker_runs() {
    let (mut segment, sent) = client();
    segment.alias("a", "b");
    segment.identify(None, Some("u"), None::<String>, None::<String>);
    assert_eq!(segment.worker.pending(), 2);
    assert!(sent.borrow().is_empty());
    assert_eq!(segment.worker.run(), 2);
    assert_eq!(sent.borrow()[0].1, ALIAS_URL);
    assert_eq!(sent.borrow()[1].1, IDENTIFY_URL);
    assert_eq!(sent.borrow()[1].2, "{\"userId\":\"u\"}");
}

#[test]
fn urls_are_those_of_the_service() {
    assert_eq!(ALIAS_URL, "https://api.segment.io/v1/alias");
    assert_eq!(IDENTIFY_URL, "https://api.segment.io/v1/identify");
    assert_eq!(TRACK_URL, "https://api.segment.io/v1/track");
}

#[test]
fn alias_body_holds_both_ids() {
    assert_eq!(
        build_alias_body("p", "u"),
        "{\"previousId\":\"p\",\"userId\":\"u\"}"
    );
    assert_eq!(
        build_alias_body("", ""),
        "{\"previousId\":\"\",\"userId\":\"\"}"
    );
}

#[test]
fn identify_body_holds_what_is_given() {
    assert_eq!(build_identify_body(None, None, None, None), "{}");
    assert_eq!(
        build_identify_body(Some("a"), None, None, None),
        "{\"anonymousId\":\"a\"}"
    );
    assert_eq!(
        build_identify_body(None, None, Some("{\"x\":\"1\"}"), None),
        "{\"traits\":{\"x\":\"1\"}}"
    );
    assert_eq!(
        build_identify_body(None, Some("u"), None, Some("[]")),
        "{\"userId\":\"u\",\"context\":[]}"
    );
    assert_eq!(
        build_identify_body(Some("a"), Some("u"), Some("{}"), Some("{}")),
        "{\"anonymousId\":\"a\",\"userId\":\"u\",\"traits\":{},\"context\":{}}"
    );
    assert_eq!(
        build_identify_body(Some(""), Some(""), None, None),
        "{\"anonymousId\":\"\",\"userId\":\"\"}"
    );
}

#[test]
fn track_body_holds_the_event_and_what_is_given() {
    assert_eq!(
        build_track_body("E", None, None, None, None),
        "{\"event\":\"E\"}"
    );
    assert_eq!(
        build_track_body("E", Some("a"), None, None, None),
        "{\"event\":\"E\",\"anonymousId\":\"a\"}"
    );
    assert_eq!(
        build_track_body("E", None, Some("u"), None, None),
        "{\"event\":\"E\",\"userId\":\"u\"}"
    );
    assert_eq!(
        build_track_body("E", None, None, None, Some("[]")),
        "{\"event\":\"E\",\"context\":[]}"
    );
    assert_eq!(
        build_track_body("E", Some("a"), Some("u"), Some("{}"), Some("[]")),
        "{\"event\":\"E\",\"anonymousId\":\"a\",\"userId\":\"u\",\"properties\":{},\"context\":[]}"
    );
    assert_eq!(
        build_track_body("", None, None, None, None),
        "{\"event\":\"\"}"
    );
}

#[test]
fn string_is_its_own_json_text() {
    let s = "{\"k\":1}".to_string();
    assert_eq!(s.to_json_string(), "{\"k\":1}");
}

#[test]
fn object_writes_its_fields_in_order() {
    let mut object = JsonObject::new();
    assert_eq!(object.len(), 0);
    assert_eq!(object.to_json_string(), "{}");
    assert_eq!(object.insert("b", "2"), None);
    assert_eq!(object.to_json_string(), "{\"b\":\"2\"}");
    assert_eq!(object.insert("a", "1"), None);
    assert_eq!(object.insert("c", "3"), None);
    assert_eq!(object.len(), 3);
    assert_eq!(
        object.to_json_string(),
        "{\"b\":\"2\",\"a\":\"1\",\"c\":\"3\"}"
    );
}

#[test]
fn object_keeps_one_field_per_name() {
    let mut object = JsonObject::new();
    object.insert("a", "1");
    object.insert("b", "2");
    assert_eq!(object.insert("a", "9"), Some("1".to_string()));
    assert_eq!(object.len(), 2);
    assert_eq!(object.to_json_string(), "{\"a\":\"9\",\"b\":\"2\"}");
    assert_eq!(object.insert("b", "8"), Some("2".to_string()));
    assert_eq!(object.to_json_string(), "{\"a\":\"9\",\"b\":\"8\"}");
}

#[test]
fn post_needs_a_write_key() {
    let query = SegmentQuery::new("https://example.test/x".to_string(), "{}".to_string());
    assert!(post(&None, &query).is_none());
}

#[test]
fn post_carries_the_query_and_the_key() {
    let query = SegmentQuery::new("https://example.test/x".to_string(), "{\"a\":1}".to_string());
    let request = post(&key(), &query).unwrap();
    assert_eq!(request.url, "https://example.test/x");
    assert_eq!(request.body, "{\"a\":1}");
    assert_eq!(request.username, SEGMENT_WRITE_KEY);
    assert_eq!(request.timeout_secs, 5);
    assert_eq!(TIMEOUT_SECS, 5);
}

#[test]
fn only_status_ok_is_accepted() {
    assert_eq!(STATUS_OK, 200);
    assert!(accepted(200));
    assert!(!accepted(201));
    assert!(!accepted(404));
    assert!(!accepted(500));
    assert!(!accepted(0));
}

#[test]
fn query_gives_back_its_parts() {
    let query = SegmentQuery::new("u".to_string(), "b".to_string());
    assert_eq!(query.url(), "u");
    assert_eq!(query.body(), "b");
    let copy = query.clone();
    assert_eq!(copy.url(), "u");
    assert_eq!(copy.body(), "b");
}

#[test]
fn client_revives_its_worker() {
    let sent: Sent = Rc::new(RefCell::new(Vec::new()));
    let mut segment = Segment::new(None, Outbox { sent: sent.clone() });
    segment.alias("a", "b");
    assert_eq!(segment.worker.take_next().map(|q| q.url().to_string()), Some(ALIAS_URL.to_string()));
    segment.worker.settle(false);
    assert!(!segment.worker.is_alive());
    assert!(segment.alias("c", "d"));
    assert!(segment.worker.is_alive());
    assert_eq!(segment.worker.run(), 1);
    assert_eq!(
        *sent.borrow(),
        vec![(
            None,
            ALIAS_URL.to_string(),
            "{\"previousId\":\"c\",\"userId\":\"d\"}".to_string()
        )]
    );
}

/// A value of the caller's own that writes itself as a JSON number.
struct Count(u32);

impl ToJsonString for Count {
    fn to_json_string(&self) -> String {
        format!("{}", self.0)
    }
}

#[test]
fn callers_own_values_are_written_as_they_say() {
    let (mut segment, sent) = client();
    segment.identify(Some("a"), None, Some(Count(3)), None::<String>);
    assert_eq!(segment.worker.run(), 1);
    assert_eq!(sent.borrow()[0].2, "{\"anonymousId\":\"a\",\"traits\":3}");
}
