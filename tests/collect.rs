use github_activity::client::{ActivityClient, Collection, PageError, LAST_PAGE};
use github_activity::event::EventError;
use github_activity::json::Json;
use github_activity::timestamp::Timestamp;

fn t(s: &str) -> Json {
    Json::Str(s.to_string())
}

fn obj(list: Vec<(&str, Json)>) -> Json {
    Json::Object(list.into_iter().map(|(k, v)| (k.to_string(), v)).collect())
}

fn issue_record(repo: &str, number: u64, created_at: &str) -> Json {
    obj(vec![
        ("type", t("IssuesEvent")),
        ("repo", obj(vec![("name", t(repo))])),
        ("created_at", t(created_at)),
        (
            "payload",
            obj(vec![
                ("action", t("opened")),
                ("issue", obj(vec![("number", Json::UInt(number)), ("html_url", t("u")), ("title", t("title"))])),
            ]),
        ),
    ])
}

fn watch_record(created_at: &str) -> Json {
    obj(vec![
        ("type", t("WatchEvent")),
        ("repo", obj(vec![("name", t("octo/hello"))])),
        ("created_at", t(created_at)),
        ("payload", obj(vec![("action", t("started"))])),
    ])
}

fn window() -> (Timestamp, Timestamp) {
    (
        Timestamp::parse_rfc3339("2019-01-02T00:00:00.000000Z").unwrap(),
        Timestamp::parse_rfc3339("2019-01-02T23:59:59.999999Z").unwrap(),
    )
}

fn activity_total(c: Collection) -> usize {
    let (index, _) = c.finish();
    index.repositories().iter().flat_map(|r| r.objects.iter()).map(|o| o.activities.len()).sum()
}

#[test]
fn endpoints_follow_visibility() {
    let client = ActivityClient::new("octocat", "SECRET-REDACTED");
    assert_eq!(client.endpoint(1, true), "users/octocat/events?page=1");
    assert_eq!(client.endpoint(12, false), "users/octocat/events/public?page=12");
    assert_eq!(client.user_name(), "octocat");
    assert_eq!(client.access_token(), "SECRET-REDACTED");
}

#[test]
fn window_ends_are_included() {
    let (from, to) = window();
    let mut c = Collection::new(&from, &to, false);
    let page = Json::Array(vec![
        issue_record("octo/hello", 1, "2019-01-02T00:00:00Z"),
        issue_record("octo/hello", 2, "2019-01-02T23:59:59.999999Z"),
        issue_record("octo/hello", 3, "2019-01-01T23:59:59.999999Z"),
        issue_record("octo/hello", 4, "2019-01-03T00:00:00Z"),
    ]);
    c.on_page(page).unwrap();
    let (index, _) = c.finish();
    assert!(index.get("octo/hello", "#1").is_some());
    assert!(index.get("octo/hello", "#2").is_some());
    assert!(index.get("octo/hello", "#3").is_none());
    assert!(index.get("octo/hello", "#4").is_none());
}

#[test]
fn within_checks_both_ends() {
    let (from, to) = window();
    let before = Timestamp::parse_rfc3339("2019-01-01T23:59:59.999999Z").unwrap();
    let after = Timestamp::parse_rfc3339("2019-01-03T00:00:00Z").unwrap();
    assert!(from.within(&from, &to));
    assert!(to.within(&from, &to));
    assert!(!before.within(&from, &to));
    assert!(!after.within(&from, &to));
}

#[test]
fn watch_event_is_dropped() {
    let (from, to) = window();
    let mut c = Collection::new(&from, &to, true);
    let page = Json::Array(vec![watch_record("2019-01-02T10:00:00Z"), issue_record("octo/hello", 5, "2019-01-02T11:00:00Z")]);
    c.on_page(page).unwrap();
    let (index, skipped) = c.finish();
    assert!(skipped.is_empty());
    assert_eq!(index.repositories().len(), 1);
    assert_eq!(index.repositories()[0].objects.len(), 1);
    let o = index.get("octo/hello", "#5").unwrap();
    assert_eq!(o.activities.len(), 1);
    assert_eq!(o.activities[0].action, "opened");
}

#[test]
fn page_of_only_unknown_types_ends_collection() {
    let (from, to) = window();
    let mut c = Collection::new(&from, &to, true);
    c.on_page(Json::Array(vec![watch_record("2019-01-02T10:00:00Z")])).unwrap();
    assert!(c.is_finished());
}

#[test]
fn two_pages_then_stop() {
    let (from, to) = window();
    let client = ActivityClient::new("octocat", "SECRET-REDACTED");
    let mut c = Collection::new(&from, &to, false);
    assert_eq!(client.next_request(&c).as_deref(), Some("users/octocat/events/public?page=1"));
    let page1 = Json::Array(vec![
        issue_record("octo/hello", 1, "2019-01-02T09:00:00Z"),
        issue_record("octo/world", 2, "2019-01-02T08:00:00Z"),
        issue_record("octo/hello", 3, "2018-12-30T08:00:00Z"),
    ]);
    c.on_page(page1).unwrap();
    assert!(!c.is_finished());
    assert_eq!(c.next_page(), 2);
    assert_eq!(client.next_request(&c).as_deref(), Some("users/octocat/events/public?page=2"));
    let page2 = Json::Array(vec![issue_record("octo/hello", 4, "2018-12-29T08:00:00Z")]);
    c.on_page(page2).unwrap();
    assert!(c.is_finished());
    assert_eq!(client.next_request(&c), None);
    let (index, skipped) = c.finish();
    assert!(skipped.is_empty());
    assert_eq!(index.repositories().len(), 2);
    assert!(index.get("octo/hello", "#1").is_some());
    assert!(index.get("octo/world", "#2").is_some());
    assert!(index.get("octo/hello", "#3").is_none());
    assert!(index.get("octo/hello", "#4").is_none());
}

#[test]
fn last_page_ends_collection() {
    let (from, to) = window();
    let mut c = Collection::new(&from, &to, true);
    let mut pages = 0;
    while !c.is_finished() {
        pages += 1;
        c.on_page(Json::Array(vec![issue_record("octo/hello", pages, "2019-01-02T12:00:00Z")])).unwrap();
    }
    assert_eq!(pages, LAST_PAGE as u64);
    assert_eq!(c.next_page(), LAST_PAGE + 1);
    assert_eq!(activity_total(c), LAST_PAGE as usize);
}

#[test]
fn page_that_is_not_an_array_is_refused() {
    let (from, to) = window();
    let mut c = Collection::new(&from, &to, true);
    assert_eq!(c.on_page(obj(vec![("message", t("Not Found"))])), Err(PageError::NotAnArray));
    assert!(!c.is_finished());
    assert_eq!(c.next_page(), 1);
}

#[test]
fn pages_after_finish_change_nothing() {
    let (from, to) = window();
    let mut c = Collection::new(&from, &to, true);
    c.on_page(Json::Array(vec![])).unwrap();
    assert!(c.is_finished());
    c.on_page(Json::Array(vec![issue_record("octo/hello", 1, "2019-01-02T12:00:00Z")])).unwrap();
    assert_eq!(c.next_page(), 2);
    assert_eq!(activity_total(c), 0);
}

#[test]
fn malformed_records_are_skipped_and_noted() {
    let (from, to) = window();
    let mut c = Collection::new(&from, &to, true);
    let broken_payload = obj(vec![
        ("type", t("IssuesEvent")),
        ("repo", obj(vec![("name", t("octo/hello"))])),
        ("created_at", t("2019-01-02T12:00:00Z")),
        ("payload", obj(vec![("action", t("opened"))])),
    ]);
    let no_type = obj(vec![("created_at", t("2019-01-02T12:00:00Z"))]);
    let page = Json::Array(vec![broken_payload, no_type, issue_record("octo/hello", 8, "2019-01-02T12:00:00Z")]);
    c.on_page(page).unwrap();
    assert!(!c.is_finished());
    let (index, skipped) = c.finish();
    assert_eq!(skipped.len(), 2);
    match &skipped[0] {
        EventError::MalformedEvent { type_tag, field } => {
            assert_eq!(type_tag, "");
            assert_eq!(field, "type");
        }
        other => panic!("unexpected {:?}", other),
    }
    match &skipped[1] {
        EventError::MalformedEvent { type_tag, field } => {
            assert_eq!(type_tag, "IssuesEvent");
            assert_eq!(field, "payload.issue.number");
        }
        other => panic!("unexpected {:?}", other),
    }
    assert!(index.get("octo/hello", "#8").is_some());
}
