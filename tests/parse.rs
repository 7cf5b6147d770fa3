use github_activity::activity::GithubObjectType;
use github_activity::event::{EventError, EventKind, RawEvent};
use github_activity::json::Json;
use github_activity::timestamp::Timestamp;

fn text(t: &str) -> Json {
    Json::Str(t.to_string())
}

fn object(fields: Vec<(&str, Json)>) -> Json {
    Json::Object(fields.into_iter().map(|(k, v)| (k.to_string(), v)).collect())
}

fn record(tag: &str, payload: Json) -> Json {
    object(vec![
        ("type", text(tag)),
        ("repo", object(vec![("name", text("octo/hello"))])),
        ("created_at", text("2019-01-02T03:04:05Z")),
        ("payload", payload),
    ])
}

fn issue(number: u64, title: &str) -> Json {
    object(vec![
        ("number", Json::UInt(number)),
        ("html_url", text("https://example.com/octo/hello/issues/7")),
        ("title", text(title)),
    ])
}

fn pull_request(number: u64, title: &str) -> Json {
    object(vec![
        ("number", Json::UInt(number)),
        ("html_url", text("https://example.com/octo/hello/pull/12")),
        ("title", text(title)),
    ])
}

fn at() -> Timestamp {
    Timestamp { secs: 1546398245, nanos: 0 }
}

#[test]
fn issues_event_follows_table() {
    let v = record("IssuesEvent", object(vec![("action", text("opened")), ("issue", issue(7, "Crash on start"))]));
    let (o, a) = EventKind::Issues.parse(&at(), &v).unwrap();
    assert_eq!(o.id, "#7");
    assert_eq!(o.object_type, GithubObjectType::Issue);
    assert_eq!(o.link, "https://example.com/octo/hello/issues/7");
    assert_eq!(o.title.as_deref(), Some("Crash on start"));
    assert!(o.activities.is_empty());
    assert_eq!(a.action, "opened");
    assert_eq!(a.body, None);
    assert_eq!(a.created_at, at());
}

#[test]
fn issue_comment_event_follows_table() {
    let v = record(
        "IssueCommentEvent",
        object(vec![
            ("action", text("created")),
            ("issue", issue(7, "Crash on start")),
            ("comment", object(vec![("body", text("Seen here too")), ("html_url", text("https://example.com/c/1"))])),
        ]),
    );
    let (o, a) = EventKind::IssueComment.parse(&at(), &v).unwrap();
    assert_eq!(o.id, "#7");
    assert_eq!(o.object_type, GithubObjectType::Issue);
    assert_eq!(o.link, "https://example.com/octo/hello/issues/7");
    assert_eq!(o.title.as_deref(), Some("Crash on start"));
    assert_eq!(a.action, "Comment created");
    assert_eq!(a.body.as_deref(), Some("Seen here too"));
}

#[test]
fn pull_request_event_follows_table() {
    let v = record("PullRequestEvent", object(vec![("action", text("closed")), ("pull_request", pull_request(12, "Fix crash"))]));
    let (o, a) = EventKind::PullRequest.parse(&at(), &v).unwrap();
    assert_eq!(o.id, "#12");
    assert_eq!(o.object_type, GithubObjectType::PullRequest);
    assert_eq!(o.link, "https://example.com/octo/hello/pull/12");
    assert_eq!(o.title.as_deref(), Some("Fix crash"));
    assert_eq!(a.action, "closed");
    assert_eq!(a.body, None);
}

#[test]
fn review_comment_event_links_to_comment() {
    let v = record(
        "PullRequestReviewCommentEvent",
        object(vec![
            ("action", text("created")),
            ("pull_request", pull_request(12, "Fix crash")),
            ("comment", object(vec![("body", text("Nit: rename")), ("html_url", text("https://example.com/r/5"))])),
        ]),
    );
    let (o, a) = EventKind::PullRequestReviewComment.parse(&at(), &v).unwrap();
    assert_eq!(o.id, "#12");
    assert_eq!(o.object_type, GithubObjectType::PullRequest);
    assert_eq!(o.link, "https://example.com/r/5");
    assert_eq!(o.title.as_deref(), Some("Fix crash"));
    assert_eq!(a.action, "Comment created");
    assert_eq!(a.body.as_deref(), Some("Nit: rename"));
}

#[test]
fn commit_comment_id_is_first_six_characters() {
    let v = record(
        "CommitCommentEvent",
        object(vec![
            ("action", text("created")),
            ("comment", object(vec![("commit_id", text("abcdef1234567890")), ("body", text("Why?"))])),
            ("commit", object(vec![("html_url", text("https://example.com/commit/abcdef1234567890"))])),
        ]),
    );
    let (o, a) = EventKind::CommitComment.parse(&at(), &v).unwrap();
    assert_eq!(o.id, "abcdef");
    assert_eq!(o.object_type, GithubObjectType::Commit);
    assert_eq!(o.link, "https://example.com/commit/abcdef1234567890");
    assert_eq!(o.title, None);
    assert_eq!(a.action, "Comment created");
    assert_eq!(a.body.as_deref(), Some("Why?"));
}

#[test]
fn short_commit_id_is_malformed() {
    let v = record(
        "CommitCommentEvent",
        object(vec![
            ("action", text("created")),
            ("comment", object(vec![("commit_id", text("abc")), ("body", text("Why?"))])),
            ("commit", object(vec![("html_url", text("https://example.com/commit/abc"))])),
        ]),
    );
    assert_eq!(EventKind::CommitComment.parse_id(&v), Err("payload.comment.commit_id".to_string()));
}

#[test]
fn missing_title_names_the_field() {
    let v = record(
        "IssuesEvent",
        object(vec![
            ("action", text("opened")),
            ("issue", object(vec![("number", Json::UInt(7)), ("html_url", text("https://example.com/i/7"))])),
        ]),
    );
    assert_eq!(EventKind::Issues.parse(&at(), &v).err(), Some("payload.issue.title".to_string()));
}

#[test]
fn number_written_as_text_is_malformed() {
    let v = record(
        "PullRequestEvent",
        object(vec![
            ("action", text("opened")),
            ("pull_request", object(vec![("number", text("12")), ("html_url", text("u")), ("title", text("t"))])),
        ]),
    );
    assert_eq!(EventKind::PullRequest.parse(&at(), &v).err(), Some("payload.pull_request.number".to_string()));
}

#[test]
fn missing_action_names_the_field() {
    let v = record("IssuesEvent", object(vec![("issue", issue(7, "Crash on start"))]));
    assert_eq!(EventKind::Issues.parse_activity(&at(), &v).err(), Some("payload.action".to_string()));
}

#[test]
fn missing_comment_body_is_malformed() {
    let v = record("IssueCommentEvent", object(vec![("action", text("created")), ("issue", issue(7, "t"))]));
    match RawEvent::from_json(v).unwrap().parse() {
        Err(EventError::MalformedEvent { type_tag, field }) => {
            assert_eq!(type_tag, "IssueCommentEvent");
            assert_eq!(field, "payload.comment.body");
        }
        other => panic!("unexpected {:?}", other),
    }
}

#[test]
fn type_tags_name_kinds() {
    assert_eq!(EventKind::from_type_tag("IssuesEvent"), Some(EventKind::Issues));
    assert_eq!(EventKind::from_type_tag("IssueCommentEvent"), Some(EventKind::IssueComment));
    assert_eq!(EventKind::from_type_tag("PullRequestEvent"), Some(EventKind::PullRequest));
    assert_eq!(
        EventKind::from_type_tag("PullRequestReviewCommentEvent"),
        Some(EventKind::PullRequestReviewComment)
    );
    assert_eq!(EventKind::from_type_tag("CommitCommentEvent"), Some(EventKind::CommitComment));
    assert_eq!(EventKind::from_type_tag("WatchEvent"), None);
    assert_eq!(EventKind::from_type_tag("issuesevent"), None);
}

#[test]
fn unknown_type_is_refused_at_dispatch() {
    let v = record("WatchEvent", object(vec![("action", text("started"))]));
    match RawEvent::from_json(v).unwrap().parse() {
        Err(EventError::UnknownEventType { type_tag }) => assert_eq!(type_tag, "WatchEvent"),
        other => panic!("unexpected {:?}", other),
    }
}

#[test]
fn envelope_is_read_from_record() {
    let v = record("IssuesEvent", object(vec![]));
    let e = RawEvent::from_json(v).unwrap();
    assert_eq!(e.type_tag, "IssuesEvent");
    assert_eq!(e.repo_name, "octo/hello");
    assert_eq!(e.created_at, Timestamp { secs: 1546398245, nanos: 0 });
}

#[test]
fn envelope_without_type_is_malformed() {
    let v = object(vec![("repo", object(vec![("name", text("octo/hello"))]))]);
    match RawEvent::from_json(v) {
        Err(EventError::MalformedEvent { type_tag, field }) => {
            assert_eq!(type_tag, "");
            assert_eq!(field, "type");
        }
        other => panic!("unexpected {:?}", other),
    }
}

#[test]
fn envelope_with_bad_date_is_malformed() {
    let v = object(vec![
        ("type", text("IssuesEvent")),
        ("repo", object(vec![("name", text("octo/hello"))])),
        ("created_at", text("yesterday")),
    ]);
    match RawEvent::from_json(v) {
        Err(EventError::MalformedEvent { type_tag, field }) => {
            assert_eq!(type_tag, "IssuesEvent");
            assert_eq!(field, "created_at");
        }
        other => panic!("unexpected {:?}", other),
    }
}

#[test]
fn envelope_without_repo_name_is_malformed() {
    let v = object(vec![("type", text("IssuesEvent")), ("repo", text("octo/hello"))]);
    match RawEvent::from_json(v) {
        Err(EventError::MalformedEvent { field, .. }) => assert_eq!(field, "repo.name"),
        other => panic!("unexpected {:?}", other),
    }
}

#[test]
fn json_lookup_takes_first_field_of_name() {
    let v = object(vec![("a", Json::UInt(1)), ("b", Json::UInt(2)), ("a", Json::UInt(3))]);
    assert_eq!(v.get("a").and_then(|j| j.as_u64()), Some(1));
    assert_eq!(v.get("b").and_then(|j| j.as_u64()), Some(2));
    assert!(v.get("c").is_none());
    assert!(Json::Null.get("a").is_none());
    assert!(Json::OtherNumber.as_u64().is_none());
    assert_eq!(Json::Array(vec![Json::Bool(true)]).as_array().map(|a| a.len()), Some(1));
}
