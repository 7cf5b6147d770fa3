use github_activity::activity::{Activity, GithubActivities, GithubObject, GithubObjectType};
use github_activity::markdown::{sorted_by_time, to_markdown, Markdown};
use github_activity::text::{push_decimal, shorten_body};
use github_activity::timestamp::Timestamp;

fn ts(secs: i64) -> Timestamp {
    Timestamp { secs, nanos: 0 }
}

#[test]
fn body_of_thirty_characters_is_kept() {
    let body = "abcdefghijklmnopqrstuvwxyz0123";
    assert_eq!(body.chars().count(), 30);
    assert_eq!(shorten_body(body), body);
    assert_eq!(shorten_body(""), "");
}

#[test]
fn body_over_thirty_characters_is_cut() {
    assert_eq!(shorten_body("abcdefghijklmnopqrstuvwxyz01234"), "abcdefghijklmnopqrstuvwxyz0123...");
}

#[test]
fn body_is_counted_in_characters() {
    let body = "é".repeat(31);
    let expected = format!("{}...", "é".repeat(30));
    assert_eq!(shorten_body(&body), expected);
    assert_eq!(shorten_body(&"é".repeat(30)), "é".repeat(30));
}

#[test]
fn activity_line_shows_short_body() {
    let mut out = String::new();
    Activity::new("Comment created", Some("This comment is long enough to be cut short"), &ts(1)).write_markdown(&mut out);
    assert_eq!(out, "- Comment created: This comment is long enough to...\n");
    let mut plain = String::from("> ");
    Activity::new("opened", None, &ts(1)).write_markdown(&mut plain);
    assert_eq!(plain, "> - opened\n");
}

#[test]
fn activities_sorted_by_time_keep_ties() {
    let acts = vec![
        Activity::new("c", None, &ts(20)),
        Activity::new("a", None, &ts(10)),
        Activity::new("b", None, &ts(10)),
        Activity::new("d", None, &Timestamp { secs: 10, nanos: 5 }),
    ];
    let order: Vec<&str> = sorted_by_time(&acts).iter().map(|a| a.action.as_str()).collect();
    assert_eq!(order, vec!["a", "b", "d", "c"]);
}

#[test]
fn index_renders_as_markdown() {
    let mut index = GithubActivities::new();
    index.apply(
        "octo/hello",
        GithubObject::new("#7", GithubObjectType::Issue, "https://e/7", Some("Crash")),
        Activity::new("closed", None, &ts(20)),
    );
    index.apply(
        "octo/hello",
        GithubObject::new("#7", GithubObjectType::Issue, "https://e/7", Some("Crash")),
        Activity::new("Comment created", Some("short"), &ts(10)),
    );
    index.apply(
        "octo/hello",
        GithubObject::new("#7", GithubObjectType::Issue, "https://e/7", Some("Crash")),
        Activity::new("opened", None, &ts(10)),
    );
    index.apply(
        "octo/world",
        GithubObject::new("abcdef", GithubObjectType::Commit, "https://e/c", None),
        Activity::new("Comment created", Some("why"), &ts(5)),
    );
    let expected = "## octo/hello\n- [Issue [#7](https://e/7)] Crash\n  - Comment created: short\n  - opened\n  - closed\n## octo/world\n- [Commit [abcdef](https://e/c)] \n  - Comment created: why\n";
    assert_eq!(to_markdown(&index), expected);
}

#[test]
fn empty_index_renders_nothing() {
    assert_eq!(to_markdown(&GithubActivities::new()), "");
}

#[test]
fn pull_request_line_uses_pr_label() {
    let mut out = String::new();
    GithubObject::new("#3", GithubObjectType::PullRequest, "l", Some("T")).write_markdown(&mut out);
    assert_eq!(out, "- [PR [#3](l)] T\n");
}

#[test]
fn decimal_numerals() {
    let mut s = String::from("#");
    push_decimal(&mut s, 0);
    assert_eq!(s, "#0");
    let mut s = String::new();
    push_decimal(&mut s, 1234509876);
    assert_eq!(s, "1234509876");
    let mut s = String::new();
    push_decimal(&mut s, u64::MAX);
    assert_eq!(s, u64::MAX.to_string());
}
