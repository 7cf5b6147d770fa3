//! The event parser: for each kind of event that the feed reports on issues,
//! pull requests and commits, which fields of the record give the object's
//! id, type, link and title, and the action and body of the activity.

use vstd::prelude::*;
use crate::activity::{opt_str, Activity, ActivityView, GithubObject, GithubObjectType, ObjectView};
use crate::json::{deref_opt, field_of, member, member_of, text_of, uint_of, Json};
use crate::text::{decimal, push_decimal, str_eq};
use crate::timestamp::{rfc3339_instant, Timestamp};

verus! {

/// The kinds of event that are grouped; the feed reports others too, which
/// are passed over.
#[derive(Clone, Copy, Debug, PartialEq, Eq, Structural)]
pub enum EventKind {
    Issues,
    IssueComment,
    PullRequest,
    PullRequestReviewComment,
    CommitComment,
}

/// The kind that a type tag names, if it is one that is grouped.
pub open spec fn kind_of(tag: Seq<char>) -> Option<EventKind> {
    if tag == "IssuesEvent"@ {
        Some(EventKind::Issues)
    } else if tag == "IssueCommentEvent"@ {
        Some(EventKind::IssueComment)
    } else if tag == "PullRequestEvent"@ {
        Some(EventKind::PullRequest)
    } else if tag == "PullRequestReviewCommentEvent"@ {
        Some(EventKind::PullRequestReviewComment)
    } else if tag == "CommitCommentEvent"@ {
        Some(EventKind::CommitComment)
    } else {
        None
    }
}

/// The section of the payload that holds the object's number (or, for a
/// commit comment, the commit id) and title.
pub open spec fn subject_section(k: EventKind) -> Seq<char> {
    match k {
        EventKind::Issues | EventKind::IssueComment => "issue"@,
        EventKind::PullRequest | EventKind::PullRequestReviewComment => "pull_request"@,
        EventKind::CommitComment => "comment"@,
    }
}

/// The section of the payload whose `html_url` is the object's link.
pub open spec fn link_section(k: EventKind) -> Seq<char> {
    match k {
        EventKind::Issues | EventKind::IssueComment => "issue"@,
        EventKind::PullRequest => "pull_request"@,
        EventKind::PullRequestReviewComment => "comment"@,
        EventKind::CommitComment => "commit"@,
    }
}

/// The kind is a comment: its action is prefixed with `Comment ` and it has
/// a body.
pub open spec fn is_comment(k: EventKind) -> bool {
    k == EventKind::IssueComment || k == EventKind::PullRequestReviewComment || k
        == EventKind::CommitComment
}

/// The type of the object an event of kind `k` is about.
pub open spec fn object_type_of(k: EventKind) -> GithubObjectType {
    match k {
        EventKind::Issues | EventKind::IssueComment => GithubObjectType::Issue,
        EventKind::PullRequest | EventKind::PullRequestReviewComment => GithubObjectType::PullRequest,
        EventKind::CommitComment => GithubObjectType::Commit,
    }
}

/// The dotted name of a payload field, as errors report it.
pub open spec fn field_path(section: Option<Seq<char>>, name: Seq<char>) -> Seq<char> {
    match section {
        Some(s) => "payload."@ + s + "."@ + name,
        None => "payload."@ + name,
    }
}

/// The payload field `name`, inside `section` where there is one.
pub open spec fn payload_field(v: Json, section: Option<Seq<char>>, name: Seq<char>) -> Option<Json> {
    let p = field_of(v, "payload"@);
    match section {
        Some(s) => member(member(p, s), name),
        None => member(p, name),
    }
}

/// The id of the object: `#` and the number for issues and pull requests,
/// the first six characters of the commit id for commits. `Err` names the
/// field that is missing or of the wrong shape.
pub open spec fn id_of(k: EventKind, v: Json) -> Result<Seq<char>, Seq<char>> {
    if k == EventKind::CommitComment {
        match text_of(payload_field(v, Some("comment"@), "commit_id"@)) {
            Some(sha) => if sha.len() >= 6 {
                Ok(sha.subrange(0, 6))
            } else {
                Err(field_path(Some("comment"@), "commit_id"@))
            },
            None => Err(field_path(Some("comment"@), "commit_id"@)),
        }
    } else {
        match uint_of(payload_field(v, Some(subject_section(k)), "number"@)) {
            Some(n) => Ok("#"@ + decimal(n as nat)),
            None => Err(field_path(Some(subject_section(k)), "number"@)),
        }
    }
}

/// The id of a commit is the first six characters of its commit id, where
/// that has six or more.
pub proof fn lemma_commit_id_prefix(v: Json, sha: Seq<char>)
    requires
        text_of(payload_field(v, Some("comment"@), "commit_id"@)) == Some(sha),
        sha.len() >= 6,
    ensures
        id_of(EventKind::CommitComment, v) == Ok::<Seq<char>, Seq<char>>(sha.subrange(0, 6)),
{
}

/// The object, with no activity yet, that an event of kind `k` is about.
pub open spec fn object_of(k: EventKind, id: Seq<char>, v: Json) -> Result<ObjectView, Seq<char>> {
    match text_of(payload_field(v, Some(link_section(k)), "html_url"@)) {
        None => Err(field_path(Some(link_section(k)), "html_url"@)),
        Some(link) => if k == EventKind::CommitComment {
            Ok(ObjectView { id, object_type: object_type_of(k), link, title: None, activities: Seq::empty() })
        } else {
            match text_of(payload_field(v, Some(subject_section(k)), "title"@)) {
                None => Err(field_path(Some(subject_section(k)), "title"@)),
                Some(t) => Ok(
                    ObjectView { id, object_type: object_type_of(k), link, title: Some(t), activities: Seq::empty() },
                ),
            }
        },
    }
}

/// The activity that an event of kind `k` records.
pub open spec fn activity_of(k: EventKind, created_at: Timestamp, v: Json) -> Result<ActivityView, Seq<char>> {
    match text_of(payload_field(v, None, "action"@)) {
        None => Err(field_path(None, "action"@)),
        Some(action) => if is_comment(k) {
            match text_of(payload_field(v, Some("comment"@), "body"@)) {
                None => Err(field_path(Some("comment"@), "body"@)),
                Some(b) => Ok(ActivityView { action: "Comment "@ + action, body: Some(b), created_at }),
            }
        } else {
            Ok(ActivityView { action, body: None, created_at })
        },
    }
}

/// The object and activity of an event of kind `k`: the id is read first,
/// then the object, then the activity; `Err` names the first field that is
/// missing or of the wrong shape.
pub open spec fn parsed(k: EventKind, created_at: Timestamp, v: Json) -> Result<(ObjectView, ActivityView), Seq<char>> {
    match id_of(k, v) {
        Err(p) => Err(p),
        Ok(id) => match object_of(k, id, v) {
            Err(p) => Err(p),
            Ok(o) => match activity_of(k, created_at, v) {
                Err(p) => Err(p),
                Ok(a) => Ok((o, a)),
            },
        },
    }
}

/// Appends the dotted name of a payload field to `out`.
fn push_field_path(out: &mut String, section: Option<&str>, name: &str)
    ensures
        final(out)@ == old(out)@ + field_path(opt_str(section), name@),
{
    out.append("payload.");
    match section {
        Some(s) => {
            out.append(s);
            out.append(".");
        }
        None => {}
    }
    out.append(name);
    assert(out@ =~= old(out)@ + field_path(opt_str(section), name@));
}

/// The dotted name of a payload field.
fn field_path_text(section: Option<&str>, name: &str) -> (r: String)
    ensures
        r@ == field_path(opt_str(section), name@),
{
    let mut r = String::new();
    push_field_path(&mut r, section, name);
    assert(r@ =~= field_path(opt_str(section), name@));
    r
}

/// The payload field `name`, inside `section` where there is one.
fn payload_value<'a>(v: &'a Json, section: Option<&str>, name: &str) -> (r: Option<&'a Json>)
    ensures
        deref_opt(r) == payload_field(*v, opt_str(section), name@),
{
    let p = v.get("payload");
    match section {
        Some(s) => member_of(member_of(p, s), name),
        None => member_of(p, name),
    }
}

/// The text of a payload field; `Err` holds the field's dotted name.
fn payload_text<'a>(v: &'a Json, section: Option<&str>, name: &str) -> (r: Result<&'a String, String>)
    ensures
        match r {
            Ok(s) => text_of(payload_field(*v, opt_str(section), name@)) == Some(s@),
            Err(p) => text_of(payload_field(*v, opt_str(section), name@)) is None && p@ == field_path(
                opt_str(section),
                name@,
            ),
        },
{
    match payload_value(v, section, name) {
        Some(j) => match j.as_str() {
            Some(s) => Ok(s),
            None => Err(field_path_text(section, name)),
        },
        None => Err(field_path_text(section, name)),
    }
}

/// The integer of a payload field; `Err` holds the field's dotted name.
fn payload_uint(v: &Json, section: Option<&str>, name: &str) -> (r: Result<u64, String>)
    ensures
        match r {
            Ok(n) => uint_of(payload_field(*v, opt_str(section), name@)) == Some(n),
            Err(p) => uint_of(payload_field(*v, opt_str(section), name@)) is None && p@ == field_path(
                opt_str(section),
                name@,
            ),
        },
{
    match payload_value(v, section, name) {
        Some(j) => match j.as_u64() {
            Some(n) => Ok(n),
            None => Err(field_path_text(section, name)),
        },
        None => Err(field_path_text(section, name)),
    }
}

impl EventKind {
    /// The kind that a type tag names; `None` for a tag that is not grouped.
    pub fn from_type_tag(name: &str) -> (r: Option<EventKind>)
        ensures
            r == kind_of(name@),
    {
        if str_eq(name, "IssuesEvent") {
            Some(EventKind::Issues)
        } else if str_eq(name, "IssueCommentEvent") {
            Some(EventKind::IssueComment)
        } else if str_eq(name, "PullRequestEvent") {
            Some(EventKind::PullRequest)
        } else if str_eq(name, "PullRequestReviewCommentEvent") {
            Some(EventKind::PullRequestReviewComment)
        } else if str_eq(name, "CommitCommentEvent") {
            Some(EventKind::CommitComment)
        } else {
            None
        }
    }

    fn subject_section(&self) -> (r: &'static str)
        ensures
            r@ == subject_section(*self),
    {
        match self {
            EventKind::Issues | EventKind::IssueComment => "issue",
            EventKind::PullRequest | EventKind::PullRequestReviewComment => "pull_request",
            EventKind::CommitComment => "comment",
        }
    }

    fn link_section(&self) -> (r: &'static str)
        ensures
            r@ == link_section(*self),
    {
        match self {
            EventKind::Issues | EventKind::IssueComment => "issue",
            EventKind::PullRequest => "pull_request",
            EventKind::PullRequestReviewComment => "comment",
            EventKind::CommitComment => "commit",
        }
    }

    fn object_type(&self) -> (r: GithubObjectType)
        ensures
            r == object_type_of(*self),
    {
        match self {
            EventKind::Issues | EventKind::IssueComment => GithubObjectType::Issue,
            EventKind::PullRequest | EventKind::PullRequestReviewComment => GithubObjectType::PullRequest,
            EventKind::CommitComment => GithubObjectType::Commit,
        }
    }

    /// The id of the object that `value`, an event of this kind, is about.
    /// `Err` holds the dotted name of the field that is missing or of the
    /// wrong shape.
    pub fn parse_id(&self, value: &Json) -> (r: Result<String, String>)
        ensures
            match r {
                Ok(id) => id_of(*self, *value) == Ok::<Seq<char>, Seq<char>>(id@),
                Err(p) => id_of(*self, *value) == Err::<Seq<char>, Seq<char>>(p@),
            },
    {
        if *self == EventKind::CommitComment {
            let sha = payload_text(value, Some("comment"), "commit_id")?;
            if sha.as_str().unicode_len() >= 6 {
                Ok(String::from_str(sha.as_str().substring_char(0, 6)))
            } else {
                Err(field_path_text(Some("comment"), "commit_id"))
            }
        } else {
            let n = payload_uint(value, Some(self.subject_section()), "number")?;
            let mut id = String::from_str("#");
            push_decimal(&mut id, n);
            Ok(id)
        }
    }

    /// The object, with no activity yet, that `value`, an event of this kind,
    /// is about; its id is `id`.
    pub fn parse_object(&self, id: &str, value: &Json) -> (r: Result<GithubObject, String>)
        ensures
            match r {
                Ok(o) => object_of(*self, id@, *value) == Ok::<ObjectView, Seq<char>>(o@),
                Err(p) => object_of(*self, id@, *value) == Err::<ObjectView, Seq<char>>(p@),
            },
    {
        let link = payload_text(value, Some(self.link_section()), "html_url")?;
        if *self == EventKind::CommitComment {
            Ok(GithubObject::new(id, self.object_type(), link.as_str(), None))
        } else {
            let title = payload_text(value, Some(self.subject_section()), "title")?;
            Ok(GithubObject::new(id, self.object_type(), link.as_str(), Some(title.as_str())))
        }
    }

    /// The activity that `value`, an event of this kind made at
    /// `created_at`, records.
    pub fn parse_activity(&self, created_at: &Timestamp, value: &Json) -> (r: Result<Activity, String>)
        ensures
            match r {
                Ok(a) => activity_of(*self, *created_at, *value) == Ok::<ActivityView, Seq<char>>(a@),
                Err(p) => activity_of(*self, *created_at, *value) == Err::<ActivityView, Seq<char>>(p@),
            },
    {
        let action = payload_text(value, None, "action")?;
        match self {
            EventKind::IssueComment | EventKind::PullRequestReviewComment | EventKind::CommitComment => {
                let body = payload_text(value, Some("comment"), "body")?;
                let mut label = String::from_str("Comment ");
                label.append(action.as_str());
                Ok(Activity::new(label.as_str(), Some(body.as_str()), created_at))
            }
            _ => Ok(Activity::new(action.as_str(), None, created_at)),
        }
    }

    /// The object and the activity of `value`, an event of this kind made
    /// at `created_at`.
    pub fn parse(&self, created_at: &Timestamp, value: &Json) -> (r: Result<(GithubObject, Activity), String>)
        ensures
            match r {
                Ok((o, a)) => parsed(*self, *created_at, *value) == Ok::<(ObjectView, ActivityView), Seq<char>>((o@, a@)),
                Err(p) => parsed(*self, *created_at, *value) == Err::<(ObjectView, ActivityView), Seq<char>>(p@),
            },
    {
        let id = self.parse_id(value)?;
        let object = self.parse_object(id.as_str(), value)?;
        let activity = self.parse_activity(created_at, value)?;
        Ok((object, activity))
    }
}

/// Why an event was not grouped.
pub enum EventFault {
    /// Its type tag is not one of the grouped kinds.
    UnknownType,
    /// The field with this dotted name is missing or of the wrong shape.
    Malformed(Seq<char>),
}

/// Why an event was not grouped, with the event's type tag (empty where the
/// record has none).
#[derive(Debug)]
pub enum EventError {
    UnknownEventType { type_tag: String },
    MalformedEvent { type_tag: String, field: String },
}

impl View for EventError {
    type V = (Seq<char>, EventFault);

    open spec fn view(&self) -> (Seq<char>, EventFault) {
        match self {
            EventError::UnknownEventType { type_tag } => (type_tag@, EventFault::UnknownType),
            EventError::MalformedEvent { type_tag, field } => (type_tag@, EventFault::Malformed(field@)),
        }
    }
}

/// One record of the feed, as values.
pub struct EventView {
    pub type_tag: Seq<char>,
    pub repo_name: Seq<char>,
    pub created_at: Timestamp,
    pub data: Json,
}

/// The object and activity of an event, or why it is not grouped.
pub open spec fn event_outcome(e: EventView) -> Result<(ObjectView, ActivityView), EventFault> {
    match kind_of(e.type_tag) {
        None => Err(EventFault::UnknownType),
        Some(k) => match parsed(k, e.created_at, e.data) {
            Ok(p) => Ok(p),
            Err(f) => Err(EventFault::Malformed(f)),
        },
    }
}

/// The type tag, repository name and creation time that every record
/// carries, or the type tag (empty where it is missing) and the dotted name
/// of the first of those fields that is missing or of the wrong shape.
pub open spec fn envelope(v: Json) -> Result<EventView, (Seq<char>, Seq<char>)> {
    match text_of(field_of(v, "type"@)) {
        None => Err((Seq::empty(), "type"@)),
        Some(tag) => match text_of(member(field_of(v, "repo"@), "name"@)) {
            None => Err((tag, "repo.name"@)),
            Some(repo) => match text_of(field_of(v, "created_at"@)) {
                None => Err((tag, "created_at"@)),
                Some(c) => match rfc3339_instant(c) {
                    None => Err((tag, "created_at"@)),
                    Some(t) => Ok(EventView { type_tag: tag, repo_name: repo, created_at: t, data: v }),
                },
            },
        },
    }
}

/// One record of the feed: its type tag, the repository it happened in,
/// when, and the whole record.
#[derive(Debug)]
pub struct RawEvent {
    pub type_tag: String,
    pub repo_name: String,
    pub created_at: Timestamp,
    pub raw_data: Json,
}

impl View for RawEvent {
    type V = EventView;

    open spec fn view(&self) -> EventView {
        EventView {
            type_tag: self.type_tag@,
            repo_name: self.repo_name@,
            created_at: self.created_at,
            data: self.raw_data,
        }
    }
}

impl RawEvent {
    /// A record with the given envelope and contents.
    pub fn new(type_tag: &str, repo_name: &str, created_at: Timestamp, raw_data: Json) -> (r: RawEvent)
        ensures
            r@ == (EventView { type_tag: type_tag@, repo_name: repo_name@, created_at, data: raw_data }),
    {
        RawEvent {
            type_tag: String::from_str(type_tag),
            repo_name: String::from_str(repo_name),
            created_at,
            raw_data,
        }
    }

    /// Reads the type tag, repository name and creation time of a record.
    pub fn from_json(value: Json) -> (r: Result<RawEvent, EventError>)
        ensures
            match r {
                Ok(e) => envelope(value) == Ok::<EventView, (Seq<char>, Seq<char>)>(e@),
                Err(e) => e@.1 is Malformed && envelope(value) == Err::<EventView, (Seq<char>, Seq<char>)>(
                    (e@.0, e@.1->Malformed_0),
                ),
            },
    {
        let type_tag = match value.get("type") {
            Some(j) => match j.as_str() {
                Some(s) => s.clone(),
                None => {
                    return Err(EventError::MalformedEvent { type_tag: String::new(), field: String::from_str("type") });
                }
            },
            None => {
                return Err(EventError::MalformedEvent { type_tag: String::new(), field: String::from_str("type") });
            }
        };
        let repo_name = match member_of(value.get("repo"), "name") {
            Some(j) => match j.as_str() {
                Some(s) => s.clone(),
                None => {
                    return Err(EventError::MalformedEvent { type_tag, field: String::from_str("repo.name") });
                }
            },
            None => {
                return Err(EventError::MalformedEvent { type_tag, field: String::from_str("repo.name") });
            }
        };
        let created_at = match value.get("created_at") {
            Some(j) => match j.as_str() {
                Some(s) => Timestamp::parse_rfc3339(s.as_str()),
                None => None,
            },
            None => None,
        };
        match created_at {
            Some(t) => Ok(RawEvent { type_tag, repo_name, created_at: t, raw_data: value }),
            None => Err(EventError::MalformedEvent { type_tag, field: String::from_str("created_at") }),
        }
    }

    /// The object and activity of this event, or why it is not grouped.
    pub fn parse(&self) -> (r: Result<(GithubObject, Activity), EventError>)
        ensures
            match r {
                Ok((o, a)) => event_outcome(self@) == Ok::<(ObjectView, ActivityView), EventFault>((o@, a@)),
                Err(e) => e@.0 == self@.type_tag && event_outcome(self@) == Err::<(ObjectView, ActivityView), EventFault>(e@.1),
            },
    {
        match EventKind::from_type_tag(self.type_tag.as_str()) {
            None => Err(EventError::UnknownEventType { type_tag: self.type_tag.clone() }),
            Some(k) => match k.parse(&self.created_at, &self.raw_data) {
                Ok(p) => Ok(p),
                Err(field) => Err(EventError::MalformedEvent { type_tag: self.type_tag.clone(), field }),
            },
        }
    }
}

} // verus!
