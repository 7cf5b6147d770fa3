//! The activity model: tracked objects (issues, pull requests, commits), the
//! actions observed on them, and the index that groups them by repository and
//! object id.

use vstd::prelude::*;
use crate::event::{event_outcome, kind_of, EventError, EventFault, EventView, RawEvent};
use crate::text::str_eq;
use crate::timestamp::Timestamp;

verus! {

/// What a tracked object is.
#[derive(Clone, Copy, Debug, PartialEq, Eq, Structural)]
pub enum GithubObjectType {
    Issue,
    PullRequest,
    Commit,
}

/// The short label of an object type.
pub open spec fn type_label(t: GithubObjectType) -> Seq<char> {
    match t {
        GithubObjectType::Issue => "Issue"@,
        GithubObjectType::PullRequest => "PR"@,
        GithubObjectType::Commit => "Commit"@,
    }
}

impl GithubObjectType {
    /// The short label: `Issue`, `PR` or `Commit`.
    pub fn value(&self) -> (r: &'static str)
        ensures
            r@ == type_label(*self),
    {
        match self {
            GithubObjectType::Issue => "Issue",
            GithubObjectType::PullRequest => "PR",
            GithubObjectType::Commit => "Commit",
        }
    }
}

/// The characters of an optional text.
pub open spec fn opt_text(o: Option<String>) -> Option<Seq<char>> {
    match o {
        Some(s) => Some(s@),
        None => None,
    }
}

/// The characters of an optional borrowed text.
pub open spec fn opt_str(o: Option<&str>) -> Option<Seq<char>> {
    match o {
        Some(s) => Some(s@),
        None => None,
    }
}

/// Copies an optional borrowed text.
pub fn copy_opt_str(o: Option<&str>) -> (r: Option<String>)
    ensures
        opt_text(r) == opt_str(o),
{
    match o {
        Some(s) => Some(String::from_str(s)),
        None => None,
    }
}

/// One observed action, as values.
pub struct ActivityView {
    pub action: Seq<char>,
    pub body: Option<Seq<char>>,
    pub created_at: Timestamp,
}

/// One observed action on a tracked object: a short label such as `opened`
/// or `Comment created`, the comment's text where there is one, and when it
/// happened.
#[derive(Debug)]
pub struct Activity {
    pub action: String,
    pub body: Option<String>,
    pub created_at: Timestamp,
}

impl View for Activity {
    type V = ActivityView;

    open spec fn view(&self) -> ActivityView {
        ActivityView { action: self.action@, body: opt_text(self.body), created_at: self.created_at }
    }
}

impl Activity {
    /// An activity with the given label, body and time.
    pub fn new(action: &str, body: Option<&str>, created_at: &Timestamp) -> (r: Activity)
        ensures
            r@ == (ActivityView { action: action@, body: opt_str(body), created_at: *created_at }),
    {
        Activity { action: String::from_str(action), body: copy_opt_str(body), created_at: *created_at }
    }
}

/// A tracked object, as values.
pub struct ObjectView {
    pub id: Seq<char>,
    pub object_type: GithubObjectType,
    pub link: Seq<char>,
    pub title: Option<Seq<char>>,
    pub activities: Seq<ActivityView>,
}

/// The views of a sequence of activities.
pub open spec fn activity_views(s: Seq<Activity>) -> Seq<ActivityView> {
    s.map_values(|a: Activity| a@)
}

/// An issue, pull request or commit that activity was seen on, with that
/// activity in the order it was found.
#[derive(Debug)]
pub struct GithubObject {
    pub id: String,
    pub object_type: GithubObjectType,
    pub link: String,
    pub title: Option<String>,
    pub activities: Vec<Activity>,
}

impl View for GithubObject {
    type V = ObjectView;

    open spec fn view(&self) -> ObjectView {
        ObjectView {
            id: self.id@,
            object_type: self.object_type,
            link: self.link@,
            title: opt_text(self.title),
            activities: activity_views(self.activities@),
        }
    }
}

impl GithubObject {
    /// An object with no activity yet.
    pub fn new(id: &str, obj_type: GithubObjectType, link: &str, title: Option<&str>) -> (r: GithubObject)
        ensures
            r@ == (ObjectView {
                id: id@,
                object_type: obj_type,
                link: link@,
                title: opt_str(title),
                activities: Seq::empty(),
            }),
    {
        let r = GithubObject {
            id: String::from_str(id),
            object_type: obj_type,
            link: String::from_str(link),
            title: copy_opt_str(title),
            activities: Vec::new(),
        };
        assert(activity_views(r.activities@) =~= Seq::empty());
        r
    }
}

/// `o` with `a` appended to its activities.
pub open spec fn with_activity(o: ObjectView, a: ActivityView) -> ObjectView {
    ObjectView {
        id: o.id,
        object_type: o.object_type,
        link: o.link,
        title: o.title,
        activities: o.activities.push(a),
    }
}

/// The objects of one repository, as values.
pub struct RepoView {
    pub name: Seq<char>,
    pub objects: Seq<ObjectView>,
}

/// No two objects share an id.
pub open spec fn objects_wf(objs: Seq<ObjectView>) -> bool {
    forall|i: int, j: int| 0 <= i < j < objs.len() ==> objs[i].id != objs[j].id
}

/// No two repositories share a name, and within each no two objects share an id.
pub open spec fn index_wf(idx: Seq<RepoView>) -> bool {
    &&& forall|i: int, j: int| 0 <= i < j < idx.len() ==> idx[i].name != idx[j].name
    &&& forall|i: int| 0 <= i < idx.len() ==> objects_wf(#[trigger] idx[i].objects)
}

/// Some object in `objs` has the id `id`.
pub open spec fn has_object(objs: Seq<ObjectView>, id: Seq<char>) -> bool {
    exists|j: int| 0 <= j < objs.len() && objs[j].id == id
}

/// The position of the object with the id `id`, where `has_object` holds.
pub open spec fn object_at(objs: Seq<ObjectView>, id: Seq<char>) -> int {
    choose|j: int| 0 <= j < objs.len() && objs[j].id == id
}

/// Some repository in `idx` has the name `repo`.
pub open spec fn has_repo(idx: Seq<RepoView>, repo: Seq<char>) -> bool {
    exists|i: int| 0 <= i < idx.len() && idx[i].name == repo
}

/// The position of the repository named `repo`, where `has_repo` holds.
pub open spec fn repo_at(idx: Seq<RepoView>, repo: Seq<char>) -> int {
    choose|i: int| 0 <= i < idx.len() && idx[i].name == repo
}

/// The object with the id `id` in the repository `repo`, if there is one.
pub open spec fn lookup(idx: Seq<RepoView>, repo: Seq<char>, id: Seq<char>) -> Option<ObjectView> {
    if has_repo(idx, repo) {
        let objs = idx[repo_at(idx, repo)].objects;
        if has_object(objs, id) {
            Some(objs[object_at(objs, id)])
        } else {
            None
        }
    } else {
        None
    }
}

/// `objs` after `a` is recorded against the object of `o`'s id: appended to
/// the object already there, or to `o`, which is added last.
pub open spec fn objects_with(objs: Seq<ObjectView>, o: ObjectView, a: ActivityView) -> Seq<ObjectView> {
    if has_object(objs, o.id) {
        let j = object_at(objs, o.id);
        objs.update(j, with_activity(objs[j], a))
    } else {
        objs.push(with_activity(o, a))
    }
}

/// `idx` after `a` is recorded in the repository `repo` against the object
/// of `o`'s id. The object and the repository are created on first sight; an
/// object already there keeps its type, link and title.
pub open spec fn applied(idx: Seq<RepoView>, repo: Seq<char>, o: ObjectView, a: ActivityView) -> Seq<RepoView> {
    if has_repo(idx, repo) {
        let i = repo_at(idx, repo);
        idx.update(i, RepoView { name: repo, objects: objects_with(idx[i].objects, o, a) })
    } else {
        idx.push(RepoView { name: repo, objects: seq![with_activity(o, a)] })
    }
}

/// Recording an activity keeps the object ids of a repository distinct.
proof fn lemma_objects_with_wf(objs: Seq<ObjectView>, o: ObjectView, a: ActivityView)
    requires
        objects_wf(objs),
    ensures
        objects_wf(objects_with(objs, o, a)),
{
    let n = objects_with(objs, o, a);
    if has_object(objs, o.id) {
        assert forall|x: int, y: int| 0 <= x < y < n.len() implies n[x].id != n[y].id by {
            assert(objs[x].id != objs[y].id);
        }
    } else {
        assert forall|x: int, y: int| 0 <= x < y < n.len() implies n[x].id != n[y].id by {
            if y == objs.len() {
                assert(objs[x].id != o.id);
            } else {
                assert(objs[x].id != objs[y].id);
            }
        }
    }
}

/// Recording an activity keeps repository names and object ids unique.
pub proof fn lemma_applied_wf(idx: Seq<RepoView>, repo: Seq<char>, o: ObjectView, a: ActivityView)
    requires
        index_wf(idx),
    ensures
        index_wf(applied(idx, repo, o, a)),
{
    let r = applied(idx, repo, o, a);
    if has_repo(idx, repo) {
        let i = repo_at(idx, repo);
        assert(objects_wf(idx[i].objects));
        lemma_objects_with_wf(idx[i].objects, o, a);
        assert forall|k: int| 0 <= k < r.len() implies objects_wf(#[trigger] r[k].objects) by {
            if k != i {
                assert(r[k] == idx[k]);
            }
        }
    } else {
        let n: Seq<ObjectView> = seq![with_activity(o, a)];
        assert(objects_wf(n));
        assert forall|x: int, y: int| 0 <= x < y < r.len() implies r[x].name != r[y].name by {
            if y == idx.len() {
                assert(idx[x].name != repo);
            }
        }
        assert forall|k: int| 0 <= k < r.len() implies objects_wf(#[trigger] r[k].objects) by {
            if k < idx.len() {
                assert(r[k] == idx[k]);
            }
        }
    }
}

/// In a well-formed index, the repository at `i` is the one `repo_at` names.
proof fn lemma_repo_at(idx: Seq<RepoView>, repo: Seq<char>, i: int)
    requires
        index_wf(idx),
        0 <= i < idx.len(),
        idx[i].name == repo,
    ensures
        has_repo(idx, repo),
        repo_at(idx, repo) == i,
{
    assert(has_repo(idx, repo));
    let c = repo_at(idx, repo);
    assert(idx[c].name == repo);
}

/// Among objects with distinct ids, the object at `j` is the one `object_at` names.
proof fn lemma_object_at(objs: Seq<ObjectView>, id: Seq<char>, j: int)
    requires
        objects_wf(objs),
        0 <= j < objs.len(),
        objs[j].id == id,
    ensures
        has_object(objs, id),
        object_at(objs, id) == j,
{
    assert(has_object(objs, id));
    let c = object_at(objs, id);
    assert(objs[c].id == id);
}

/// Looking up an object by id after `objects_with`: only the object of
/// `o`'s id changes, and it is there afterwards.
proof fn lemma_objects_with_lookup(objs: Seq<ObjectView>, o: ObjectView, a: ActivityView, id2: Seq<char>)
    requires
        objects_wf(objs),
    ensures
        objects_wf(objects_with(objs, o, a)),
        has_object(objects_with(objs, o, a), id2) == (has_object(objs, id2) || id2 == o.id),
        id2 == o.id ==> objects_with(objs, o, a)[object_at(objects_with(objs, o, a), id2)]
            == with_activity(if has_object(objs, o.id) { objs[object_at(objs, o.id)] } else { o }, a),
        id2 != o.id && has_object(objs, id2) ==> objects_with(objs, o, a)[object_at(objects_with(objs, o, a), id2)]
            == objs[object_at(objs, id2)],
{
    let n = objects_with(objs, o, a);
    lemma_objects_with_wf(objs, o, a);
    if has_object(objs, o.id) {
        let j = object_at(objs, o.id);
        if id2 == o.id {
            lemma_object_at(n, id2, j);
        } else if has_object(objs, id2) {
            let k = object_at(objs, id2);
            lemma_object_at(n, id2, k);
        } else {
            assert forall|x: int| 0 <= x < n.len() implies n[x].id != id2 by {
                if x != j {
                    assert(n[x] == objs[x]);
                }
            }
        }
    } else {
        if id2 == o.id {
            lemma_object_at(n, id2, objs.len() as int);
        } else if has_object(objs, id2) {
            let k = object_at(objs, id2);
            lemma_object_at(n, id2, k);
        } else {
            assert forall|x: int| 0 <= x < n.len() implies n[x].id != id2 by {
                if x < objs.len() {
                    assert(n[x] == objs[x]);
                }
            }
        }
    }
}

/// After an activity is recorded for `o` in `repo`, the object of `o`'s id
/// in `repo` is the one that was there before, or `o` where there was none,
/// with the activity appended; every other object is as it was.
pub proof fn lemma_applied_lookup(
    idx: Seq<RepoView>,
    repo: Seq<char>,
    o: ObjectView,
    a: ActivityView,
    repo2: Seq<char>,
    id2: Seq<char>,
)
    requires
        index_wf(idx),
    ensures
        lookup(applied(idx, repo, o, a), repo2, id2) == (if repo2 == repo && id2 == o.id {
            Some(with_activity(
                match lookup(idx, repo, o.id) {
                    Some(e) => e,
                    None => o,
                },
                a,
            ))
        } else {
            lookup(idx, repo2, id2)
        }),
{
    let r = applied(idx, repo, o, a);
    lemma_applied_wf(idx, repo, o, a);
    if has_repo(idx, repo) {
        let i = repo_at(idx, repo);
        let objs = idx[i].objects;
        assert(objects_wf(objs));
        if repo2 == repo {
            lemma_repo_at(r, repo, i);
            lemma_objects_with_lookup(objs, o, a, id2);
        } else if has_repo(idx, repo2) {
            let k = repo_at(idx, repo2);
            lemma_repo_at(r, repo2, k);
        } else {
            assert forall|x: int| 0 <= x < r.len() implies r[x].name != repo2 by {
                if x != i {
                    assert(r[x] == idx[x]);
                }
            }
        }
    } else {
        let objs: Seq<ObjectView> = Seq::empty();
        assert(objects_with(objs, o, a) =~= seq![with_activity(o, a)]);
        if repo2 == repo {
            lemma_repo_at(r, repo, idx.len() as int);
            lemma_objects_with_lookup(objs, o, a, id2);
        } else if has_repo(idx, repo2) {
            let k = repo_at(idx, repo2);
            lemma_repo_at(r, repo2, k);
        } else {
            assert forall|x: int| 0 <= x < r.len() implies r[x].name != repo2 by {
                if x < idx.len() {
                    assert(r[x] == idx[x]);
                }
            }
        }
    }
}

/// Two activities recorded in one repository for objects of the same id
/// leave one object that holds both, in the order recorded, and that keeps
/// the type, link and title of the first.
pub proof fn lemma_first_sighting_fixes_object(
    idx: Seq<RepoView>,
    repo: Seq<char>,
    first: ObjectView,
    a1: ActivityView,
    second: ObjectView,
    a2: ActivityView,
)
    requires
        index_wf(idx),
        lookup(idx, repo, first.id) is None,
        second.id == first.id,
    ensures
        index_wf(applied(applied(idx, repo, first, a1), repo, second, a2)),
        lookup(applied(applied(idx, repo, first, a1), repo, second, a2), repo, first.id) == Some(
            ObjectView {
                id: first.id,
                object_type: first.object_type,
                link: first.link,
                title: first.title,
                activities: first.activities + seq![a1, a2],
            },
        ),
{
    let mid = applied(idx, repo, first, a1);
    lemma_applied_lookup(idx, repo, first, a1, repo, first.id);
    lemma_applied_wf(idx, repo, first, a1);
    lemma_applied_lookup(mid, repo, second, a2, repo, first.id);
    lemma_applied_wf(mid, repo, second, a2);
    assert(first.activities.push(a1).push(a2) =~= first.activities + seq![a1, a2]);
}

/// The objects that activity was seen on in one repository.
#[derive(Debug)]
pub struct RepoActivities {
    pub repo_name: String,
    pub objects: Vec<GithubObject>,
}

/// The views of a sequence of objects.
pub open spec fn object_views(s: Seq<GithubObject>) -> Seq<ObjectView> {
    s.map_values(|o: GithubObject| o@)
}

impl View for RepoActivities {
    type V = RepoView;

    open spec fn view(&self) -> RepoView {
        RepoView { name: self.repo_name@, objects: object_views(self.objects@) }
    }
}

/// The views of a sequence of repositories.
pub open spec fn repo_views(s: Seq<RepoActivities>) -> Seq<RepoView> {
    s.map_values(|r: RepoActivities| r@)
}

/// All activity collected, grouped by repository and then by object id. For
/// each repository and id there is at most one object.
#[derive(Debug)]
pub struct GithubActivities {
    activity_objects: Vec<RepoActivities>,
}

impl View for GithubActivities {
    type V = Seq<RepoView>;

    closed spec fn view(&self) -> Seq<RepoView> {
        repo_views(self.activity_objects@)
    }
}

/// The position of the object with the id `id` in `objs`, if there is one.
fn find_object(objs: &Vec<GithubObject>, id: &str) -> (r: Option<usize>)
    ensures
        match r {
            Some(j) => j < objs@.len() && objs@[j as int].id@ == id@,
            None => forall|k: int| 0 <= k < objs@.len() ==> objs@[k].id@ != id@,
        },
{
    let mut j: usize = 0;
    while j < objs.len()
        invariant
            j <= objs@.len(),
            forall|k: int| 0 <= k < j ==> objs@[k].id@ != id@,
        decreases objs@.len() - j,
    {
        if str_eq(objs[j].id.as_str(), id) {
            return Some(j);
        }
        j = j + 1;
    }
    None
}

impl GithubActivities {
    /// No two repositories share a name, and no two objects of one
    /// repository share an id.
    pub open spec fn wf(&self) -> bool {
        index_wf(self@)
    }

    /// An empty index.
    pub fn new() -> (r: GithubActivities)
        ensures
            r@ == Seq::<RepoView>::empty(),
            r.wf(),
    {
        let r = GithubActivities { activity_objects: Vec::new() };
        assert(r@ =~= Seq::<RepoView>::empty());
        r
    }

    /// The repositories, in the order they were first seen.
    pub fn repositories(&self) -> (r: &Vec<RepoActivities>)
        ensures
            repo_views(r@) == self@,
    {
        &self.activity_objects
    }

    /// The object with the id `id` in the repository `repo_name`, if there
    /// is one.
    pub fn get(&self, repo_name: &str, id: &str) -> (r: Option<&GithubObject>)
        requires
            self.wf(),
        ensures
            match r {
                Some(o) => lookup(self@, repo_name@, id@) == Some(o@),
                None => lookup(self@, repo_name@, id@) is None,
            },
    {
        match self.find_repo(repo_name) {
            Some(i) => {
                proof {
                    lemma_repo_at(self@, repo_name@, i as int);
                }
                let objects = &self.activity_objects[i].objects;
                match find_object(objects, id) {
                    Some(j) => {
                        proof {
                            assert(objects_wf(self@[i as int].objects));
                            assert(object_views(objects@)[j as int] == objects@[j as int]@);
                            lemma_object_at(self@[i as int].objects, id@, j as int);
                        }
                        Some(&objects[j])
                    }
                    None => {
                        assert forall|k: int| 0 <= k < self@[i as int].objects.len() implies self@[i as int].objects[k].id != id@ by {
                            assert(object_views(objects@)[k] == objects@[k]@);
                        }
                        None
                    }
                }
            }
            None => None,
        }
    }

    /// The position of the repository named `repo_name`, if there is one.
    fn find_repo(&self, repo_name: &str) -> (r: Option<usize>)
        ensures
            match r {
                Some(i) => i < self@.len() && self@[i as int].name == repo_name@,
                None => !has_repo(self@, repo_name@),
            },
    {
        let mut i: usize = 0;
        while i < self.activity_objects.len()
            invariant
                i <= self@.len(),
                self@.len() == self.activity_objects@.len(),
                forall|k: int| 0 <= k < i ==> self@[k].name != repo_name@,
            decreases self@.len() - i,
        {
            if str_eq(self.activity_objects[i].repo_name.as_str(), repo_name) {
                return Some(i);
            }
            i = i + 1;
        }
        None
    }

    /// Records `activity` in the repository `repo_name` against the object
    /// with `object`'s id. Where no such object is there yet, `object` becomes
    /// it; where one is, it keeps its type, link and title and `object` is
    /// dropped.
    pub fn apply(&mut self, repo_name: &str, object: GithubObject, activity: Activity)
        requires
            old(self).wf(),
        ensures
            final(self)@ == applied(old(self)@, repo_name@, object@, activity@),
            final(self).wf(),
    {
        let ghost idx = self@;
        let ghost repos = self.activity_objects@;
        match self.find_repo(repo_name) {
            Some(i) => {
                proof {
                    let c = repo_at(idx, repo_name@);
                    assert(idx[c].name == repo_name@);
                    assert(c == i);
                }
                let ghost objs = idx[i as int].objects;
                let ghost objs_exec = repos[i as int].objects@;
                match find_object(&self.activity_objects[i].objects, object.id.as_str()) {
                    Some(j) => {
                        proof {
                            assert(objs[j as int].id == object@.id);
                            let c = object_at(objs, object@.id);
                            assert(objs[c].id == object@.id);
                            assert(objects_wf(idx[i as int].objects));
                            assert(c == j);
                        }
                        let ghost target = objs_exec[j as int];
                        self.activity_objects[i].objects[j].activities.push(activity);
                        proof {
                            let t = self.activity_objects@[i as int].objects@[j as int];
                            assert(activity_views(t.activities@) =~= activity_views(target.activities@).push(activity@));
                            assert(t@ == with_activity(objs[j as int], activity@));
                            assert(object_views(self.activity_objects@[i as int].objects@) =~= objs.update(j as int, with_activity(objs[j as int], activity@)));
                        }
                    }
                    None => {
                        proof {
                            assert(!has_object(objs, object@.id));
                        }
                        let mut o = object;
                        o.activities.push(activity);
                        proof {
                            assert(activity_views(o.activities@) =~= object@.activities.push(activity@));
                        }
                        self.activity_objects[i].objects.push(o);
                        proof {
                            assert(object_views(self.activity_objects@[i as int].objects@) =~= objs.push(with_activity(object@, activity@)));
                        }
                    }
                }
                assert(repo_views(self.activity_objects@) =~= idx.update(i as int, self.activity_objects@[i as int]@));
            }
            None => {
                let mut o = object;
                o.activities.push(activity);
                proof {
                    assert(activity_views(o.activities@) =~= object@.activities.push(activity@));
                }
                let mut objects = Vec::new();
                objects.push(o);
                let repo = RepoActivities { repo_name: String::from_str(repo_name), objects };
                assert(object_views(repo.objects@) =~= seq![with_activity(object@, activity@)]);
                self.activity_objects.push(repo);
                assert(repo_views(self.activity_objects@) =~= idx.push(repo@));
            }
        }
        assert(self@ =~= applied(idx, repo_name@, object@, activity@));
        proof {
            lemma_applied_wf(idx, repo_name@, object@, activity@);
        }
    }
}

/// `idx` after the event `e`: its activity recorded where it parses, `idx`
/// unchanged where it does not.
pub open spec fn event_step(idx: Seq<RepoView>, e: EventView) -> Seq<RepoView> {
    match event_outcome(e) {
        Ok((o, a)) => applied(idx, e.repo_name, o, a),
        Err(_) => idx,
    }
}

/// `idx` after the events, in order.
pub open spec fn aggregate(idx: Seq<RepoView>, events: Seq<EventView>) -> Seq<RepoView>
    decreases events.len(),
{
    if events.len() == 0 {
        idx
    } else {
        event_step(aggregate(idx, events.drop_last()), events.last())
    }
}

/// The type tags and faults of the events, in order, whose kind is grouped
/// but which do not parse.
pub open spec fn malformed_in(events: Seq<EventView>) -> Seq<(Seq<char>, EventFault)>
    decreases events.len(),
{
    if events.len() == 0 {
        Seq::empty()
    } else {
        let rest = malformed_in(events.drop_last());
        match event_outcome(events.last()) {
            Err(EventFault::Malformed(p)) => rest.push((events.last().type_tag, EventFault::Malformed(p))),
            _ => rest,
        }
    }
}

/// The views of a sequence of events.
pub open spec fn event_views(s: Seq<RawEvent>) -> Seq<EventView> {
    s.map_values(|e: RawEvent| e@)
}

/// The views of a sequence of errors.
pub open spec fn error_views(s: Seq<EventError>) -> Seq<(Seq<char>, EventFault)> {
    s.map_values(|e: EventError| e@)
}

/// An event whose type tag is not a grouped kind leaves the index as it is.
pub proof fn lemma_unknown_type_ignored(idx: Seq<RepoView>, e: EventView)
    requires
        kind_of(e.type_tag) is None,
    ensures
        event_step(idx, e) == idx,
{
}

/// Events whose type tag is not a grouped kind can be dropped beforehand:
/// the index comes out the same.
pub proof fn lemma_unknown_types_filtered(idx: Seq<RepoView>, events: Seq<EventView>)
    ensures
        aggregate(idx, events) == aggregate(idx, events.filter(|e: EventView| kind_of(e.type_tag) is Some)),
    decreases events.len(),
{
    reveal(Seq::filter);
    if events.len() > 0 {
        lemma_unknown_types_filtered(idx, events.drop_last());
        let f = events.filter(|e: EventView| kind_of(e.type_tag) is Some);
        let g = events.drop_last().filter(|e: EventView| kind_of(e.type_tag) is Some);
        if kind_of(events.last().type_tag) is Some {
            assert(f == g.push(events.last()));
            assert(f.drop_last() =~= g);
        } else {
            assert(f == g);
        }
    }
}

impl GithubActivities {
    /// Records the activity of `raw_event` where it parses. An event whose
    /// kind is not grouped, or which lacks a field its kind needs, leaves the
    /// index unchanged and comes back as the error.
    pub fn append_activity(&mut self, raw_event: &RawEvent) -> (r: Result<(), EventError>)
        requires
            old(self).wf(),
        ensures
            final(self).wf(),
            final(self)@ == event_step(old(self)@, raw_event@),
            match r {
                Ok(()) => event_outcome(raw_event@) is Ok,
                Err(e) => e@.0 == raw_event@.type_tag && event_outcome(raw_event@) == Err::<
                    (ObjectView, ActivityView),
                    EventFault,
                >(e@.1),
            },
    {
        let (object, activity) = raw_event.parse()?;
        self.apply(raw_event.repo_name.as_str(), object, activity);
        Ok(())
    }

    /// Records the activity of each event in turn. Events whose kind is not
    /// grouped are passed over; those that lack a field their kind needs are
    /// passed over too and come back, in order.
    pub fn append_events(&mut self, raw_events: &Vec<RawEvent>) -> (r: Vec<EventError>)
        requires
            old(self).wf(),
        ensures
            final(self).wf(),
            final(self)@ == aggregate(old(self)@, event_views(raw_events@)),
            error_views(r@) == malformed_in(event_views(raw_events@)),
    {
        let ghost start = self@;
        let mut errors: Vec<EventError> = Vec::new();
        let mut i: usize = 0;
        while i < raw_events.len()
            invariant
                i <= raw_events@.len(),
                self.wf(),
                self@ == aggregate(start, event_views(raw_events@.subrange(0, i as int))),
                error_views(errors@) == malformed_in(event_views(raw_events@.subrange(0, i as int))),
            decreases raw_events@.len() - i,
        {
            let ghost before = errors@;
            let ghost done = event_views(raw_events@.subrange(0, i as int));
            let ghost next = event_views(raw_events@.subrange(0, i + 1));
            assert(next.drop_last() =~= done);
            assert(next.last() == raw_events@[i as int]@);
            match self.append_activity(&raw_events[i]) {
                Ok(()) => {}
                Err(e) => {
                    match e {
                        EventError::MalformedEvent { .. } => {
                            errors.push(e);
                            assert(error_views(errors@) =~= error_views(before).push(errors@[before.len() as int]@));
                        }
                        EventError::UnknownEventType { .. } => {}
                    }
                }
            }
            i = i + 1;
        }
        assert(raw_events@.subrange(0, raw_events@.len() as int) =~= raw_events@);
        errors
    }

    /// The index of a batch of events, and the events that lacked a field
    /// their kind needs.
    pub fn from_events(raw_events: &Vec<RawEvent>) -> (r: (GithubActivities, Vec<EventError>))
        ensures
            r.0.wf(),
            r.0@ == aggregate(Seq::empty(), event_views(raw_events@)),
            error_views(r.1@) == malformed_in(event_views(raw_events@)),
    {
        let mut activities = GithubActivities::new();
        let errors = activities.append_events(raw_events);
        (activities, errors)
    }
}

} // verus!
