//! The markdown summary: a heading per repository, a line per object, and
//! under it a line per activity, earliest first.

use vstd::prelude::*;
use crate::activity::{
    activity_views, object_views, repo_views, type_label, Activity, ActivityView, GithubActivities,
    GithubObject, ObjectView, RepoView,
};
use crate::text::{shorten_body, shortened};
use crate::timestamp::{ts_le, Timestamp};

verus! {

/// The line of one activity: its action, and its body as `shortened` gives
/// it where there is one.
pub open spec fn activity_md(a: ActivityView) -> Seq<char> {
    "- "@ + a.action + (match a.body {
        Some(b) => ": "@ + shortened(b),
        None => Seq::empty(),
    }) + "\n"@
}

/// `s`, which is ordered by time, with `a` put after every activity that is
/// not later than it.
pub open spec fn insert_by_time(s: Seq<ActivityView>, a: ActivityView) -> Seq<ActivityView>
    decreases s.len(),
{
    if s.len() == 0 {
        seq![a]
    } else if ts_le(s.last().created_at, a.created_at) {
        s.push(a)
    } else {
        insert_by_time(s.drop_last(), a).push(s.last())
    }
}

/// `s` ordered by creation time, earliest first; activities made at the
/// same time keep their order.
pub open spec fn sort_by_time(s: Seq<ActivityView>) -> Seq<ActivityView>
    decreases s.len(),
{
    if s.len() == 0 {
        s
    } else {
        insert_by_time(sort_by_time(s.drop_last()), s.last())
    }
}

/// The activities are ordered by creation time, earliest first.
pub open spec fn ordered_by_time(s: Seq<ActivityView>) -> bool {
    forall|i: int, j: int| 0 <= i < j < s.len() ==> ts_le(s[i].created_at, s[j].created_at)
}

/// Inserting keeps every activity at or before `bound` when all were.
proof fn lemma_insert_bounded(s: Seq<ActivityView>, a: ActivityView, bound: Timestamp)
    requires
        forall|k: int| 0 <= k < s.len() ==> ts_le(#[trigger] s[k].created_at, bound),
        ts_le(a.created_at, bound),
    ensures
        insert_by_time(s, a).len() == s.len() + 1,
        forall|k: int| 0 <= k < s.len() + 1 ==> ts_le(#[trigger] insert_by_time(s, a)[k].created_at, bound),
    decreases s.len(),
{
    if s.len() > 0 && !ts_le(s.last().created_at, a.created_at) {
        lemma_insert_bounded(s.drop_last(), a, bound);
    }
}

/// Inserting into an ordered sequence keeps it ordered.
proof fn lemma_insert_ordered(s: Seq<ActivityView>, a: ActivityView)
    requires
        ordered_by_time(s),
    ensures
        insert_by_time(s, a).len() == s.len() + 1,
        ordered_by_time(insert_by_time(s, a)),
    decreases s.len(),
{
    if s.len() > 0 {
        let last = s.last();
        assert forall|k: int| 0 <= k < s.len() - 1 implies ts_le(#[trigger] s[k].created_at, last.created_at) by {
            assert(ts_le(s[k].created_at, s[s.len() - 1].created_at));
        }
        if !ts_le(last.created_at, a.created_at) {
            let rest = s.drop_last();
            lemma_insert_ordered(rest, a);
            lemma_insert_bounded(rest, a, last.created_at);
            let r = insert_by_time(s, a);
            let inner = insert_by_time(rest, a);
            assert(r == inner.push(last));
            assert forall|i: int, j: int| 0 <= i < j < r.len() implies ts_le(r[i].created_at, r[j].created_at) by {
                if j == r.len() - 1 {
                    assert(ts_le(inner[i].created_at, last.created_at));
                } else {
                    assert(ts_le(inner[i].created_at, inner[j].created_at));
                }
            }
        } else {
            let r = s.push(a);
            assert forall|i: int, j: int| 0 <= i < j < r.len() implies ts_le(r[i].created_at, r[j].created_at) by {
                if j == r.len() - 1 {
                    if i < s.len() - 1 {
                        assert(ts_le(s[i].created_at, last.created_at));
                    }
                } else {
                    assert(ts_le(s[i].created_at, s[j].created_at));
                }
            }
        }
    }
}

/// `sort_by_time` orders activities by creation time and keeps their number.
pub proof fn lemma_sort_by_time_ordered(s: Seq<ActivityView>)
    ensures
        sort_by_time(s).len() == s.len(),
        ordered_by_time(sort_by_time(s)),
    decreases s.len(),
{
    if s.len() > 0 {
        lemma_sort_by_time_ordered(s.drop_last());
        lemma_insert_ordered(sort_by_time(s.drop_last()), s.last());
    }
}

/// The lines of activities, in the order given, each indented.
pub open spec fn activities_md(s: Seq<ActivityView>) -> Seq<char>
    decreases s.len(),
{
    if s.len() == 0 {
        Seq::empty()
    } else {
        activities_md(s.drop_last()) + "  "@ + activity_md(s.last())
    }
}

/// The line of an object, with the lines of its activities below it, earliest first.
pub open spec fn object_md(o: ObjectView) -> Seq<char> {
    "- ["@ + type_label(o.object_type) + " ["@ + o.id + "]("@ + o.link + ")] "@ + (match o.title {
        Some(t) => t,
        None => Seq::empty(),
    }) + "\n"@ + activities_md(sort_by_time(o.activities))
}

/// The markdown of objects, in the order given.
pub open spec fn objects_md(s: Seq<ObjectView>) -> Seq<char>
    decreases s.len(),
{
    if s.len() == 0 {
        Seq::empty()
    } else {
        objects_md(s.drop_last()) + object_md(s.last())
    }
}

/// The markdown of repositories, in the order given, each under a heading.
pub open spec fn repos_md(s: Seq<RepoView>) -> Seq<char>
    decreases s.len(),
{
    if s.len() == 0 {
        Seq::empty()
    } else {
        repos_md(s.drop_last()) + "## "@ + s.last().name + "\n"@ + objects_md(s.last().objects)
    }
}

/// `insert_by_time` puts `a` at `p` where every activity from `p` on is
/// later than `a` and the one before `p`, if any, is not.
proof fn lemma_insert_at(s: Seq<ActivityView>, a: ActivityView, p: int)
    requires
        0 <= p <= s.len(),
        forall|k: int| p <= k < s.len() ==> !ts_le(#[trigger] s[k].created_at, a.created_at),
        p == 0 || ts_le(s[p - 1].created_at, a.created_at),
    ensures
        insert_by_time(s, a) == s.subrange(0, p).push(a) + s.subrange(p, s.len() as int),
    decreases s.len(),
{
    if s.len() == p {
        assert(s.subrange(0, p) =~= s);
        assert(s.subrange(0, p).push(a) + s.subrange(p, s.len() as int) =~= s.push(a));
    } else {
        lemma_insert_at(s.drop_last(), a, p);
        assert(s.drop_last().subrange(0, p) =~= s.subrange(0, p));
        assert(s.subrange(0, p).push(a) + s.subrange(p, s.len() as int) =~= (s.subrange(0, p).push(a)
            + s.drop_last().subrange(p, s.len() - 1)).push(s.last()));
    }
}

/// The views of a sequence of borrowed activities.
pub open spec fn ref_views(s: Seq<&Activity>) -> Seq<ActivityView> {
    s.map_values(|a: &Activity| a@)
}

/// The activities, ordered by creation time, earliest first; those made at
/// the same time keep their order.
pub fn sorted_by_time(activities: &Vec<Activity>) -> (r: Vec<&Activity>)
    ensures
        ref_views(r@) == sort_by_time(activity_views(activities@)),
{
    let ghost all = activity_views(activities@);
    let mut sorted: Vec<&Activity> = Vec::new();
    let mut i: usize = 0;
    assert(all.subrange(0, 0) =~= Seq::<ActivityView>::empty());
    while i < activities.len()
        invariant
            i <= activities@.len(),
            all == activity_views(activities@),
            ref_views(sorted@) == sort_by_time(all.subrange(0, i as int)),
        decreases activities@.len() - i,
    {
        let a = &activities[i];
        let ghost s = ref_views(sorted@);
        let mut p: usize = sorted.len();
        while p > 0 && !sorted[p - 1].created_at.at_or_before(&a.created_at)
            invariant
                p <= sorted@.len(),
                s == ref_views(sorted@),
                forall|k: int| p <= k < s.len() ==> !ts_le(#[trigger] s[k].created_at, a.created_at),
            decreases p,
        {
            p = p - 1;
        }
        proof {
            lemma_insert_at(s, a@, p as int);
            assert(all.subrange(0, i + 1).drop_last() =~= all.subrange(0, i as int));
        }
        sorted.insert(p, a);
        assert(ref_views(sorted@) =~= s.subrange(0, p as int).push(a@) + s.subrange(p as int, s.len() as int));
        i = i + 1;
    }
    assert(all.subrange(0, activities@.len() as int) =~= all);
    sorted
}

/// Renders as markdown.
pub trait Markdown {
    /// The markdown text.
    spec fn markdown(&self) -> Seq<char>;

    /// Appends the markdown text to `out`.
    fn write_markdown(&self, out: &mut String)
        ensures
            final(out)@ == old(out)@ + self.markdown(),
    ;
}

impl Markdown for Activity {
    open spec fn markdown(&self) -> Seq<char> {
        activity_md(self@)
    }

    fn write_markdown(&self, out: &mut String) {
        out.append("- ");
        out.append(self.action.as_str());
        match &self.body {
            Some(b) => {
                out.append(": ");
                out.append(shorten_body(b.as_str()).as_str());
            }
            None => {}
        }
        out.append("\n");
        assert(out@ =~= old(out)@ + activity_md(self@));
    }
}

impl Markdown for GithubObject {
    open spec fn markdown(&self) -> Seq<char> {
        object_md(self@)
    }

    fn write_markdown(&self, out: &mut String) {
        out.append("- [");
        out.append(self.object_type.value());
        out.append(" [");
        out.append(self.id.as_str());
        out.append("](");
        out.append(self.link.as_str());
        out.append(")] ");
        match &self.title {
            Some(t) => out.append(t.as_str()),
            None => {}
        }
        out.append("\n");
        let ghost head = out@;
        let sorted = sorted_by_time(&self.activities);
        let ghost acts = ref_views(sorted@);
        let mut i: usize = 0;
        assert(acts.subrange(0, 0) =~= Seq::<ActivityView>::empty());
        while i < sorted.len()
            invariant
                i <= sorted@.len(),
                acts == ref_views(sorted@),
                out@ == head + activities_md(acts.subrange(0, i as int)),
            decreases sorted@.len() - i,
        {
            let ghost before = out@;
            out.append("  ");
            sorted[i].write_markdown(out);
            assert(acts.subrange(0, i + 1).drop_last() =~= acts.subrange(0, i as int));
            assert(out@ =~= before + "  "@ + activity_md(acts[i as int]));
            i = i + 1;
        }
        assert(acts.subrange(0, sorted@.len() as int) =~= acts);
        assert(out@ =~= old(out)@ + object_md(self@));
    }
}

impl Markdown for GithubActivities {
    open spec fn markdown(&self) -> Seq<char> {
        repos_md(self@)
    }

    fn write_markdown(&self, out: &mut String) {
        let repos = self.repositories();
        let ghost rv = repo_views(repos@);
        let mut i: usize = 0;
        assert(rv.subrange(0, 0) =~= Seq::<RepoView>::empty());
        while i < repos.len()
            invariant
                i <= repos@.len(),
                rv == repo_views(repos@),
                out@ == old(out)@ + repos_md(rv.subrange(0, i as int)),
            decreases repos@.len() - i,
        {
            let repo = &repos[i];
            out.append("## ");
            out.append(repo.repo_name.as_str());
            out.append("\n");
            let ghost head = out@;
            let ghost ov = object_views(repo.objects@);
            let mut j: usize = 0;
            assert(ov.subrange(0, 0) =~= Seq::<ObjectView>::empty());
            while j < repo.objects.len()
                invariant
                    j <= repo.objects@.len(),
                    ov == object_views(repo.objects@),
                    out@ == head + objects_md(ov.subrange(0, j as int)),
                decreases repo.objects@.len() - j,
            {
                let ghost before = out@;
                repo.objects[j].write_markdown(out);
                assert(ov.subrange(0, j + 1).drop_last() =~= ov.subrange(0, j as int));
                assert(out@ =~= before + object_md(ov[j as int]));
                j = j + 1;
            }
            assert(ov.subrange(0, repo.objects@.len() as int) =~= ov);
            assert(rv.subrange(0, i + 1).drop_last() =~= rv.subrange(0, i as int));
            assert(rv[i as int] == repo@);
            assert(out@ =~= old(out)@ + repos_md(rv.subrange(0, i + 1)));
            i = i + 1;
        }
        assert(rv.subrange(0, repos@.len() as int) =~= rv);
    }
}

/// The markdown summary of an index.
pub fn to_markdown(activities: &GithubActivities) -> (r: String)
    ensures
        r@ == repos_md(activities@),
{
    let mut out = String::new();
    activities.write_markdown(&mut out);
    assert(out@ =~= repos_md(activities@));
    out
}

} // verus!
