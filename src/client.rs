//! The collector: which pages of the feed to ask for, and what each page
//! adds to the index. Fetching a page is left to the caller, who hands each
//! page back here and asks for the next until there is none.

use vstd::prelude::*;
use crate::activity::{aggregate, error_views, event_views, malformed_in, GithubActivities, RepoView};
use crate::event::{envelope, kind_of, EventError, EventFault, EventKind, EventView, RawEvent};
use crate::json::Json;
use crate::text::{decimal, push_decimal};
use crate::timestamp::{in_window, Timestamp};

verus! {

/// The last page of the feed that is asked for.
pub const LAST_PAGE: u32 = 9;

/// Whose feed is read, and with what credential, as values.
pub struct ClientView {
    pub user_name: Seq<char>,
    pub access_token: Seq<char>,
}

/// Whose feed is read, and with what credential.
pub struct ActivityClient {
    user_name: String,
    access_token: String,
}

impl View for ActivityClient {
    type V = ClientView;

    closed spec fn view(&self) -> ClientView {
        ClientView { user_name: self.user_name@, access_token: self.access_token@ }
    }
}

/// The endpoint of one page of a user's feed: all events, or the public
/// ones only.
pub open spec fn endpoint_text(user: Seq<char>, page: nat, include_private: bool) -> Seq<char> {
    "users/"@ + user + (if include_private {
        "/events?page="@
    } else {
        "/events/public?page="@
    }) + decimal(page)
}

impl ActivityClient {
    /// A client for `user_name`'s feed, read with `access_token`.
    pub fn new(user_name: &str, access_token: &str) -> (r: ActivityClient)
        ensures
            r@ == (ClientView { user_name: user_name@, access_token: access_token@ }),
    {
        ActivityClient { user_name: String::from_str(user_name), access_token: String::from_str(access_token) }
    }

    /// Whose feed is read.
    pub fn user_name(&self) -> (r: &str)
        ensures
            r@ == self@.user_name,
    {
        self.user_name.as_str()
    }

    /// The credential the feed is read with.
    pub fn access_token(&self) -> (r: &str)
        ensures
            r@ == self@.access_token,
    {
        self.access_token.as_str()
    }

    /// The endpoint of page `page` of this user's feed.
    pub fn endpoint(&self, page: u32, include_private: bool) -> (r: String)
        ensures
            r@ == endpoint_text(self@.user_name, page as nat, include_private),
    {
        let mut r = String::from_str("users/");
        r.append(self.user_name.as_str());
        if include_private {
            r.append("/events?page=");
        } else {
            r.append("/events/public?page=");
        }
        push_decimal(&mut r, page as u64);
        assert(r@ =~= endpoint_text(self@.user_name, page as nat, include_private));
        r
    }

    /// The endpoint of the page that `collection` waits for, or `None` once
    /// it is finished.
    pub fn next_request(&self, collection: &Collection) -> (r: Option<String>)
        ensures
            match r {
                Some(e) => !collection@.finished && e@ == endpoint_text(
                    self@.user_name,
                    collection@.next_page,
                    collection@.include_private,
                ),
                None => collection@.finished,
            },
    {
        if collection.finished {
            None
        } else {
            Some(self.endpoint(collection.next_page, collection.include_private))
        }
    }
}

/// The record is one of the grouped kinds and was made within `[from, to]`.
pub open spec fn kept(e: EventView, from: Timestamp, to: Timestamp) -> bool {
    kind_of(e.type_tag) is Some && in_window(e.created_at, from, to)
}

/// The records of a page that are grouped, in order: those of a grouped
/// kind made within `[from, to]`.
pub open spec fn page_kept(items: Seq<Json>, from: Timestamp, to: Timestamp) -> Seq<EventView>
    decreases items.len(),
{
    if items.len() == 0 {
        Seq::empty()
    } else {
        let rest = page_kept(items.drop_last(), from, to);
        match envelope(items.last()) {
            Ok(e) => if kept(e, from, to) {
                rest.push(e)
            } else {
                rest
            },
            Err(_) => rest,
        }
    }
}

/// The records of a page, in order, that lack a type tag, a repository
/// name or a creation time.
pub open spec fn page_rejects(items: Seq<Json>) -> Seq<(Seq<char>, EventFault)>
    decreases items.len(),
{
    if items.len() == 0 {
        Seq::empty()
    } else {
        let rest = page_rejects(items.drop_last());
        match envelope(items.last()) {
            Ok(_) => rest,
            Err((tag, field)) => rest.push((tag, EventFault::Malformed(field))),
        }
    }
}

/// A collection in progress, as values.
pub struct CollectionView {
    pub from: Timestamp,
    pub to: Timestamp,
    pub include_private: bool,
    pub next_page: nat,
    pub finished: bool,
    pub activities: Seq<RepoView>,
    pub skipped: Seq<(Seq<char>, EventFault)>,
}

/// `c` after the page with the records `items`. The grouped records are
/// recorded in the order given; records that lack a field are skipped and
/// noted, first those without a type tag, repository name or creation time,
/// then those of a grouped kind that lack a field that kind needs. The
/// collection is finished when the page had no grouped record or was the
/// last that is asked for.
pub open spec fn after_page(c: CollectionView, items: Seq<Json>) -> CollectionView {
    let kept = page_kept(items, c.from, c.to);
    CollectionView {
        from: c.from,
        to: c.to,
        include_private: c.include_private,
        next_page: c.next_page + 1,
        finished: kept.len() == 0 || c.next_page >= LAST_PAGE,
        activities: aggregate(c.activities, kept),
        skipped: c.skipped + page_rejects(items) + malformed_in(kept),
    }
}

/// Why a page could not be read.
#[derive(Debug, PartialEq, Eq, Structural)]
pub enum PageError {
    /// The page is not an array of records.
    NotAnArray,
}

/// The collection of the events of a time window, page by page.
pub struct Collection {
    from: Timestamp,
    to: Timestamp,
    include_private: bool,
    next_page: u32,
    finished: bool,
    activities: GithubActivities,
    skipped: Vec<EventError>,
}

impl View for Collection {
    type V = CollectionView;

    closed spec fn view(&self) -> CollectionView {
        CollectionView {
            from: self.from,
            to: self.to,
            include_private: self.include_private,
            next_page: self.next_page as nat,
            finished: self.finished,
            activities: self.activities@,
            skipped: error_views(self.skipped@),
        }
    }
}

impl Collection {
    /// The index is well formed, and a collection that is not finished waits
    /// for a page from the first to the last that is asked for.
    pub closed spec fn wf(&self) -> bool {
        &&& self.activities.wf()
        &&& 1 <= self.next_page
        &&& !self.finished ==> self.next_page <= LAST_PAGE
    }

    /// A collection of the events made within `[from, to]`, both ends
    /// included, from all events or from the public ones only. It waits for
    /// the first page.
    pub fn new(from: &Timestamp, to: &Timestamp, include_private: bool) -> (r: Collection)
        ensures
            r.wf(),
            r@ == (CollectionView {
                from: *from,
                to: *to,
                include_private,
                next_page: 1,
                finished: false,
                activities: Seq::empty(),
                skipped: Seq::empty(),
            }),
    {
        let r = Collection {
            from: *from,
            to: *to,
            include_private,
            next_page: 1,
            finished: false,
            activities: GithubActivities::new(),
            skipped: Vec::new(),
        };
        assert(error_views(r.skipped@) =~= Seq::empty());
        r
    }

    /// Whether no more pages are needed.
    pub fn is_finished(&self) -> (r: bool)
        ensures
            r == self@.finished,
    {
        self.finished
    }

    /// The page that is waited for.
    pub fn next_page(&self) -> (r: u32)
        ensures
            r == self@.next_page,
    {
        self.next_page
    }

    /// Takes in the page that is waited for. A page that is not an array is
    /// refused and changes nothing; once finished, a page changes nothing.
    pub fn on_page(&mut self, page: Json) -> (r: Result<(), PageError>)
        requires
            old(self).wf(),
        ensures
            final(self).wf(),
            old(self)@.finished ==> r is Ok && final(self)@ == old(self)@,
            !old(self)@.finished ==> match page {
                Json::Array(items) => r is Ok && final(self)@ == after_page(old(self)@, items@),
                _ => r == Err::<(), PageError>(PageError::NotAnArray) && final(self)@ == old(self)@,
            },
    {
        if self.finished {
            return Ok(());
        }
        let items = match page {
            Json::Array(items) => items,
            _ => {
                return Err(PageError::NotAnArray);
            }
        };
        let ghost all = items@;
        let ghost start = self@;
        let mut kept: Vec<RawEvent> = Vec::new();
        let mut rejects: Vec<EventError> = Vec::new();
        let ghost mut n: int = 0;
        for item in it: items.into_iter()
            invariant
                it.seq() == all,
                n == it.index(),
                0 <= n <= all.len(),
                event_views(kept@) == page_kept(all.subrange(0, n), start.from, start.to),
                error_views(rejects@) == page_rejects(all.subrange(0, n)),
                self.from == start.from,
                self.to == start.to,
        {
            let ghost done = all.subrange(0, n);
            assert(all.subrange(0, n + 1).drop_last() =~= done);
            assert(all.subrange(0, n + 1).last() == item);
            let ghost kept_before = kept@;
            let ghost rejects_before = rejects@;
            match RawEvent::from_json(item) {
                Ok(e) => {
                    if EventKind::from_type_tag(e.type_tag.as_str()).is_some()
                        && e.created_at.within(&self.from, &self.to) {
                        kept.push(e);
                        assert(event_views(kept@) =~= event_views(kept_before).push(kept@[kept_before.len() as int]@));
                    }
                }
                Err(e) => {
                    rejects.push(e);
                    assert(error_views(rejects@) =~= error_views(rejects_before).push(rejects@[rejects_before.len() as int]@));
                }
            }
            proof {
                n = n + 1;
            }
        }
        assert(all.subrange(0, all.len() as int) =~= all);
        let ghost skipped_before = self.skipped@;
        let mut malformed = self.activities.append_events(&kept);
        let ghost rejected = rejects@;
        let ghost malformed_found = malformed@;
        self.skipped.append(&mut rejects);
        self.skipped.append(&mut malformed);
        assert(self.skipped@ =~= skipped_before + rejected + malformed_found);
        assert(error_views(self.skipped@) =~= error_views(skipped_before) + error_views(rejected) + error_views(
            malformed_found,
        ));
        self.finished = kept.len() == 0 || self.next_page >= LAST_PAGE;
        self.next_page = self.next_page + 1;
        Ok(())
    }

    /// The index collected, and the records that were skipped for lacking a
    /// field, in the order met.
    pub fn finish(self) -> (r: (GithubActivities, Vec<EventError>))
        requires
            self.wf(),
        ensures
            r.0.wf(),
            r.0@ == self@.activities,
            error_views(r.1@) == self@.skipped,
    {
        (self.activities, self.skipped)
    }
}

} // verus!
