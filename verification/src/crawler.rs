//! The crawl itself: a state machine over the frontier queue, the seen-set
//! and the result collection.
//!
//! The machine owns every decision of the traversal — what to fetch next,
//! which hrefs to keep, when a link is recorded, when the crawl is done —
//! while the network work it needs is handed out as [`Action`] values and
//! answered with [`Event`] values by the caller. One network request is
//! outstanding at a time, so the traversal order is exactly the sequential
//! breadth-first order.

use vstd::prelude::*;

use crate::html::anchors_of;
use crate::html::extract_anchor_hrefs;
use crate::urls::parse_abs_url;
use crate::urls::resolve_href;
use crate::urls::skip_href;
use crate::urls::spec_resolve;
use crate::urls::spec_skip_href;
use crate::urls::url_host;
use crate::urls::url_norm;
use crate::urls::wf_parts;
use crate::urls::UrlParts;

verus! {

/// A discovered link together with the outcome of its liveness check.
///
/// `status` is the numeric HTTP status obtained for the link; it is absent
/// only when every check attempt failed at the transport level, never
/// because of a non-success HTTP response. `ok` records whether a status
/// was obtained and it is numerically below 400.
pub struct LinkResult {
    pub url: String,
    pub status: Option<u16>,
    pub ok: bool,
}

/// Whether a liveness-check outcome counts as healthy: a status was
/// obtained and it is numerically below 400.
pub open spec fn spec_status_ok(status: Option<u16>) -> bool {
    status is Some && status->0 < 400
}

/// Computes the `ok` field of a [`LinkResult`] from its status.
pub fn status_ok(status: Option<u16>) -> (r: bool)
    ensures
        r == spec_status_ok(status),
{
    match status {
        Some(s) => s < 400,
        None => false,
    }
}

/// The only failures the caller of a crawl sees: everything past
/// construction is absorbed into skipped pages or absent statuses.
#[derive(Clone, Copy, Debug, PartialEq, Eq, Structural)]
pub enum CrawlError {
    /// The seed string does not parse as an absolute URL.
    InvalidSeed,
}

/// A frontier entry: a page still to be fetched, and its distance in hops
/// from the seed.
pub struct FrontierItem {
    pub url: String,
    pub depth: usize,
}

/// The next piece of network work the crawl needs from its caller.
pub enum Action {
    /// GET the page at `url` and hand back its body text with
    /// [`Event::PageFetched`]; `depth` is its distance from the seed.
    FetchPage { url: String, depth: usize },
    /// Issue a HEAD request to `url` and hand back the status with
    /// [`Event::HeadChecked`].
    HeadLink { url: String },
    /// Issue a GET request to `url` and hand back the status with
    /// [`Event::GetChecked`].
    GetLink { url: String },
    /// The frontier is empty: the crawl is complete.
    Finished,
}

/// The outcome of the network work a previous [`Action`] asked for.
pub enum Event {
    /// The body text of the requested page; `None` when the fetch failed
    /// at the transport level.
    PageFetched { body: Option<String> },
    /// The status of the requested HEAD; `None` when the request failed at
    /// the transport level.
    HeadChecked { status: Option<u16> },
    /// The status of the requested fallback GET; `None` when the request
    /// failed at the transport level.
    GetChecked { status: Option<u16> },
}

/// Where the crawl stands between two pieces of network work.
pub enum Phase {
    /// Waiting for the outcome of the seed's own HEAD check, which is
    /// observed but never recorded as a result.
    SeedHead,
    /// The seed's HEAD failed; waiting for the fallback GET on the seed.
    SeedGet,
    /// Ready to fetch the frontier's front page, or to finish.
    Ready,
    /// Working through the new links of the page just fetched: the links
    /// at positions below `idx` are already recorded, the one at `idx` is
    /// being checked (by HEAD, or by GET when `awaiting_get` is set), and
    /// `depth` is the fetched page's distance from the seed.
    Checking { depth: usize, pending: Vec<String>, idx: usize, awaiting_get: bool },
}

/// The crawl state machine.
pub struct Crawler {
    /// The parsed seed: the root of the traversal and the source of the
    /// host every discovered link is scoped to.
    pub seed: UrlParts,
    /// The depth budget: links found on pages at this distance from the
    /// seed are checked but not recursed into.
    pub max_depth: usize,
    /// Every URL ever enqueued or checked, the seed included.
    pub seen: Vec<String>,
    /// One entry per distinct discovered link, in discovery order.
    pub results: Vec<LinkResult>,
    /// The breadth-first frontier of pages still to be fetched.
    pub queue: std::collections::VecDeque<FrontierItem>,
    /// Where the crawl stands.
    pub phase: Phase,
}

impl Crawler {
    /// Whether `u` is in the seen-set.
    pub open spec fn seen_contains(self, u: Seq<char>) -> bool {
        self.seen.deep_view().contains(u)
    }

    /// Whether a result for `u` has already been recorded.
    pub open spec fn result_recorded(self, u: Seq<char>) -> bool {
        exists|i: int| 0 <= i < self.results@.len() && self.results@[i].url@ == u
    }

    /// What holds of every URL the traversal handles past the seed: it is
    /// a normalized absolute URL, on the seed's host, and in the seen-set.
    pub open spec fn wf_link(self, u: Seq<char>) -> bool {
        &&& url_norm(u) == Some(u)
        &&& url_host(u) == url_host(self.seed.url@)
        &&& self.seen_contains(u)
    }

    /// The crawl invariant. Everything the results promise — absolute
    /// same-host URLs, no duplicates, `ok` tied to the status — is a
    /// consequence of this holding in every reachable state.
    pub open spec fn inv(self) -> bool {
        &&& wf_parts(self.seed)
        &&& self.seen_contains(self.seed.url@)
        &&& forall|i: int, j: int|
            0 <= i < j < self.seen@.len() ==> self.seen@[i]@ != self.seen@[j]@
        &&& forall|i: int|
            0 <= i < self.results@.len() ==> {
                let r = #[trigger] self.results@[i];
                &&& r.ok == spec_status_ok(r.status)
                &&& self.wf_link(r.url@)
                &&& r.url@ != self.seed.url@
            }
        &&& forall|i: int, j: int|
            0 <= i < j < self.results@.len() ==> self.results@[i].url@ != self.results@[j].url@
        &&& forall|i: int|
            0 <= i < self.queue@.len() ==> {
                let it = #[trigger] self.queue@[i];
                &&& it.depth <= self.max_depth
                &&& self.wf_link(it.url@)
                &&& (it.depth == 0 ==> it.url@ == self.seed.url@)
            }
        &&& self.phase matches Phase::Checking { depth, pending, idx, .. }
            ==> self.checking_inv(depth, pending, idx)
    }

    /// What holds of the pending links of a page while they are worked
    /// through: the unprocessed ones (from `idx` on) are well-formed
    /// same-host links, none is recorded yet, none is the seed, and no two
    /// are equal — so recording each in turn keeps the results duplicate
    /// free.
    pub open spec fn checking_inv(self, depth: usize, pending: Vec<String>, idx: usize) -> bool {
        &&& idx < pending@.len()
        &&& depth <= self.max_depth
        &&& forall|j: int| idx <= j < pending@.len() ==> self.wf_link(#[trigger] pending@[j]@)
        &&& forall|j: int|
            idx <= j < pending@.len() ==> !self.result_recorded(#[trigger] pending@[j]@)
        &&& forall|j: int|
            idx <= j < pending@.len() ==> #[trigger] pending@[j]@ != self.seed.url@
        &&& forall|j: int, k: int|
            idx <= j < k < pending@.len() ==> pending@[j]@ != pending@[k]@
    }

    /// What becomes of one href found on the page `base`, given the host
    /// links are scoped to and the URLs seen so far: an href that is
    /// skipped, fails to resolve, leaves the host, or repeats an
    /// already-seen URL yields nothing; any other yields its resolved URL.
    pub open spec fn spec_keep_href(
        base: Seq<char>,
        host: Option<Seq<char>>,
        seen: Seq<Seq<char>>,
        href: Seq<char>,
    ) -> Option<Seq<char>> {
        if spec_skip_href(href) {
            None
        } else {
            match spec_resolve(base, href) {
                Option::None => None,
                Option::Some(u) => if url_host(u) == host && !seen.contains(u) {
                    Some(u)
                } else {
                    None
                },
            }
        }
    }

    /// What one page contributes: walking its anchors left to right, each
    /// kept href's resolved URL enters the seen-set at once — so a later
    /// equal href on the same page is a repeat — and joins the pending
    /// list. Yields the grown seen-set and the pending list.
    pub open spec fn spec_collect(
        base: Seq<char>,
        host: Option<Seq<char>>,
        seen: Seq<Seq<char>>,
        anchors: Seq<Seq<char>>,
    ) -> (Seq<Seq<char>>, Seq<Seq<char>>)
        decreases anchors.len(),
    {
        if anchors.len() == 0 {
            (seen, Seq::empty())
        } else {
            match Self::spec_keep_href(base, host, seen, anchors[0]) {
                Option::None => Self::spec_collect(base, host, seen, anchors.drop_first()),
                Option::Some(u) => {
                    let rest = Self::spec_collect(base, host, seen.push(u), anchors.drop_first());
                    (rest.0, seq![u] + rest.1)
                },
            }
        }
    }

    /// Starts a crawl: parses the seed, marks it seen, and enqueues it at
    /// depth 0. Fails exactly when the seed does not parse as an absolute
    /// URL; the first action of a fresh crawl is the seed's own HEAD
    /// check, whose outcome is observed but never recorded.
    pub fn new(seed_url: &str, max_depth: usize) -> (r: Result<Crawler, CrawlError>)
        ensures
            (r is Ok) == (url_norm(seed_url@) is Some),
            r is Err ==> r->Err_0 == CrawlError::InvalidSeed,
            r is Ok ==> ({
                let c = r->Ok_0;
                &&& c.inv()
                &&& c.seed.url@ == url_norm(seed_url@)->0
                &&& c.max_depth == max_depth
                &&& c.results@.len() == 0
                &&& c.seen.deep_view() =~= seq![c.seed.url@]
                &&& c.queue@.len() == 1
                &&& c.queue@[0].url@ == c.seed.url@
                &&& c.queue@[0].depth == 0
                &&& c.phase is SeedHead
            }),
    {
        let seed = match parse_abs_url(seed_url) {
            Some(p) => p,
            None => {
                return Err(CrawlError::InvalidSeed);
            },
        };
        let mut seen: Vec<String> = Vec::new();
        seen.push(seed.url.clone());
        let mut queue: std::collections::VecDeque<FrontierItem> =
            std::collections::VecDeque::new();
        queue.push_back(FrontierItem { url: seed.url.clone(), depth: 0 });
        let c = Crawler {
            seed,
            max_depth,
            seen,
            results: Vec::new(),
            queue,
            phase: Phase::SeedHead,
        };
        proof {
            assert(c.seen.deep_view() =~= seq![c.seed.url@]);
            assert(c.seen.deep_view()[0] == c.seed.url@);
        }
        Ok(c)
    }

    /// How one recorded link changes the state: a [`LinkResult`] for the
    /// link at `idx` of `pending` is appended with `status`, the link is
    /// enqueued for recursion exactly when the depth budget allows one
    /// more hop, and the crawl moves to the next pending link — or back to
    /// the frontier when this was the page's last one.
    pub open spec fn record_step(
        pre: Crawler,
        post: Crawler,
        depth: usize,
        pending: Vec<String>,
        idx: usize,
        status: Option<u16>,
    ) -> bool {
        let u = pending@[idx as int]@;
        &&& post.seen == pre.seen
        &&& post.results@.len() == pre.results@.len() + 1
        &&& forall|i: int| 0 <= i < pre.results@.len() ==> post.results@[i] == pre.results@[i]
        &&& post.results@.last().url@ == u
        &&& post.results@.last().status == status
        &&& post.results@.last().ok == spec_status_ok(status)
        &&& if depth < pre.max_depth {
            &&& post.queue@.len() == pre.queue@.len() + 1
            &&& forall|i: int| 0 <= i < pre.queue@.len() ==> post.queue@[i] == pre.queue@[i]
            &&& post.queue@.last().url@ == u
            &&& post.queue@.last().depth == depth + 1
        } else {
            post.queue == pre.queue
        }
        &&& if idx + 1 < pending@.len() {
            post.phase matches Phase::Checking { depth: d2, pending: p2, idx: i2, awaiting_get: g2 }
                && d2 == depth && p2 == pending && i2 == idx + 1 && !g2
        } else {
            post.phase is Ready
        }
    }

    /// The transition relation of the crawl: whether `post` is the state
    /// after handling `event` in `pre`. An event that does not answer the
    /// action `pre` asked for leaves the state unchanged.
    pub open spec fn step_spec(pre: Crawler, event: Event, post: Crawler) -> bool {
        &&& post.seed == pre.seed
        &&& post.max_depth == pre.max_depth
        &&& match pre.phase {
            Phase::SeedHead => match event {
                Event::HeadChecked { status } => {
                    &&& post.seen == pre.seen
                    &&& post.results == pre.results
                    &&& post.queue == pre.queue
                    &&& post.phase == if status is Some {
                        Phase::Ready
                    } else {
                        Phase::SeedGet
                    }
                },
                _ => post == pre,
            },
            Phase::SeedGet => match event {
                Event::GetChecked { .. } => {
                    &&& post.seen == pre.seen
                    &&& post.results == pre.results
                    &&& post.queue == pre.queue
                    &&& post.phase is Ready
                },
                _ => post == pre,
            },
            Phase::Ready => match event {
                Event::PageFetched { body } => {
                    if pre.queue@.len() == 0 {
                        post == pre
                    } else {
                        let it = pre.queue@[0];
                        &&& post.queue@ == pre.queue@.drop_first()
                        &&& post.results == pre.results
                        &&& if body is None || body->0@.len() == 0 {
                            &&& post.seen == pre.seen
                            &&& post.phase is Ready
                        } else {
                            let r = Crawler::spec_collect(
                                it.url@,
                                url_host(pre.seed.url@),
                                pre.seen.deep_view(),
                                anchors_of(body->0@),
                            );
                            &&& post.seen.deep_view() == r.0
                            &&& if r.1.len() == 0 {
                                post.phase is Ready
                            } else {
                                post.phase matches Phase::Checking {
                                    depth: d2,
                                    pending: p2,
                                    idx: i2,
                                    awaiting_get: g2,
                                } && d2 == it.depth && p2.deep_view() == r.1 && i2 == 0 && !g2
                            }
                        }
                    }
                },
                _ => post == pre,
            },
            Phase::Checking { depth, pending, idx, awaiting_get } => match event {
                Event::HeadChecked { status } => {
                    if awaiting_get {
                        post == pre
                    } else if status is Some {
                        Crawler::record_step(pre, post, depth, pending, idx, status)
                    } else {
                        &&& post.seen == pre.seen
                        &&& post.results == pre.results
                        &&& post.queue == pre.queue
                        &&& post.phase matches Phase::Checking {
                            depth: d2,
                            pending: p2,
                            idx: i2,
                            awaiting_get: g2,
                        } && d2 == depth && p2 == pending && i2 == idx && g2
                    }
                },
                Event::GetChecked { status } => {
                    if awaiting_get {
                        Crawler::record_step(pre, post, depth, pending, idx, status)
                    } else {
                        post == pre
                    }
                },
                _ => post == pre,
            },
        }
    }

    /// The next piece of network work the crawl needs. Read-only: the
    /// state advances only when the outcome of exactly this action is
    /// handed back through [`Crawler::step`].
    pub fn next_action(&self) -> (a: Action)
        requires
            self.inv(),
        ensures
            match self.phase {
                Phase::SeedHead => a matches Action::HeadLink { url } && url@ == self.seed.url@,
                Phase::SeedGet => a matches Action::GetLink { url } && url@ == self.seed.url@,
                Phase::Ready => if self.queue@.len() == 0 {
                    a is Finished
                } else {
                    a matches Action::FetchPage { url, depth } && url@ == self.queue@[0].url@
                        && depth == self.queue@[0].depth
                },
                Phase::Checking { pending, idx, awaiting_get, .. } => {
                    if awaiting_get {
                        a matches Action::GetLink { url } && url@ == pending@[idx as int]@
                    } else {
                        a matches Action::HeadLink { url } && url@ == pending@[idx as int]@
                    }
                },
            },
    {
        match &self.phase {
            Phase::SeedHead => Action::HeadLink { url: self.seed.url.clone() },
            Phase::SeedGet => Action::GetLink { url: self.seed.url.clone() },
            Phase::Ready => {
                if self.queue.len() == 0 {
                    Action::Finished
                } else {
                    let item = &self.queue[0];
                    Action::FetchPage { url: item.url.clone(), depth: item.depth }
                }
            },
            Phase::Checking { pending, idx, awaiting_get, .. } => {
                let url = pending[*idx].clone();
                if *awaiting_get {
                    Action::GetLink { url }
                } else {
                    Action::HeadLink { url }
                }
            },
        }
    }
}

impl Crawler {
    /// Appends the [`LinkResult`] for the pending link at `idx`, enqueues
    /// the link when the depth budget allows another hop, and moves on to
    /// the next pending link, or back to the frontier after the last one.
    fn record_and_advance(
        &mut self,
        depth: usize,
        pending: Vec<String>,
        idx: usize,
        status: Option<u16>,
    )
        requires
            old(self).inv(),
            old(self).checking_inv(depth, pending, idx),
        ensures
            final(self).inv(),
            Crawler::record_step(*old(self), *final(self), depth, pending, idx, status),
            final(self).seed == old(self).seed,
            final(self).max_depth == old(self).max_depth,
    {
        let ghost pre = *self;
        let ghost u = pending@[idx as int]@;
        let url = pending[idx].clone();
        let ok = status_ok(status);
        self.results.push(LinkResult { url: url.clone(), status, ok });
        if depth < self.max_depth {
            self.queue.push_back(FrontierItem { url, depth: depth + 1 });
        }
        let n = pending.len();
        let next = idx + 1;
        if next < n {
            self.phase = Phase::Checking { depth, pending, idx: next, awaiting_get: false };
        } else {
            self.phase = Phase::Ready;
        }
        proof {
            assert(self.results@.last().url@ == u);
            assert(pre.wf_link(u));
            assert forall|i: int, j: int|
                0 <= i < j < self.results@.len() implies self.results@[i].url@
                != self.results@[j].url@ by {
                assert(self.results@[i] == pre.results@[i]);
                if j < pre.results@.len() {
                    assert(self.results@[j] == pre.results@[j]);
                } else {
                    assert(!pre.result_recorded(u));
                    assert(pre.results@[i].url@ != u);
                }
            }
            assert forall|j: int|
                next <= j < pending@.len() implies !self.result_recorded(
                #[trigger] pending@[j]@,
            ) by {
                assert(pending@[j]@ != u);
                if self.result_recorded(pending@[j]@) {
                    let w = choose|w: int|
                        0 <= w < self.results@.len() && self.results@[w].url@ == pending@[j]@;
                    if w < pre.results@.len() {
                        assert(self.results@[w] == pre.results@[w]);
                        assert(pre.result_recorded(pending@[j]@));
                    } else {
                        assert(self.results@[w].url@ == u);
                    }
                }
            }
        }
    }

    /// Advances the crawl by one handled event: the answer to the action
    /// [`Crawler::next_action`] asked for. Exactly the transition
    /// [`Crawler::step_spec`] happens, and the crawl invariant is kept; an
    /// event that does not answer the pending action is ignored.
    pub fn step(&mut self, event: Event)
        requires
            old(self).inv(),
        ensures
            final(self).inv(),
            Crawler::step_spec(*old(self), event, *final(self)),
    {
        let ghost pre = *self;
        let mut phase = Phase::Ready;
        core::mem::swap(&mut self.phase, &mut phase);
        match (phase, event) {
            (Phase::SeedHead, Event::HeadChecked { status }) => {
                self.phase = if status.is_some() {
                    Phase::Ready
                } else {
                    Phase::SeedGet
                };
            },
            (Phase::SeedGet, Event::GetChecked { .. }) => {
                self.phase = Phase::Ready;
            },
            (Phase::Ready, Event::PageFetched { body }) => {
                if self.queue.len() > 0 {
                    let item = self.queue.pop_front().unwrap();
                    let ghost pre_seen_dv = self.seen.deep_view();
                    if let Some(text) = body {
                        if text.unicode_len() > 0 {
                            let anchors = extract_anchor_hrefs(text.as_str());
                            let new_links = collect_new_links(
                                &item.url,
                                &self.seed.host,
                                &mut self.seen,
                                &anchors,
                            );
                            proof {
                                self.lemma_page_processed(pre, item, new_links, pre_seen_dv);
                            }
                            if new_links.len() > 0 {
                                self.phase = Phase::Checking {
                                    depth: item.depth,
                                    pending: new_links,
                                    idx: 0,
                                    awaiting_get: false,
                                };
                            }
                        }
                    }
                }
            },
            (Phase::Checking { depth, pending, idx, awaiting_get }, ev) => {
                match ev {
                    Event::HeadChecked { status } => {
                        if awaiting_get {
                            self.phase = Phase::Checking { depth, pending, idx, awaiting_get };
                        } else if status.is_some() {
                            self.record_and_advance(depth, pending, idx, status);
                        } else {
                            self.phase = Phase::Checking {
                                depth,
                                pending,
                                idx,
                                awaiting_get: true,
                            };
                        }
                    },
                    Event::GetChecked { status } => {
                        if awaiting_get {
                            self.record_and_advance(depth, pending, idx, status);
                        } else {
                            self.phase = Phase::Checking { depth, pending, idx, awaiting_get };
                        }
                    },
                    Event::PageFetched { .. } => {
                        self.phase = Phase::Checking { depth, pending, idx, awaiting_get };
                    },
                }
            },
            (ph, _) => {
                self.phase = ph;
            },
        }
    }

    /// Restores the crawl invariant after one fetched page was folded in:
    /// the frontier lost its front item, the seen-set grew by exactly the
    /// page's new links, and those links satisfy the pending-link
    /// invariant at position 0.
    proof fn lemma_page_processed(
        &self,
        pre: Crawler,
        item: FrontierItem,
        new_links: Vec<String>,
        pre_seen_dv: Seq<Seq<char>>,
    )
        requires
            pre.inv(),
            pre.queue@.len() > 0,
            item == pre.queue@[0],
            pre_seen_dv == pre.seen.deep_view(),
            self.seed == pre.seed,
            self.max_depth == pre.max_depth,
            self.results == pre.results,
            self.queue@ == pre.queue@.drop_first(),
            self.seen.deep_view() == pre_seen_dv + new_links.deep_view(),
            forall|i: int, j: int|
                0 <= i < j < self.seen@.len() ==> self.seen@[i]@ != self.seen@[j]@,
            forall|j: int|
                0 <= j < new_links@.len() ==> url_norm(#[trigger] new_links@[j]@) == Some(
                    new_links@[j]@,
                ),
            forall|j: int|
                0 <= j < new_links@.len() ==> url_host(#[trigger] new_links@[j]@)
                    == pre.seed.host.deep_view(),
            forall|j: int|
                0 <= j < new_links@.len() ==> !pre_seen_dv.contains(#[trigger] new_links@[j]@),
            forall|j: int, k: int|
                0 <= j < k < new_links@.len() ==> new_links@[j]@ != new_links@[k]@,
        ensures
            self.seen_contains(self.seed.url@),
            forall|i: int|
                0 <= i < self.results@.len() ==> {
                    let r = #[trigger] self.results@[i];
                    &&& r.ok == spec_status_ok(r.status)
                    &&& self.wf_link(r.url@)
                    &&& r.url@ != self.seed.url@
                },
            forall|i: int|
                0 <= i < self.queue@.len() ==> {
                    let it = #[trigger] self.queue@[i];
                    &&& it.depth <= self.max_depth
                    &&& self.wf_link(it.url@)
                    &&& (it.depth == 0 ==> it.url@ == self.seed.url@)
                },
            new_links@.len() > 0 ==> self.checking_inv(item.depth, new_links, 0),
    {
        let post_seen = self.seen.deep_view();
        assert forall|x: Seq<char>| pre_seen_dv.contains(x) implies post_seen.contains(x) by {
            let w = choose|w: int| 0 <= w < pre_seen_dv.len() && pre_seen_dv[w] == x;
            assert(post_seen[w] == x);
        }
        assert forall|i: int| 0 <= i < self.queue@.len() implies ({
            let it = #[trigger] self.queue@[i];
            &&& it.depth <= self.max_depth
            &&& self.wf_link(it.url@)
            &&& (it.depth == 0 ==> it.url@ == self.seed.url@)
        }) by {
            assert(self.queue@[i] == pre.queue@[i + 1]);
            assert(pre.wf_link(pre.queue@[i + 1].url@));
        }
        assert forall|j: int|
            0 <= j < new_links@.len() implies self.seen_contains(#[trigger] new_links@[j]@) by {
            assert(post_seen[pre_seen_dv.len() + j] == new_links@[j]@);
        }
        if new_links@.len() > 0 {
            assert(item.depth <= self.max_depth);
            assert forall|j: int|
                0 <= j < new_links@.len() implies !self.result_recorded(
                #[trigger] new_links@[j]@,
            ) by {
                if self.result_recorded(new_links@[j]@) {
                    let w = choose|w: int|
                        0 <= w < self.results@.len() && self.results@[w].url@ == new_links@[j]@;
                    assert(pre.wf_link(pre.results@[w].url@));
                    assert(pre_seen_dv.contains(new_links@[j]@));
                }
            }
            assert forall|j: int|
                0 <= j < new_links@.len() implies #[trigger] new_links@[j]@
                != self.seed.url@ by {
                if new_links@[j]@ == self.seed.url@ {
                    assert(pre.seen_contains(pre.seed.url@));
                    assert(pre_seen_dv.contains(new_links@[j]@));
                }
            }
        }
    }
}

/// Law (domain filter): in every reachable crawl state, each recorded
/// result names an absolute URL — it re-parses to itself — whose host
/// equals the seed's host; and it is never the seed itself.
pub proof fn lemma_result_same_host(c: Crawler, i: int)
    requires
        c.inv(),
        0 <= i < c.results@.len(),
    ensures
        url_norm(c.results@[i].url@) == Some(c.results@[i].url@),
        url_host(c.results@[i].url@) == url_host(c.seed.url@),
        c.results@[i].url@ != c.seed.url@,
{
}

/// Law (dedup): in every reachable crawl state, no two recorded results
/// share the same URL string.
pub proof fn lemma_results_distinct(c: Crawler, i: int, j: int)
    requires
        c.inv(),
        0 <= i < j < c.results@.len(),
    ensures
        c.results@[i].url@ != c.results@[j].url@,
{
}

/// Law (liveness verdict): in every reachable crawl state, a result's
/// `ok` holds if and only if a status was obtained and it is below 400.
pub proof fn lemma_result_ok(c: Crawler, i: int)
    requires
        c.inv(),
        0 <= i < c.results@.len(),
    ensures
        c.results@[i].ok == spec_status_ok(c.results@[i].status),
{
}

/// Law (depth budget): every frontier page is within the depth budget, so
/// the defensive depth guard of a dequeued page can never fire; and with
/// a budget of zero the seed page is the only page ever on the frontier,
/// so links found on the seed page are checked but never fetched as
/// pages.
pub proof fn lemma_frontier_depth(c: Crawler, i: int)
    requires
        c.inv(),
        0 <= i < c.queue@.len(),
    ensures
        c.queue@[i].depth <= c.max_depth,
        c.max_depth == 0 ==> c.queue@[i].url@ == c.seed.url@,
{
}

/// Law (append-only results): handling an event never rewrites or drops a
/// recorded result, whatever the event; the result collection only grows,
/// in discovery order.
pub proof fn lemma_results_append_only(pre: Crawler, event: Event, post: Crawler)
    requires
        Crawler::step_spec(pre, event, post),
    ensures
        pre.results@.len() <= post.results@.len(),
        forall|i: int| 0 <= i < pre.results@.len() ==> post.results@[i] == pre.results@[i],
{
}

/// Equality of two optional host strings, as the domain filter compares
/// them: two absent hosts count as equal.
fn opt_str_eq(a: &Option<String>, b: &Option<String>) -> (r: bool)
    ensures
        r == (a.deep_view() == b.deep_view()),
{
    match (a, b) {
        (Option::None, Option::None) => true,
        (Option::Some(x), Option::Some(y)) => x.eq(y),
        _ => false,
    }
}

/// Whether the seen-set already holds `u`.
fn contains_str(v: &Vec<String>, u: &String) -> (r: bool)
    ensures
        r == v.deep_view().contains(u@),
{
    let mut i: usize = 0;
    while i < v.len()
        invariant
            i <= v.len(),
            forall|j: int| 0 <= j < i ==> v.deep_view()[j] != u@,
        decreases v.len() - i,
    {
        if v[i].eq(u) {
            proof {
                assert(v.deep_view()[i as int] == u@);
            }
            return true;
        }
        proof {
            assert(v.deep_view()[i as int] == v@[i as int]@);
        }
        i += 1;
    }
    false
}

/// Resolves, filters and deduplicates the anchors of one fetched page:
/// every kept link enters the seen-set and the returned pending list, in
/// anchor order, exactly as [`Crawler::spec_collect`] says. The extra
/// clauses carry what the URL library guarantees of each kept link: it is
/// a normalized absolute URL on the scoped host, new to the seen-set, and
/// no two kept links are equal.
fn collect_new_links(
    base: &String,
    host: &Option<String>,
    seen: &mut Vec<String>,
    anchors: &Vec<String>,
) -> (pending: Vec<String>)
    requires
        forall|i: int, j: int|
            0 <= i < j < old(seen)@.len() ==> old(seen)@[i]@ != old(seen)@[j]@,
    ensures
        ({
            let r = Crawler::spec_collect(
                base@,
                host.deep_view(),
                old(seen).deep_view(),
                anchors.deep_view(),
            );
            &&& final(seen).deep_view() == r.0
            &&& pending.deep_view() == r.1
        }),
        final(seen).deep_view() == old(seen).deep_view() + pending.deep_view(),
        forall|i: int, j: int|
            0 <= i < j < final(seen)@.len() ==> final(seen)@[i]@ != final(seen)@[j]@,
        forall|j: int|
            0 <= j < pending@.len() ==> url_norm(#[trigger] pending@[j]@) == Some(pending@[j]@),
        forall|j: int|
            0 <= j < pending@.len() ==> url_host(#[trigger] pending@[j]@) == host.deep_view(),
        forall|j: int|
            0 <= j < pending@.len() ==> !old(seen).deep_view().contains(#[trigger] pending@[j]@),
        forall|j: int, k: int| 0 <= j < k < pending@.len() ==> pending@[j]@ != pending@[k]@,
{
    let ghost seen0 = seen.deep_view();
    let ghost shost = host.deep_view();
    let ghost all = anchors.deep_view();
    let ghost goal = Crawler::spec_collect(base@, shost, seen0, all);
    let mut pending: Vec<String> = Vec::new();
    let mut i: usize = 0;
    proof {
        assert(all.skip(0) =~= all);
        assert(pending.deep_view() =~= Seq::<Seq<char>>::empty());
        assert(pending.deep_view() + goal.1 =~= goal.1);
    }
    while i < anchors.len()
        invariant
            i <= anchors.len(),
            all == anchors.deep_view(),
            shost == host.deep_view(),
            goal == Crawler::spec_collect(base@, shost, seen0, all),
            goal.0 == Crawler::spec_collect(base@, shost, seen.deep_view(), all.skip(i as int)).0,
            goal.1 == pending.deep_view() + Crawler::spec_collect(
                base@,
                shost,
                seen.deep_view(),
                all.skip(i as int),
            ).1,
            seen.deep_view() == seen0 + pending.deep_view(),
            forall|a: int, b: int| 0 <= a < b < seen@.len() ==> seen@[a]@ != seen@[b]@,
            forall|j: int|
                0 <= j < pending@.len() ==> url_norm(#[trigger] pending@[j]@) == Some(
                    pending@[j]@,
                ),
            forall|j: int|
                0 <= j < pending@.len() ==> url_host(#[trigger] pending@[j]@) == shost,
            forall|j: int| 0 <= j < pending@.len() ==> !seen0.contains(#[trigger] pending@[j]@),
            forall|j: int, k: int| 0 <= j < k < pending@.len() ==> pending@[j]@ != pending@[k]@,
        decreases anchors.len() - i,
    {
        let ghost pre_seen = seen.deep_view();
        let ghost pre_pending = pending.deep_view();
        let ghost rest = all.skip(i as int);
        proof {
            assert(rest.len() == all.len() - i);
            assert(rest[0] == all[i as int]);
            assert(rest.drop_first() =~= all.skip(i as int + 1));
            assert(all[i as int] == anchors@[i as int]@);
        }
        let href = &anchors[i];
        let ghost kept = Crawler::spec_keep_href(base@, shost, pre_seen, href@);
        if !skip_href(href.as_str()) {
            if let Some(parts) = resolve_href(base.as_str(), href.as_str()) {
                let same_host = opt_str_eq(&parts.host, host);
                let already = contains_str(seen, &parts.url);
                if same_host && !already {
                    proof {
                        assert(kept == Some(parts.url@));
                        // New to the whole grown seen sequence, hence in
                        // particular to the sequence the call started from.
                        assert(!seen0.contains(parts.url@)) by {
                            if seen0.contains(parts.url@) {
                                let w = choose|w: int|
                                    0 <= w < seen0.len() && seen0[w] == parts.url@;
                                assert(pre_seen[w] == seen0[w]);
                                assert(pre_seen.contains(parts.url@));
                            }
                        }
                        assert(forall|j: int|
                            0 <= j < pre_seen.len() ==> pre_seen[j] != parts.url@);
                        assert(forall|j: int|
                            0 <= j < seen@.len() ==> seen@[j]@ == pre_seen[j]);
                    }
                    let ghost u = parts.url@;
                    let ghost pre_seen_at = seen@;
                    let ghost pre_pend_at = pending@;
                    pending.push(parts.url.clone());
                    seen.push(parts.url);
                    proof {
                        assert(seen@[seen@.len() - 1]@ == u);
                        assert(pending@[pending@.len() - 1]@ == u);
                        assert forall|j: int| 0 <= j < pre_pend_at.len() implies pre_pend_at[j]@
                            != u by {
                            assert(pre_pending[j] == pre_pend_at[j]@);
                            assert(pre_seen[seen0.len() + j] == pre_pending[j]);
                            assert(pre_seen[seen0.len() + j] != u);
                        }
                        assert forall|a: int, b: int|
                            0 <= a < b < seen@.len() implies seen@[a]@ != seen@[b]@ by {
                            assert(seen@[a] == pre_seen_at[a]);
                            if b == seen@.len() - 1 {
                                assert(pre_seen[a] == pre_seen_at[a]@);
                                assert(pre_seen[a] != u);
                            } else {
                                assert(seen@[b] == pre_seen_at[b]);
                            }
                        }
                        assert forall|j: int, k: int|
                            0 <= j < k < pending@.len() implies pending@[j]@ != pending@[k]@ by {
                            assert(pending@[j] == pre_pend_at[j]);
                            if k == pending@.len() - 1 {
                                assert(pre_pend_at[j]@ != u);
                            } else {
                                assert(pending@[k] == pre_pend_at[k]);
                            }
                        }
                        assert(pending.deep_view() =~= pre_pending.push(u));
                        assert(seen.deep_view() =~= pre_seen.push(u));
                        assert(seen.deep_view() =~= seen0 + pending.deep_view());
                        let r2 = Crawler::spec_collect(
                            base@,
                            shost,
                            pre_seen.push(u),
                            all.skip(i as int + 1),
                        );
                        assert(Crawler::spec_collect(base@, shost, pre_seen, rest).1 == seq![u]
                            + r2.1);
                        assert(pre_pending + (seq![u] + r2.1) =~= pre_pending.push(u) + r2.1);
                    }
                } else {
                    proof {
                        assert(parts.url@ == spec_resolve(base@, href@)->0);
                        assert(kept is None);
                    }
                }
            } else {
                proof {
                    assert(kept is None);
                }
            }
        } else {
            proof {
                assert(kept is None);
            }
        }
        i += 1;
    }
    proof {
        assert(all.skip(all.len() as int) =~= Seq::<Seq<char>>::empty());
        assert(pending.deep_view() + Seq::<Seq<char>>::empty() =~= pending.deep_view());
    }
    pending
}

} // verus!
