//! The per-repository activity builder: a state machine that turns the
//! results of the four platform queries into an ordered, deduplicated
//! activity list for one repository.
//!
//! The builder never performs a network call itself. An unverified driver
//! asks it what to fetch next (an [`Action`]), performs the call, and feeds
//! the outcome back as an [`Event`]. The machine is strictly sequential for
//! one repository: commits are resolved in fetch order, and the pull requests
//! of one commit in the order the lookup returned them.
//!
//! Failure policy (uniform isolation at repository granularity): any fetch
//! failure — the commit listing, a pull-request lookup or a pull-request
//! commit listing — finishes this repository with an empty activity list and
//! never aborts sibling repositories; the empty result still reaches the
//! completion barrier.

use vstd::pervasive::unreached;
use vstd::prelude::*;

use crate::model::ActivityEntry;
use crate::model::Commit;
use crate::model::PullActivity;
use crate::model::PullRequest;
use crate::model::RepositoryActivity;
use crate::model::dedup_adjacent;
use crate::model::dedup_adjacent_spec;

verus! {

/// The result of one platform query, as the driver reports it: the fetched
/// values, or a failure with the error consumed at the edge.
pub enum Outcome<T> {
    Success(T),
    Failure,
}

/// A fetch result handed to the builder. Which event is expected follows
/// from the builder's phase.
pub enum Event {
    /// Outcome of listing the acting user's commits in the window.
    Commits(Outcome<Vec<Commit>>),
    /// Outcome of listing the pull requests associated with the current
    /// commit.
    Pulls(Outcome<Vec<PullRequest>>),
    /// Outcome of listing the commits of the current pull request.
    PullCommits(Outcome<Vec<Commit>>),
}

/// What the driver must do next.
pub enum Action {
    /// Fetch the pull requests associated with the commit whose hash is
    /// given, then feed [`Event::Pulls`].
    FetchPulls(String),
    /// Fetch the commits of the pull request with the given number, then
    /// feed [`Event::PullCommits`].
    FetchPullCommits(u64),
    /// The repository is done: call [`Builder::finish`].
    Finish,
}

/// Where the builder stands.
#[derive(PartialEq, Eq, Structural, Clone, Copy, Debug)]
pub enum Phase {
    /// Waiting for the commit listing.
    AwaitCommits,
    /// Waiting for the pull requests of the current commit.
    AwaitPulls,
    /// Waiting for the commit set of the first pending pull request.
    AwaitPullCommits,
    /// All commits resolved (or a fetch failed); the activity can be taken.
    Finished,
}

/// The activity builder for one repository.
pub struct Builder {
    /// The repository this builder reports on.
    pub repository: String,
    /// The user the report is for.
    pub user: String,
    /// Commits not yet resolved, in fetch order.
    pub queue: Vec<Commit>,
    /// The commit whose pull requests are being resolved.
    pub current: Option<Commit>,
    /// Pull requests of the current commit still awaiting their commit sets,
    /// in lookup order.
    pub pending: Vec<PullRequest>,
    /// Entries built so far, in order; deduplicated only at the end.
    pub entries: Vec<ActivityEntry>,
    pub phase: Phase,
}

impl Builder {
    /// The machine's internal invariant.
    pub open spec fn wf(self) -> bool {
        &&& (self.phase == Phase::AwaitCommits ==> self.queue@.len() == 0 && self.current is None
            && self.pending@.len() == 0 && self.entries@.len() == 0)
        &&& (self.phase == Phase::AwaitPulls ==> self.current is Some && self.pending@.len() == 0)
        &&& (self.phase == Phase::AwaitPullCommits ==> self.current is Some && self.pending@.len()
            > 0)
        &&& (forall|i: int| 0 <= i < self.queue@.len() ==> (#[trigger] self.queue@[i]).wf())
        &&& (self.current matches Some(c) ==> c.wf())
        &&& (forall|i: int| 0 <= i < self.entries@.len() ==> (#[trigger] self.entries@[i]).wf())
    }

    /// Which event the machine can take in its present phase.
    pub open spec fn expects(self, event: Event) -> bool {
        match event {
            Event::Commits(_) => self.phase == Phase::AwaitCommits,
            Event::Pulls(_) => self.phase == Phase::AwaitPulls,
            Event::PullCommits(_) => self.phase == Phase::AwaitPullCommits,
        }
    }

    /// Every commit carried by the event has a full-length hash.
    pub open spec fn event_wf(event: Event) -> bool {
        match event {
            Event::Commits(Outcome::Success(cs)) => forall|i: int|
                0 <= i < cs@.len() ==> (#[trigger] cs@[i]).wf(),
            Event::PullCommits(Outcome::Success(cs)) => forall|i: int|
                0 <= i < cs@.len() ==> (#[trigger] cs@[i]).wf(),
            _ => true,
        }
    }
}

/// Relates a builder before `advance` (with commit queue `queue`, all other
/// fields as in `post` but for what `advance` writes) to the builder after
/// it: the front of the queue becomes the current commit and its pull
/// requests are fetched next, or, with the queue empty, the repository is
/// finished.
pub open spec fn advanced(queue: Seq<Commit>, post: Builder, action: Action) -> bool {
    if queue.len() == 0 {
        &&& post.phase == Phase::Finished
        &&& post.queue@.len() == 0
        &&& post.current is None
        &&& action == Action::Finish
    } else {
        &&& post.phase == Phase::AwaitPulls
        &&& post.current == Some(queue[0])
        &&& post.queue@ == queue.drop_first()
        &&& action == Action::FetchPulls(queue[0].sha)
    }
}

/// The entry the builder appends for one pull request associated with the
/// current commit: the pull request with its freshly fetched commit set,
/// annotated with the acting user and with the triggering commit's message.
pub open spec fn built_entry(pre: Builder, pull: PullRequest, cs: Vec<Commit>) -> ActivityEntry {
    ActivityEntry::PullRequestActivity(
        PullActivity {
            pull,
            commits: cs,
            acting_user: pre.user,
            trigger_message: pre.current->0.message,
        },
    )
}

/// The builder's transition relation: what one event does to the state and
/// which action comes back. `step` is proved to realize exactly this
/// relation, and the pipeline's laws are stated over it.
pub open spec fn step_rel(pre: Builder, event: Event, post: Builder, action: Action) -> bool {
    &&& post.repository == pre.repository
    &&& post.user == pre.user
    &&& match event {
        // The window's commit listing arrived: resolve the commits in fetch
        // order. A failure is isolated: the repository finishes empty.
        Event::Commits(Outcome::Success(cs)) => {
            &&& post.entries@.len() == 0
            &&& post.pending@.len() == 0
            &&& advanced(cs@, post, action)
        },
        Event::Commits(Outcome::Failure) => {
            &&& post.phase == Phase::Finished
            &&& post.entries@.len() == 0
            &&& action == Action::Finish
        },
        // The current commit's pull requests arrived: none makes the commit
        // a bare entry; otherwise each pull request's commit set is fetched,
        // in lookup order.
        Event::Pulls(Outcome::Success(ps)) => {
            if ps@.len() == 0 {
                &&& post.entries@ == pre.entries@.push(
                    ActivityEntry::SingleCommit(pre.current->0),
                )
                &&& post.pending@.len() == 0
                &&& advanced(pre.queue@, post, action)
            } else {
                &&& post.phase == Phase::AwaitPullCommits
                &&& post.entries@ == pre.entries@
                &&& post.queue@ == pre.queue@
                &&& post.current == pre.current
                &&& post.pending@ == ps@
                &&& action == Action::FetchPullCommits(ps@[0].number)
            }
        },
        Event::Pulls(Outcome::Failure) => {
            &&& post.phase == Phase::Finished
            &&& post.entries@.len() == 0
            &&& action == Action::Finish
        },
        // A pull request's commit set arrived: one pull-request entry is
        // appended, annotated with the acting user and with the triggering
        // commit's message as title fallback.
        Event::PullCommits(Outcome::Success(cs)) => {
            &&& post.entries@ == pre.entries@.push(built_entry(pre, pre.pending@[0], cs))
            &&& if pre.pending@.len() > 1 {
                &&& post.phase == Phase::AwaitPullCommits
                &&& post.queue@ == pre.queue@
                &&& post.current == pre.current
                &&& post.pending@ == pre.pending@.drop_first()
                &&& action == Action::FetchPullCommits(pre.pending@[1].number)
            } else {
                &&& post.pending@.len() == 0
                &&& advanced(pre.queue@, post, action)
            }
        },
        Event::PullCommits(Outcome::Failure) => {
            &&& post.phase == Phase::Finished
            &&& post.entries@.len() == 0
            &&& action == Action::Finish
        },
    }
}

impl Builder {
    /// A fresh builder for one repository, waiting for the commit listing.
    pub fn new(repository: String, user: String) -> (r: Builder)
        ensures
            r.wf(),
            r.phase == Phase::AwaitCommits,
            r.repository == repository,
            r.user == user,
            r.entries@.len() == 0,
    {
        Builder {
            repository,
            user,
            queue: Vec::new(),
            current: None,
            pending: Vec::new(),
            entries: Vec::new(),
            phase: Phase::AwaitCommits,
        }
    }

    /// Take the next commit off the queue, or finish.
    fn advance(&mut self) -> (action: Action)
        requires
            old(self).pending@.len() == 0,
            forall|i: int| 0 <= i < old(self).queue@.len() ==> (#[trigger] old(self).queue@[i]).wf(),
            forall|i: int|
                0 <= i < old(self).entries@.len() ==> (#[trigger] old(self).entries@[i]).wf(),
        ensures
            final(self).wf(),
            final(self).repository == old(self).repository,
            final(self).user == old(self).user,
            final(self).entries@ == old(self).entries@,
            final(self).pending@.len() == 0,
            advanced(old(self).queue@, *final(self), action),
    {
        if self.queue.len() == 0 {
            self.current = None;
            self.phase = Phase::Finished;
            Action::Finish
        } else {
            let next = self.queue.remove(0);
            let sha = next.sha.clone();
            self.current = Some(next);
            self.phase = Phase::AwaitPulls;
            Action::FetchPulls(sha)
        }
    }

    /// Feed one fetch outcome in; learn what to fetch next.
    pub fn step(&mut self, event: Event) -> (action: Action)
        requires
            old(self).wf(),
            old(self).expects(event),
            Builder::event_wf(event),
        ensures
            final(self).wf(),
            step_rel(*old(self), event, *final(self), action),
    {
        match event {
            Event::Commits(Outcome::Success(cs)) => {
                self.queue = cs;
                self.advance()
            },
            Event::Commits(Outcome::Failure) => {
                self.phase = Phase::Finished;
                Action::Finish
            },
            Event::Pulls(Outcome::Success(ps)) => {
                if ps.len() == 0 {
                    let c = match self.current.take() {
                        Some(c) => c,
                        None => {
                            proof {
                                assert(false);
                            }
                            unreached()
                        },
                    };
                    self.entries.push(ActivityEntry::SingleCommit(c));
                    self.advance()
                } else {
                    let number = ps[0].number;
                    self.pending = ps;
                    self.phase = Phase::AwaitPullCommits;
                    Action::FetchPullCommits(number)
                }
            },
            Event::Pulls(Outcome::Failure) => {
                self.entries = Vec::new();
                self.phase = Phase::Finished;
                Action::Finish
            },
            Event::PullCommits(Outcome::Success(cs)) => {
                let pull = self.pending.remove(0);
                let (user, message) = match &self.current {
                    Some(c) => (self.user.clone(), c.message.clone()),
                    None => {
                        proof {
                            assert(false);
                        }
                        unreached()
                    },
                };
                self.entries.push(
                    ActivityEntry::PullRequestActivity(
                        PullActivity {
                            pull,
                            commits: cs,
                            acting_user: user,
                            trigger_message: message,
                        },
                    ),
                );
                if self.pending.len() > 0 {
                    let number = self.pending[0].number;
                    Action::FetchPullCommits(number)
                } else {
                    self.advance()
                }
            },
            Event::PullCommits(Outcome::Failure) => {
                self.entries = Vec::new();
                self.phase = Phase::Finished;
                Action::Finish
            },
        }
    }

    /// Take the finished repository's activity: the entries in build order
    /// with adjacent duplicates collapsed.
    pub fn finish(self) -> (r: RepositoryActivity)
        requires
            self.wf(),
            self.phase == Phase::Finished,
        ensures
            r.repository == self.repository,
            r.entries@ == dedup_adjacent_spec(self.entries@),
            r.wf(),
    {
        proof {
            crate::model::lemma_dedup_entries_from_input(self.entries@);
            assert forall|i: int|
                0 <= i < dedup_adjacent_spec(self.entries@).len() implies (
            #[trigger] dedup_adjacent_spec(self.entries@)[i]).wf() by {
                let e = dedup_adjacent_spec(self.entries@)[i];
                let j = choose|j: int| 0 <= j < self.entries@.len() && self.entries@[j] == e;
            }
        }
        let entries = dedup_adjacent(self.entries);
        RepositoryActivity { repository: self.repository, entries }
    }
}

/// A commit with no associated pull requests yields exactly one bare-commit
/// entry: that commit itself, appended once.
pub proof fn lemma_no_pulls_one_single_commit(
    pre: Builder,
    ps: Vec<PullRequest>,
    post: Builder,
    action: Action,
)
    requires
        pre.phase == Phase::AwaitPulls,
        ps@.len() == 0,
        step_rel(pre, Event::Pulls(Outcome::Success(ps)), post, action),
    ensures
        post.entries@ == pre.entries@.push(ActivityEntry::SingleCommit(pre.current->0)),
        post.entries@.len() == pre.entries@.len() + 1,
{
}

/// A commit with two associated pull requests yields exactly two
/// pull-request entries, in lookup order, each carrying its own separately
/// fetched commit set.
pub proof fn lemma_two_pulls_two_entries(
    pre: Builder,
    ps: Vec<PullRequest>,
    s1: Builder,
    a1: Action,
    cs1: Vec<Commit>,
    s2: Builder,
    a2: Action,
    cs2: Vec<Commit>,
    s3: Builder,
    a3: Action,
)
    requires
        pre.phase == Phase::AwaitPulls,
        ps@.len() == 2,
        step_rel(pre, Event::Pulls(Outcome::Success(ps)), s1, a1),
        step_rel(s1, Event::PullCommits(Outcome::Success(cs1)), s2, a2),
        step_rel(s2, Event::PullCommits(Outcome::Success(cs2)), s3, a3),
    ensures
        a1 == Action::FetchPullCommits(ps@[0].number),
        a2 == Action::FetchPullCommits(ps@[1].number),
        s3.entries@ == pre.entries@ + seq![
            built_entry(pre, ps@[0], cs1),
            built_entry(pre, ps@[1], cs2),
        ],
{
    assert(s1.pending@ == ps@);
    assert(s1.current == pre.current);
    assert(s1.user == pre.user);
    assert(s2.entries@ == pre.entries@.push(built_entry(pre, ps@[0], cs1)));
    assert(s2.pending@ == ps@.drop_first());
    assert(s2.pending@.len() == 1);
    assert(s2.pending@[0] == ps@[1]);
    assert(s2.current == pre.current);
    assert(s2.user == pre.user);
    assert(s3.entries@ == s2.entries@.push(built_entry(pre, ps@[1], cs2)));
    assert(s3.entries@ =~= pre.entries@ + seq![
        built_entry(pre, ps@[0], cs1),
        built_entry(pre, ps@[1], cs2),
    ]);
}

/// A run of the machine on one pull-request commit set after another: from
/// `b0`, each element of `sets` arrives as a successful
/// [`Event::PullCommits`], ending in `bn`.
pub open spec fn pull_run(b0: Builder, sets: Seq<Vec<Commit>>, bn: Builder) -> bool
    decreases sets.len(),
{
    if sets.len() == 0 {
        bn == b0
    } else {
        exists|b1: Builder, a: Action|
            step_rel(b0, Event::PullCommits(Outcome::Success(sets[0])), b1, a) && pull_run(
                b1,
                sets.drop_first(),
                bn,
            )
    }
}

proof fn lemma_pull_run_entries(mid: Builder, sets: Seq<Vec<Commit>>, end: Builder)
    requires
        mid.pending@.len() == sets.len(),
        sets.len() >= 1,
        pull_run(mid, sets, end),
    ensures
        end.entries@ == mid.entries@ + Seq::new(
            sets.len(),
            |i: int| built_entry(mid, mid.pending@[i], sets[i]),
        ),
    decreases sets.len(),
{
    let expansion = Seq::new(sets.len(), |i: int| built_entry(mid, mid.pending@[i], sets[i]));
    let (m1, a) = choose|m1: Builder, a: Action|
        step_rel(mid, Event::PullCommits(Outcome::Success(sets[0])), m1, a) && pull_run(
            m1,
            sets.drop_first(),
            end,
        );
    assert(m1.entries@ == mid.entries@.push(built_entry(mid, mid.pending@[0], sets[0])));
    if sets.len() == 1 {
        assert(end.entries@ =~= mid.entries@ + expansion);
    } else {
        assert(m1.pending@ == mid.pending@.drop_first());
        assert(m1.user == mid.user);
        assert(m1.current == mid.current);
        lemma_pull_run_entries(m1, sets.drop_first(), end);
        let tail = Seq::new(
            (sets.len() - 1) as nat,
            |i: int| built_entry(m1, m1.pending@[i], sets.drop_first()[i]),
        );
        assert(end.entries@ == m1.entries@ + tail);
        assert forall|i: int| 0 <= i < tail.len() implies tail[i] == expansion[i + 1] by {
            assert(m1.pending@[i] == mid.pending@[i + 1]);
            assert(sets.drop_first()[i] == sets[i + 1]);
        }
        assert(end.entries@ =~= mid.entries@ + expansion);
    }
}

/// Fan-out order for one commit: when its pull-request lookup returns the
/// pull requests `ps` and each one's commit set then arrives in turn, the
/// builder appends exactly one entry per pull request, in lookup order, each
/// carrying its own commit set.
pub proof fn lemma_fanout_preserves_pull_order(
    pre: Builder,
    ps: Vec<PullRequest>,
    s1: Builder,
    a1: Action,
    sets: Seq<Vec<Commit>>,
    end: Builder,
)
    requires
        pre.phase == Phase::AwaitPulls,
        ps@.len() >= 1,
        sets.len() == ps@.len(),
        step_rel(pre, Event::Pulls(Outcome::Success(ps)), s1, a1),
        pull_run(s1, sets, end),
    ensures
        a1 == Action::FetchPullCommits(ps@[0].number),
        end.entries@ == pre.entries@ + Seq::new(
            ps@.len(),
            |i: int| built_entry(pre, ps@[i], sets[i]),
        ),
{
    assert(s1.pending@ == ps@);
    assert(s1.entries@ == pre.entries@);
    assert(s1.user == pre.user);
    assert(s1.current == pre.current);
    lemma_pull_run_entries(s1, sets, end);
    assert(end.entries@ =~= pre.entries@ + Seq::new(
        ps@.len(),
        |i: int| built_entry(pre, ps@[i], sets[i]),
    ));
}

/// A commit-listing failure is isolated: the repository finishes at once
/// with an empty activity — a result that still reaches the completion
/// barrier — and nothing of any other repository's builder is touched, each
/// repository having a builder of its own.
pub proof fn lemma_commit_failure_isolated(pre: Builder, post: Builder, action: Action)
    requires
        pre.phase == Phase::AwaitCommits,
        step_rel(pre, Event::Commits(Outcome::Failure), post, action),
    ensures
        post.phase == Phase::Finished,
        post.entries@.len() == 0,
        post.repository == pre.repository,
        action == Action::Finish,
{
}

} // verus!
