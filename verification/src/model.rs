//! The data model of the aggregation pipeline: commits, pull requests,
//! activity entries and per-repository activity, together with the structural
//! equality used for deduplication and the adjacency-based deduplication
//! itself.

use vstd::prelude::*;

verus! {

/// A commit as aggregation reads it: identified by its content hash (`sha`),
/// carrying the message that rendering uses for titles and an optional author
/// login.
pub struct Commit {
    pub sha: String,
    pub message: String,
    pub author: Option<String>,
}

impl Commit {
    /// A commit is well formed when its hash has at least the seven
    /// characters that rendering truncates it to.
    pub open spec fn wf(self) -> bool {
        self.sha@.len() >= 7
    }
}

/// A pull request: identified within its repository by `number`; the title is
/// absent on some pull requests, and rendering then falls back to the message
/// of the commit that led to it.
pub struct PullRequest {
    pub number: u64,
    pub title: Option<String>,
    pub author: String,
}

/// A pull request together with its full commit set, annotated with the user
/// the report is for and with the message of the triggering commit.
pub struct PullActivity {
    pub pull: PullRequest,
    /// The pull request's own commits, which may span several authors; the
    /// rendered hash list is restricted to the acting user's commits.
    pub commits: Vec<Commit>,
    /// The user the report is generated for.
    pub acting_user: String,
    /// Message of the commit whose pull-request lookup produced this entry;
    /// used as the title when the pull request has none.
    pub trigger_message: String,
}

impl PullActivity {
    /// Every commit in the set carries a full-length hash.
    pub open spec fn wf(self) -> bool {
        forall|i: int| 0 <= i < self.commits@.len() ==> (#[trigger] self.commits@[i]).wf()
    }
}

/// One reportable unit of contribution: a commit with no enclosing pull
/// request, or a pull request with its commit set.
pub enum ActivityEntry {
    SingleCommit(Commit),
    PullRequestActivity(PullActivity),
}

impl ActivityEntry {
    pub open spec fn wf(self) -> bool {
        match self {
            ActivityEntry::SingleCommit(c) => c.wf(),
            ActivityEntry::PullRequestActivity(p) => p.wf(),
        }
    }
}

/// The identifiers of a sequence of commits, in order.
pub open spec fn commit_shas(cs: Seq<Commit>) -> Seq<Seq<char>> {
    cs.map_values(|c: Commit| c.sha@)
}

/// Structural equality for deduplication: two bare commits are equal iff
/// their hashes match; two pull-request entries are equal iff the pull
/// requests' numbers match and the sequences of their commits' hashes match.
/// Nothing else (messages, titles, authors) takes part.
pub open spec fn entry_eq(a: ActivityEntry, b: ActivityEntry) -> bool {
    match (a, b) {
        (ActivityEntry::SingleCommit(c1), ActivityEntry::SingleCommit(c2)) => c1.sha@ == c2.sha@,
        (
            ActivityEntry::PullRequestActivity(p1),
            ActivityEntry::PullRequestActivity(p2),
        ) => p1.pull.number == p2.pull.number && commit_shas(p1.commits@) == commit_shas(
            p2.commits@,
        ),
        _ => false,
    }
}

/// Whether two commit sequences carry the same hashes in the same order.
fn commit_shas_equal(a: &Vec<Commit>, b: &Vec<Commit>) -> (r: bool)
    ensures
        r == (commit_shas(a@) == commit_shas(b@)),
{
    if a.len() != b.len() {
        assert(commit_shas(a@).len() != commit_shas(b@).len());
        return false;
    }
    let n = a.len();
    let mut i: usize = 0;
    while i < n
        invariant
            n == a@.len() == b@.len(),
            0 <= i <= n,
            forall|k: int| 0 <= k < i ==> commit_shas(a@)[k] == commit_shas(b@)[k],
        decreases n - i,
    {
        if a[i].sha != b[i].sha {
            assert(commit_shas(a@)[i as int] != commit_shas(b@)[i as int]);
            return false;
        }
        i += 1;
    }
    proof {
        assert(commit_shas(a@) =~= commit_shas(b@));
    }
    true
}

/// Executable form of [`entry_eq`].
pub fn entry_equal(a: &ActivityEntry, b: &ActivityEntry) -> (r: bool)
    ensures
        r == entry_eq(*a, *b),
{
    match (a, b) {
        (ActivityEntry::SingleCommit(c1), ActivityEntry::SingleCommit(c2)) => c1.sha == c2.sha,
        (ActivityEntry::PullRequestActivity(p1), ActivityEntry::PullRequestActivity(p2)) => {
            p1.pull.number == p2.pull.number && commit_shas_equal(&p1.commits, &p2.commits)
        },
        _ => false,
    }
}

/// A repository's name with its ordered, deduplicated activity. Produced once
/// per repository; a repository whose fetches failed or found nothing yields
/// one with no entries, which rendering skips but the completion barrier
/// still counts.
pub struct RepositoryActivity {
    pub repository: String,
    pub entries: Vec<ActivityEntry>,
}

impl RepositoryActivity {
    pub open spec fn wf(self) -> bool {
        forall|i: int| 0 <= i < self.entries@.len() ==> (#[trigger] self.entries@[i]).wf()
    }
}

/// What remains of `s` after collapsing adjacent duplicates (per
/// [`entry_eq`]): an entry is kept unless it equals the last kept entry, so
/// the first entry of every run of equal entries survives. Non-adjacent
/// duplicates are untouched.
pub open spec fn dedup_adjacent_spec(s: Seq<ActivityEntry>) -> Seq<ActivityEntry>
    decreases s.len(),
{
    if s.len() == 0 {
        Seq::empty()
    } else {
        let prefix = dedup_adjacent_spec(s.drop_last());
        if prefix.len() > 0 && entry_eq(prefix.last(), s.last()) {
            prefix
        } else {
            prefix.push(s.last())
        }
    }
}

/// Every entry of the deduplicated sequence stands somewhere in the original.
pub proof fn lemma_dedup_entries_from_input(s: Seq<ActivityEntry>)
    ensures
        forall|i: int|
            0 <= i < dedup_adjacent_spec(s).len() ==> s.contains(
                #[trigger] dedup_adjacent_spec(s)[i],
            ),
    decreases s.len(),
{
    if s.len() > 0 {
        lemma_dedup_entries_from_input(s.drop_last());
        assert forall|i: int| 0 <= i < dedup_adjacent_spec(s).len() implies s.contains(
            #[trigger] dedup_adjacent_spec(s)[i],
        ) by {
            let prefix = dedup_adjacent_spec(s.drop_last());
            if i < prefix.len() {
                let j = choose|j: int| 0 <= j < s.drop_last().len() && s.drop_last()[j] == prefix[i];
                assert(s[j] == prefix[i]);
            } else {
                assert(s[s.len() - 1] == s.last());
            }
        }
    }
}

/// Adjacent duplicates collapse: deduplication never leaves two neighbouring
/// equal entries.
pub proof fn lemma_dedup_no_adjacent_duplicates(s: Seq<ActivityEntry>)
    ensures
        forall|i: int|
            0 <= i < dedup_adjacent_spec(s).len() - 1 ==> !entry_eq(
                #[trigger] dedup_adjacent_spec(s)[i],
                dedup_adjacent_spec(s)[i + 1],
            ),
    decreases s.len(),
{
    if s.len() > 0 {
        lemma_dedup_no_adjacent_duplicates(s.drop_last());
        let prefix = dedup_adjacent_spec(s.drop_last());
        let d = dedup_adjacent_spec(s);
        if prefix.len() > 0 && entry_eq(prefix.last(), s.last()) {
            assert(d == prefix);
        } else {
            assert(d == prefix.push(s.last()));
            assert forall|i: int| 0 <= i < d.len() - 1 implies !entry_eq(
                #[trigger] d[i],
                d[i + 1],
            ) by {
                if i + 1 < prefix.len() {
                    assert(d[i] == prefix[i] && d[i + 1] == prefix[i + 1]);
                } else {
                    assert(i == prefix.len() - 1);
                    assert(d[i] == prefix.last());
                    assert(d[i + 1] == s.last());
                }
            }
        }
    }
}

/// Non-adjacent duplicates survive: a sequence with no two neighbouring
/// equal entries deduplicates to itself, duplicates elsewhere included.
pub proof fn lemma_dedup_keeps_non_adjacent(s: Seq<ActivityEntry>)
    requires
        forall|i: int| 0 <= i < s.len() - 1 ==> !entry_eq(#[trigger] s[i], s[i + 1]),
    ensures
        dedup_adjacent_spec(s) == s,
    decreases s.len(),
{
    if s.len() > 0 {
        assert forall|i: int|
            0 <= i < s.drop_last().len() - 1 implies !entry_eq(
            #[trigger] s.drop_last()[i],
            s.drop_last()[i + 1],
        ) by {
            assert(s.drop_last()[i] == s[i]);
            assert(s.drop_last()[i + 1] == s[i + 1]);
        }
        lemma_dedup_keeps_non_adjacent(s.drop_last());
        if s.len() >= 2 {
            assert(!entry_eq(s[s.len() - 2], s[s.len() - 1]));
        }
        assert(dedup_adjacent_spec(s) =~= s);
    }
}

/// Collapse adjacent duplicate entries, keeping the first of each run.
pub fn dedup_adjacent(entries: Vec<ActivityEntry>) -> (r: Vec<ActivityEntry>)
    ensures
        r@ == dedup_adjacent_spec(entries@),
{
    let mut rest = entries;
    let mut out: Vec<ActivityEntry> = Vec::new();
    let ghost all: Seq<ActivityEntry> = rest@;
    let ghost taken: int = 0;
    while rest.len() > 0
        invariant
            0 <= taken <= all.len(),
            rest@ == all.skip(taken),
            out@ == dedup_adjacent_spec(all.take(taken)),
        decreases rest@.len(),
    {
        let next = rest.remove(0);
        proof {
            assert(next == all[taken]);
            assert(rest@ =~= all.skip(taken + 1));
            assert(all.take(taken + 1).drop_last() =~= all.take(taken));
            assert(all.take(taken + 1).last() == all[taken]);
        }
        let keep = if out.len() == 0 {
            true
        } else {
            !entry_equal(&out[out.len() - 1], &next)
        };
        if keep {
            out.push(next);
        }
        proof {
            taken = taken + 1;
        }
    }
    proof {
        assert(all.take(taken) =~= all);
    }
    out
}

} // verus!
