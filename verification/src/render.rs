//! Rendering of the final report: one block per repository with activity,
//! one line per entry. A bare commit renders as `<message>: (<sha7>)`; a pull
//! request renders as `#<number>: <title> (<sha7>, <sha7>, ...)`, where
//! `<sha7>` is the first seven characters of a commit hash, the hash list is
//! restricted to the acting user's own commits, and an absent title falls
//! back to the triggering commit's message. Repositories with no entries are
//! left out of the text entirely.

use vstd::prelude::*;

use crate::builder::Action;
use crate::builder::Builder;
use crate::builder::Event;
use crate::builder::Outcome;
use crate::builder::Phase;
use crate::builder::step_rel;
use crate::model::ActivityEntry;
use crate::model::Commit;
use crate::model::PullActivity;
use crate::model::RepositoryActivity;

verus! {

/// The character of a single decimal digit.
pub open spec fn digit_char(d: nat) -> char {
    if d == 0 {
        '0'
    } else if d == 1 {
        '1'
    } else if d == 2 {
        '2'
    } else if d == 3 {
        '3'
    } else if d == 4 {
        '4'
    } else if d == 5 {
        '5'
    } else if d == 6 {
        '6'
    } else if d == 7 {
        '7'
    } else if d == 8 {
        '8'
    } else {
        '9'
    }
}

/// The decimal digits of `n`, most significant first, with no leading zeros
/// (a single `'0'` for zero).
pub open spec fn dec_digits(n: nat) -> Seq<char>
    decreases n,
{
    if n < 10 {
        seq![digit_char(n)]
    } else {
        dec_digits(n / 10).push(digit_char(n % 10))
    }
}

/// The first seven characters of a commit hash.
pub open spec fn sha7(sha: Seq<char>) -> Seq<char> {
    sha.subrange(0, 7)
}

/// Whether the commit's author login is `user`. An absent author never
/// matches.
pub open spec fn author_is(c: Commit, user: Seq<char>) -> bool {
    match c.author {
        Some(login) => login@ == user,
        None => false,
    }
}

/// The truncated hashes of the commits authored by `user`, in commit order.
pub open spec fn user_sha7s(commits: Seq<Commit>, user: Seq<char>) -> Seq<Seq<char>>
    decreases commits.len(),
{
    if commits.len() == 0 {
        Seq::empty()
    } else {
        let rest = user_sha7s(commits.drop_last(), user);
        if author_is(commits.last(), user) {
            rest.push(sha7(commits.last().sha@))
        } else {
            rest
        }
    }
}

/// The items joined with `", "` between neighbours.
pub open spec fn join_seps(items: Seq<Seq<char>>) -> Seq<char>
    decreases items.len(),
{
    if items.len() == 0 {
        Seq::empty()
    } else if items.len() == 1 {
        items[0]
    } else {
        join_seps(items.drop_last()) + ", "@ + items.last()
    }
}

/// The rendered title of a pull-request entry: the pull request's own title,
/// or, when it has none, the triggering commit's message.
pub open spec fn title_of(p: PullActivity) -> Seq<char> {
    match p.pull.title {
        Some(t) => t@,
        None => p.trigger_message@,
    }
}

/// One entry's line.
pub open spec fn render_entry_spec(e: ActivityEntry) -> Seq<char> {
    match e {
        ActivityEntry::SingleCommit(c) => c.message@ + ": ("@ + sha7(c.sha@) + ")\n"@,
        ActivityEntry::PullRequestActivity(p) => "#"@ + dec_digits(p.pull.number as nat) + ": "@
            + title_of(p) + " ("@ + join_seps(user_sha7s(p.commits@, p.acting_user@)) + ")\n"@,
    }
}

/// The entries' lines, in order.
pub open spec fn render_entries_spec(es: Seq<ActivityEntry>) -> Seq<char>
    decreases es.len(),
{
    if es.len() == 0 {
        Seq::empty()
    } else {
        render_entries_spec(es.drop_last()) + render_entry_spec(es.last())
    }
}

/// One repository's block: a heading, the entry lines, a blank line.
pub open spec fn render_activity_spec(a: RepositoryActivity) -> Seq<char> {
    "Kontrybucja do repozytorium kodu \""@ + a.repository@ + "\":\n"@ + render_entries_spec(
        a.entries@,
    ) + "\n"@
}

/// The whole report: the blocks of the repositories that have entries, in
/// collection order; repositories without entries leave no text.
pub open spec fn render_report_spec(rs: Seq<RepositoryActivity>) -> Seq<char>
    decreases rs.len(),
{
    if rs.len() == 0 {
        Seq::empty()
    } else {
        let head = if rs.last().entries@.len() == 0 {
            Seq::<char>::empty()
        } else {
            render_activity_spec(rs.last())
        };
        render_report_spec(rs.drop_last()) + head
    }
}

/// A single decimal digit as text.
fn digit_str(d: u64) -> (r: &'static str)
    requires
        d < 10,
    ensures
        r@ == seq![digit_char(d as nat)],
{
    let s: &'static str = match d {
        0 => "0",
        1 => "1",
        2 => "2",
        3 => "3",
        4 => "4",
        5 => "5",
        6 => "6",
        7 => "7",
        8 => "8",
        _ => "9",
    };
    proof {
        reveal_strlit("0");
        reveal_strlit("1");
        reveal_strlit("2");
        reveal_strlit("3");
        reveal_strlit("4");
        reveal_strlit("5");
        reveal_strlit("6");
        reveal_strlit("7");
        reveal_strlit("8");
        reveal_strlit("9");
        assert(s@ =~= seq![digit_char(d as nat)]);
    }
    s
}

/// The decimal text of `n`.
pub fn u64_to_string(n: u64) -> (r: String)
    ensures
        r@ == dec_digits(n as nat),
    decreases n,
{
    if n < 10 {
        digit_str(n).to_owned()
    } else {
        proof {
            assert(n / 10 < n) by (nonlinear_arith)
                requires
                    n >= 10,
            ;
        }
        let mut s = u64_to_string(n / 10);
        s.append(digit_str(n % 10));
        proof {
            assert(s@ =~= dec_digits(n as nat));
        }
        s
    }
}

/// The acting user's truncated hashes from one pull request's commit set,
/// joined with `", "`.
fn join_user_shas(commits: &Vec<Commit>, user: &String) -> (r: String)
    requires
        forall|i: int| 0 <= i < commits@.len() ==> (#[trigger] commits@[i]).wf(),
    ensures
        r@ == join_seps(user_sha7s(commits@, user@)),
{
    let mut out = String::new();
    let mut first: bool = true;
    let mut i: usize = 0;
    while i < commits.len()
        invariant
            0 <= i <= commits@.len(),
            forall|k: int| 0 <= k < commits@.len() ==> (#[trigger] commits@[k]).wf(),
            first <==> user_sha7s(commits@.take(i as int), user@).len() == 0,
            out@ == join_seps(user_sha7s(commits@.take(i as int), user@)),
        decreases commits@.len() - i,
    {
        proof {
            assert(commits@.take(i + 1).drop_last() =~= commits@.take(i as int));
            assert(commits@.take(i + 1).last() == commits@[i as int]);
        }
        let c = &commits[i];
        let matches_user = match &c.author {
            Some(login) => *login == *user,
            None => false,
        };
        if matches_user {
            if !first {
                out.append(", ");
            }
            let short = c.sha.as_str().substring_char(0, 7);
            out.append(short);
            first = false;
        }
        proof {
            let pre_seq = user_sha7s(commits@.take(i as int), user@);
            let post_seq = user_sha7s(commits@.take(i + 1), user@);
            if author_is(commits@[i as int], user@) {
                assert(post_seq == pre_seq.push(sha7(commits@[i as int].sha@)));
                assert(post_seq.drop_last() =~= pre_seq);
                assert(post_seq.last() == sha7(commits@[i as int].sha@));
                if pre_seq.len() == 0 {
                    assert(post_seq[0] == post_seq.last());
                }
            } else {
                assert(post_seq == pre_seq);
            }
        }
        i += 1;
        proof {
            assert(out@ =~= join_seps(user_sha7s(commits@.take(i as int), user@)));
        }
    }
    proof {
        assert(commits@.take(commits@.len() as int) =~= commits@);
    }
    out
}

/// One entry's line of the report.
pub fn render_entry_text(e: &ActivityEntry) -> (r: String)
    requires
        e.wf(),
    ensures
        r@ == render_entry_spec(*e),
{
    match e {
        ActivityEntry::SingleCommit(c) => {
            let mut out = c.message.clone();
            out.append(": (");
            let short = c.sha.as_str().substring_char(0, 7);
            out.append(short);
            out.append(")\n");
            proof {
                assert(out@ =~= render_entry_spec(*e));
            }
            out
        },
        ActivityEntry::PullRequestActivity(p) => {
            let mut out = "#".to_owned();
            let number = u64_to_string(p.pull.number);
            out.append(number.as_str());
            out.append(": ");
            match &p.pull.title {
                Some(t) => out.append(t.as_str()),
                None => out.append(p.trigger_message.as_str()),
            }
            out.append(" (");
            let shas = join_user_shas(&p.commits, &p.acting_user);
            out.append(shas.as_str());
            out.append(")\n");
            proof {
                assert(out@ =~= render_entry_spec(*e));
            }
            out
        },
    }
}

/// One repository's block of the report.
pub fn render_activity_text(a: &RepositoryActivity) -> (r: String)
    requires
        a.wf(),
    ensures
        r@ == render_activity_spec(*a),
{
    let mut out = "Kontrybucja do repozytorium kodu \"".to_owned();
    out.append(a.repository.as_str());
    out.append("\":\n");
    let mut i: usize = 0;
    while i < a.entries.len()
        invariant
            0 <= i <= a.entries@.len(),
            a.wf(),
            out@ == "Kontrybucja do repozytorium kodu \""@ + a.repository@ + "\":\n"@
                + render_entries_spec(a.entries@.take(i as int)),
        decreases a.entries@.len() - i,
    {
        proof {
            assert(a.entries@.take(i + 1).drop_last() =~= a.entries@.take(i as int));
            assert(a.entries@.take(i + 1).last() == a.entries@[i as int]);
        }
        let line = render_entry_text(&a.entries[i]);
        out.append(line.as_str());
        i += 1;
        proof {
            assert(out@ =~= "Kontrybucja do repozytorium kodu \""@ + a.repository@ + "\":\n"@
                + render_entries_spec(a.entries@.take(i as int)));
        }
    }
    out.append("\n");
    proof {
        assert(a.entries@.take(a.entries@.len() as int) =~= a.entries@);
        assert(out@ =~= render_activity_spec(*a));
    }
    out
}

/// The whole report's text: repositories in collection order, those without
/// entries left out.
pub fn render_report_text(results: &Vec<RepositoryActivity>) -> (r: String)
    requires
        forall|i: int| 0 <= i < results@.len() ==> (#[trigger] results@[i]).wf(),
    ensures
        r@ == render_report_spec(results@),
{
    let mut out = String::new();
    let mut i: usize = 0;
    while i < results.len()
        invariant
            0 <= i <= results@.len(),
            forall|k: int| 0 <= k < results@.len() ==> (#[trigger] results@[k]).wf(),
            out@ == render_report_spec(results@.take(i as int)),
        decreases results@.len() - i,
    {
        proof {
            assert(results@.take(i + 1).drop_last() =~= results@.take(i as int));
            assert(results@.take(i + 1).last() == results@[i as int]);
        }
        if results[i].entries.len() > 0 {
            let block = render_activity_text(&results[i]);
            out.append(block.as_str());
        }
        i += 1;
        proof {
            assert(out@ =~= render_report_spec(results@.take(i as int)));
        }
    }
    proof {
        assert(results@.take(results@.len() as int) =~= results@);
    }
    out
}

/// The rendered hash list of a pull-request entry credits the acting user
/// alone: commits by other authors contribute nothing, and every listed hash
/// is the truncated hash of one of the user's own commits in the set.
pub proof fn lemma_only_acting_users_commits(commits: Seq<Commit>, user: Seq<char>)
    ensures
        (forall|j: int| 0 <= j < commits.len() ==> !author_is(#[trigger] commits[j], user))
            ==> user_sha7s(commits, user) == Seq::<Seq<char>>::empty(),
        forall|i: int|
            0 <= i < user_sha7s(commits, user).len() ==> exists|j: int|
                0 <= j < commits.len() && author_is(#[trigger] commits[j], user) && (
                #[trigger] user_sha7s(commits, user)[i]) == sha7(commits[j].sha@),
    decreases commits.len(),
{
    if commits.len() > 0 {
        lemma_only_acting_users_commits(commits.drop_last(), user);
        assert(forall|j: int|
            0 <= j < commits.drop_last().len() ==> commits.drop_last()[j] == commits[j]);
        assert forall|i: int| 0 <= i < user_sha7s(commits, user).len() implies exists|j: int|
            0 <= j < commits.len() && author_is(#[trigger] commits[j], user) && (
        #[trigger] user_sha7s(commits, user)[i]) == sha7(commits[j].sha@) by {
            let rest = user_sha7s(commits.drop_last(), user);
            if i < rest.len() {
                let j = choose|j: int|
                    0 <= j < commits.drop_last().len() && author_is(
                        #[trigger] commits.drop_last()[j],
                        user,
                    ) && rest[i] == sha7(commits.drop_last()[j].sha@);
                assert(author_is(commits[j], user));
            } else {
                let j = commits.len() - 1;
                assert(author_is(commits[j], user));
            }
        }
    }
}

/// Title fallback: a pull-request entry without a title renders with the
/// triggering commit's message, verbatim, in the title position.
pub proof fn lemma_title_fallback(p: PullActivity)
    requires
        p.pull.title is None,
    ensures
        render_entry_spec(ActivityEntry::PullRequestActivity(p)) == "#"@ + dec_digits(
            p.pull.number as nat,
        ) + ": "@ + p.trigger_message@ + " ("@ + join_seps(
            user_sha7s(p.commits@, p.acting_user@),
        ) + ")\n"@,
{
}

/// Title fallback, end to end: when the pull request whose commit set just
/// arrived has no title, the entry the builder appends renders with the
/// message of the commit that led to that pull request.
pub proof fn lemma_title_fallback_built(
    pre: Builder,
    cs: Vec<Commit>,
    post: Builder,
    action: Action,
)
    requires
        pre.phase == Phase::AwaitPullCommits,
        pre.pending@.len() > 0,
        pre.current is Some,
        step_rel(pre, Event::PullCommits(Outcome::Success(cs)), post, action),
        pre.pending@[0].title is None,
    ensures
        post.entries@.len() == pre.entries@.len() + 1,
        render_entry_spec(post.entries@.last()) == "#"@ + dec_digits(
            pre.pending@[0].number as nat,
        ) + ": "@ + pre.current->0.message@ + " ("@ + join_seps(user_sha7s(cs@, pre.user@))
            + ")\n"@,
{
}

/// A repository with no entries is invisible in the rendered report: putting
/// one anywhere into the collected results leaves the text unchanged (while
/// it still counted toward the completion barrier).
pub proof fn lemma_empty_repository_invisible(
    rs: Seq<RepositoryActivity>,
    i: int,
    empty: RepositoryActivity,
)
    requires
        0 <= i <= rs.len(),
        empty.entries@.len() == 0,
    ensures
        render_report_spec(rs.insert(i, empty)) == render_report_spec(rs),
    decreases rs.len(),
{
    let inserted = rs.insert(i, empty);
    if i == rs.len() {
        assert(inserted.drop_last() =~= rs);
        assert(inserted.last() == empty);
    } else {
        lemma_empty_repository_invisible(rs.drop_last(), i, empty);
        assert(inserted.drop_last() =~= rs.drop_last().insert(i, empty));
        assert(inserted.last() == rs.last());
    }
}

} // verus!
