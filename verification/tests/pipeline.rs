use activity_report::aggregate::Collector;
use activity_report::builder::Action;
use activity_report::builder::Builder;
use activity_report::builder::Event;
use activity_report::builder::Outcome;
use activity_report::model::dedup_adjacent;
use activity_report::model::ActivityEntry;
use activity_report::model::Commit;
use activity_report::model::PullActivity;
use activity_report::model::PullRequest;
use activity_report::model::RepositoryActivity;

fn commit(sha: &str, message: &str, author: Option<&str>) -> Commit {
    Commit {
        sha: sha.to_string(),
        message: message.to_string(),
        author: author.map(|a| a.to_string()),
    }
}

fn pull(number: u64, title: Option<&str>, author: &str) -> PullRequest {
    PullRequest {
        number,
        title: title.map(|t| t.to_string()),
        author: author.to_string(),
    }
}

fn single(sha: &str) -> ActivityEntry {
    ActivityEntry::SingleCommit(commit(sha, "message", Some("user")))
}

fn entry_shas(entries: &[ActivityEntry]) -> Vec<String> {
    entries
        .iter()
        .map(|e| match e {
            ActivityEntry::SingleCommit(c) => c.sha.clone(),
            ActivityEntry::PullRequestActivity(p) => format!("#{}", p.pull.number),
        })
        .collect()
}

fn empty_activity(name: &str) -> RepositoryActivity {
    RepositoryActivity {
        repository: name.to_string(),
        entries: Vec::new(),
    }
}

#[test]
fn barrier_collects_all_regardless_of_order() {
    // Five dispatched repositories reporting in pseudo-random orders: the
    // barrier releases exactly at the fifth arrival, no earlier, whatever
    // the order.
    let mut seed: u64 = 42;
    for _round in 0..20 {
        let mut pending: Vec<usize> = (0..5).collect();
        let mut collector = Collector::new(5);
        while !pending.is_empty() {
            assert!(!collector.is_complete());
            seed = seed.wrapping_mul(6364136223846793005).wrapping_add(1442695040888963407);
            let pick = (seed >> 33) as usize % pending.len();
            let idx = pending.remove(pick);
            collector.submit(empty_activity(&format!("repo-{}", idx)));
        }
        assert!(collector.is_complete());
        assert_eq!(collector.into_results().len(), 5);
    }
}

#[test]
fn barrier_keeps_arrival_order() {
    let arrival_order = [3usize, 0, 4, 2, 1];
    let mut collector = Collector::new(5);
    for (done, idx) in arrival_order.iter().enumerate() {
        assert!(!collector.is_complete());
        assert_eq!(done, collector.collected.len());
        collector.submit(empty_activity(&format!("repo-{}", idx)));
    }
    assert!(collector.is_complete());
    let results = collector.into_results();
    assert_eq!(results.len(), 5);
    assert_eq!(results[0].repository, "repo-3");
    assert_eq!(results[4].repository, "repo-1");
}

#[test]
fn barrier_releases_for_zero_repositories() {
    let collector = Collector::new(0);
    assert!(collector.is_complete());
    assert_eq!(collector.into_results().len(), 0);
}

#[test]
fn adjacent_duplicates_collapse() {
    let entries = vec![single("1111111"), single("1111111"), single("2222222")];
    let deduped = dedup_adjacent(entries);
    assert_eq!(entry_shas(&deduped), vec!["1111111", "2222222"]);
}

#[test]
fn non_adjacent_duplicates_survive() {
    let entries = vec![single("1111111"), single("2222222"), single("1111111")];
    let deduped = dedup_adjacent(entries);
    assert_eq!(entry_shas(&deduped), vec!["1111111", "2222222", "1111111"]);
}

#[test]
fn dedup_ignores_titles_and_messages() {
    // Structural equality for pull-request entries looks at the number and
    // the commit hashes alone, so differing titles still collapse.
    let make = |title: &str| {
        ActivityEntry::PullRequestActivity(PullActivity {
            pull: pull(9, Some(title), "user"),
            commits: vec![commit("aaaaaaaa", "m", Some("user"))],
            acting_user: "user".to_string(),
            trigger_message: title.to_string(),
        })
    };
    let deduped = dedup_adjacent(vec![make("one"), make("two")]);
    assert_eq!(deduped.len(), 1);
    match &deduped[0] {
        ActivityEntry::PullRequestActivity(p) => assert_eq!(p.pull.title.as_deref(), Some("one")),
        _ => panic!("expected a pull-request entry"),
    }
}

#[test]
fn commit_without_pulls_yields_one_single_commit() {
    let mut builder = Builder::new("repo".to_string(), "user".to_string());
    let action = builder.step(Event::Commits(Outcome::Success(vec![commit(
        "abcdef012",
        "fix",
        Some("user"),
    )])));
    match action {
        Action::FetchPulls(sha) => assert_eq!(sha, "abcdef012"),
        _ => panic!("expected a pull-request lookup"),
    }
    let action = builder.step(Event::Pulls(Outcome::Success(Vec::new())));
    assert!(matches!(action, Action::Finish));
    let activity = builder.finish();
    assert_eq!(activity.entries.len(), 1);
    match &activity.entries[0] {
        ActivityEntry::SingleCommit(c) => assert_eq!(c.sha, "abcdef012"),
        _ => panic!("expected a bare commit entry"),
    }
}

#[test]
fn commit_with_two_pulls_yields_two_entries() {
    let mut builder = Builder::new("repo".to_string(), "user".to_string());
    builder.step(Event::Commits(Outcome::Success(vec![commit(
        "abcdef012",
        "fix",
        Some("user"),
    )])));
    let action = builder.step(Event::Pulls(Outcome::Success(vec![
        pull(1, Some("first"), "user"),
        pull(2, Some("second"), "user"),
    ])));
    assert!(matches!(action, Action::FetchPullCommits(1)));
    let action = builder.step(Event::PullCommits(Outcome::Success(vec![commit(
        "aaaaaaaa",
        "a",
        Some("user"),
    )])));
    assert!(matches!(action, Action::FetchPullCommits(2)));
    let action = builder.step(Event::PullCommits(Outcome::Success(vec![
        commit("bbbbbbbb", "b", Some("user")),
        commit("cccccccc", "c", Some("other")),
    ])));
    assert!(matches!(action, Action::Finish));
    let activity = builder.finish();
    assert_eq!(activity.entries.len(), 2);
    match (&activity.entries[0], &activity.entries[1]) {
        (
            ActivityEntry::PullRequestActivity(first),
            ActivityEntry::PullRequestActivity(second),
        ) => {
            assert_eq!(first.pull.number, 1);
            assert_eq!(first.commits.len(), 1);
            assert_eq!(first.commits[0].sha, "aaaaaaaa");
            assert_eq!(second.pull.number, 2);
            assert_eq!(second.commits.len(), 2);
            assert_eq!(second.trigger_message, "fix");
        },
        _ => panic!("expected two pull-request entries"),
    }
}

#[test]
fn commit_listing_failure_is_isolated() {
    // One failing commit fetch among three repositories: the two siblings
    // still produce their activity, the failing one reports empty, and the
    // barrier still sees all three.
    let mut collector = Collector::new(3);
    for (name, fails) in [("one", false), ("two", true), ("three", false)] {
        let mut builder = Builder::new(name.to_string(), "user".to_string());
        let outcome = if fails {
            Outcome::Failure
        } else {
            Outcome::Success(vec![commit("abcdef012", "fix", Some("user"))])
        };
        let mut action = builder.step(Event::Commits(outcome));
        while let Action::FetchPulls(_) = action {
            action = builder.step(Event::Pulls(Outcome::Success(Vec::new())));
        }
        assert!(matches!(action, Action::Finish));
        collector.submit(builder.finish());
    }
    assert!(collector.is_complete());
    let results = collector.into_results();
    assert_eq!(results.len(), 3);
    assert_eq!(results[0].entries.len(), 1);
    assert_eq!(results[1].entries.len(), 0);
    assert_eq!(results[2].entries.len(), 1);
}

#[test]
fn pull_lookup_failure_empties_repository() {
    let mut builder = Builder::new("repo".to_string(), "user".to_string());
    builder.step(Event::Commits(Outcome::Success(vec![commit(
        "abcdef012",
        "fix",
        Some("user"),
    )])));
    let action = builder.step(Event::Pulls(Outcome::Failure));
    assert!(matches!(action, Action::Finish));
    let activity = builder.finish();
    assert_eq!(activity.repository, "repo");
    assert_eq!(activity.entries.len(), 0);
}

#[test]
fn pull_commit_fetch_failure_empties_repository() {
    let mut builder = Builder::new("repo".to_string(), "user".to_string());
    builder.step(Event::Commits(Outcome::Success(vec![commit(
        "abcdef012",
        "fix",
        Some("user"),
    )])));
    builder.step(Event::Pulls(Outcome::Success(vec![pull(1, None, "user")])));
    let action = builder.step(Event::PullCommits(Outcome::Failure));
    assert!(matches!(action, Action::Finish));
    assert_eq!(builder.finish().entries.len(), 0);
}

#[test]
fn end_to_end_empty_repository_counted_but_not_rendered() {
    // Three repositories driven through their builders: one finds a commit,
    // one finds nothing, one fails its fetch. All three reach the barrier;
    // the report shows exactly one block.
    let mut collector = Collector::new(3);
    for (name, outcome) in [
        (
            "busy",
            Outcome::Success(vec![commit("abcdef012", "fix", Some("user"))]),
        ),
        ("idle", Outcome::Success(Vec::new())),
        ("broken", Outcome::Failure),
    ] {
        let mut builder = Builder::new(name.to_string(), "user".to_string());
        let mut action = builder.step(Event::Commits(outcome));
        while let Action::FetchPulls(_) = action {
            action = builder.step(Event::Pulls(Outcome::Success(Vec::new())));
        }
        assert!(matches!(action, Action::Finish));
        collector.submit(builder.finish());
    }
    assert!(collector.is_complete());
    let results = collector.into_results();
    assert_eq!(results.len(), 3);
    let report = activity_report::render::render_report_text(&results);
    assert_eq!(report.matches("Kontrybucja").count(), 1);
    assert!(report.contains("\"busy\""));
    assert!(!report.contains("idle"));
    assert!(!report.contains("broken"));
}

#[test]
fn builder_dedups_adjacent_entries_at_finish() {
    // The same commit listed twice in a row, each resolving to no pull
    // request, collapses to one entry.
    let mut builder = Builder::new("repo".to_string(), "user".to_string());
    builder.step(Event::Commits(Outcome::Success(vec![
        commit("abcdef012", "fix", Some("user")),
        commit("abcdef012", "fix", Some("user")),
        commit("9876543ff", "other", Some("user")),
    ])));
    for _ in 0..3 {
        builder.step(Event::Pulls(Outcome::Success(Vec::new())));
    }
    let activity = builder.finish();
    assert_eq!(entry_shas(&activity.entries), vec!["abcdef012", "9876543ff"]);
}
