use activity_report::model::ActivityEntry;
use activity_report::model::Commit;
use activity_report::model::PullActivity;
use activity_report::model::PullRequest;
use activity_report::model::RepositoryActivity;
use activity_report::render::render_activity_text;
use activity_report::render::render_entry_text;
use activity_report::render::render_report_text;
use activity_report::render::u64_to_string;
use activity_report::window::month_window;

fn commit(sha: &str, message: &str, author: Option<&str>) -> Commit {
    Commit {
        sha: sha.to_string(),
        message: message.to_string(),
        author: author.map(|a| a.to_string()),
    }
}

fn pull_entry(
    number: u64,
    title: Option<&str>,
    commits: Vec<Commit>,
    user: &str,
    trigger: &str,
) -> ActivityEntry {
    ActivityEntry::PullRequestActivity(PullActivity {
        pull: PullRequest {
            number,
            title: title.map(|t| t.to_string()),
            author: user.to_string(),
        },
        commits,
        acting_user: user.to_string(),
        trigger_message: trigger.to_string(),
    })
}

#[test]
fn decimal_rendering_exact() {
    assert_eq!(u64_to_string(0), "0");
    assert_eq!(u64_to_string(7), "7");
    assert_eq!(u64_to_string(10), "10");
    assert_eq!(u64_to_string(407), "407");
    assert_eq!(u64_to_string(u64::MAX), "18446744073709551615");
}

#[test]
fn single_commit_line_exact() {
    let entry = ActivityEntry::SingleCommit(commit("0123456789", "msg", Some("user")));
    assert_eq!(render_entry_text(&entry), "msg: (0123456)\n");
}

#[test]
fn rendering_filters_acting_users_commits() {
    // A pull request containing a commit by the acting user and one by
    // somebody else: the hash list credits the acting user alone, truncated
    // to seven characters.
    let entry = pull_entry(
        5,
        Some("title"),
        vec![
            commit("aaaaaaaaaa", "a", Some("U")),
            commit("bbbbbbbbbb", "b", Some("V")),
        ],
        "U",
        "a",
    );
    let line = render_entry_text(&entry);
    assert_eq!(line, "#5: title (aaaaaaa)\n");
    assert!(!line.contains("bbbbbbb"));
}

#[test]
fn rendering_joins_several_user_commits() {
    let entry = pull_entry(
        12,
        Some("big change"),
        vec![
            commit("aaaaaaaaaa", "a", Some("U")),
            commit("bbbbbbbbbb", "b", Some("U")),
            commit("cccccccccc", "c", None),
        ],
        "U",
        "a",
    );
    assert_eq!(render_entry_text(&entry), "#12: big change (aaaaaaa, bbbbbbb)\n");
}

#[test]
fn missing_title_falls_back_to_trigger_message() {
    let entry = pull_entry(
        7,
        None,
        vec![commit("aaaaaaaaaa", "inner message", Some("U"))],
        "U",
        "fix things",
    );
    assert_eq!(render_entry_text(&entry), "#7: fix things (aaaaaaa)\n");
}

#[test]
fn repository_block_exact() {
    let activity = RepositoryActivity {
        repository: "tools".to_string(),
        entries: vec![ActivityEntry::SingleCommit(commit(
            "0123456789",
            "msg",
            Some("user"),
        ))],
    };
    assert_eq!(
        render_activity_text(&activity),
        "Kontrybucja do repozytorium kodu \"tools\":\nmsg: (0123456)\n\n"
    );
}

#[test]
fn empty_repository_excluded_from_report() {
    // Three collected repositories, one with no entries: the report holds
    // exactly the two non-empty blocks, in collection order.
    let one = RepositoryActivity {
        repository: "one".to_string(),
        entries: vec![ActivityEntry::SingleCommit(commit("aaaaaaaaaa", "a", None))],
    };
    let hollow = RepositoryActivity {
        repository: "hollow".to_string(),
        entries: Vec::new(),
    };
    let three = RepositoryActivity {
        repository: "three".to_string(),
        entries: vec![ActivityEntry::SingleCommit(commit("cccccccccc", "c", None))],
    };
    let report = render_report_text(&vec![one, hollow, three]);
    assert_eq!(
        report,
        "Kontrybucja do repozytorium kodu \"one\":\na: (aaaaaaa)\n\nKontrybucja do repozytorium kodu \"three\":\nc: (ccccccc)\n\n"
    );
    assert_eq!(report.matches("Kontrybucja").count(), 2);
    assert!(!report.contains("hollow"));
}

#[test]
fn month_window_regular_month() {
    let (since, until) = month_window(2024, 3);
    assert_eq!((since.year, since.month, since.day), (2024, 3, 1));
    assert_eq!((until.year, until.month, until.day), (2024, 4, 1));
}

#[test]
fn month_window_december_rolls_over() {
    let (since, until) = month_window(2024, 12);
    assert_eq!((since.year, since.month, since.day), (2024, 12, 1));
    assert_eq!((until.year, until.month, until.day), (2025, 1, 1));
}
