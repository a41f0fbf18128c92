use cherries_4_prs::api;
use cherries_4_prs::bonusly;
use cherries_4_prs::bonusly::Bonus;
use cherries_4_prs::clock::Timestamp;
use cherries_4_prs::github;
use cherries_4_prs::github::{PullRequest, Review, ReviewState};
use cherries_4_prs::program::{Candidate, Scanned};
use cherries_4_prs::{Config, Delivery, MissingEmail, Program, RepliedReview, ReviewStatus, State};

const START: Timestamp = Timestamp { secs: 1_700_000_000, nanos: 250 };

fn config(overrides: &[(&str, &str)]) -> Config {
    let mut watched = github::Config::new("author".to_string(), "acme".to_string());
    for (login, email) in overrides {
        watched.force_email(login.to_string(), email.to_string());
    }
    Config::from_path(
        "config.toml".to_string(),
        "state.json".to_string(),
        "credentials.toml".to_string(),
        api::Config {
            github: watched,
            cherries_per_check: 3,
            data_path: "state.json".to_string(),
            credentials_path: "credentials.toml".to_string(),
            pr_check_minutes: 15,
            state_update_days: 7,
            send_bonus_delay_seconds: 60,
            notify_send_user: None,
        },
    )
}

fn entry(full_name: &str, email: &str) -> bonusly::User {
    bonusly::User {
        id: email.to_string(),
        short_name: String::new(),
        full_name: full_name.to_string(),
        display_name: full_name.to_string(),
        first_name: String::new(),
        last_name: String::new(),
        email: email.to_string(),
        can_receive: true,
    }
}

fn program(overrides: &[(&str, &str)]) -> Program {
    let config = config(overrides);
    let mut state = State::starting_at(START, &config).unwrap();
    state.update(START, vec!["#thanks".to_string()], vec![entry("Jane Doe", "jane@co.example")]);
    Program { config, state }
}

fn pr(number: i64) -> PullRequest {
    PullRequest { org: "acme".to_string(), repo: "rocket".to_string(), number }
}

fn review(id: u64, login: &str, state: Option<ReviewState>) -> Review {
    Review { id, login: login.to_string(), state, html_url: format!("https://example/review/{id}") }
}

fn approval(id: u64, login: &str) -> Review {
    review(id, login, Some(ReviewState::Approved))
}

fn waiting(number: i64, login: &str, id: u64) -> MissingEmail {
    MissingEmail { pr: pr(number), reviewer: login.to_string(), id }
}

fn profile(login: &str, email: Option<&str>, name: Option<&str>) -> github::User {
    github::User {
        id: 1,
        login: login.to_string(),
        email: email.map(|e| e.to_string()),
        name: name.map(|n| n.to_string()),
    }
}

fn giver() -> String {
    "author@co.example".to_string()
}

fn bonus_for(email: &str, id: u64) -> Bonus {
    Bonus {
        giver_email: giver(),
        receiver_email: email.to_string(),
        amount: 3,
        hashtag: "#thanks".to_string(),
        reason: format!("thanks for approving my PR! https://example/review/{id}"),
    }
}

#[test]
fn fresh_state_scans_from_one_interval_back() {
    let state = State::starting_at(START, &config(&[])).unwrap();
    assert_eq!(state.last_update, START);
    assert_eq!(state.cutoff, Timestamp { secs: 1_700_000_000 - 900, nanos: 250 });
    assert!(state.replied_prs.is_empty());
    assert!(state.non_replied_prs.is_empty());
    assert!(state.bonusly_users.is_empty());
    assert!(state.hashtags.is_empty());
    assert_eq!(state.github_user("jdoe"), None);
}

#[test]
fn fresh_state_needs_a_cutoff_that_can_be_written() {
    let at = Timestamp { secs: i64::MIN + 899, nanos: 0 };
    assert!(State::starting_at(at, &config(&[])).is_none());
    let at = Timestamp { secs: i64::MIN + 900, nanos: 0 };
    assert_eq!(State::starting_at(at, &config(&[])).unwrap().cutoff.secs, i64::MIN);
}

#[test]
fn fresh_state_reads_the_clock() {
    let state = State::new(&config(&[])).unwrap();
    assert!(state.last_update.secs > 1_600_000_000);
    assert!(state.last_update.nanos < 1_000_000_000);
    assert_eq!(state.cutoff.secs, state.last_update.secs - 900);
    assert_eq!(state.cutoff.nanos, state.last_update.nanos);
}

#[test]
fn directory_is_stale_after_the_interval() {
    let p = program(&[]);
    let week = 604_800;
    let just_before = Timestamp { secs: START.secs + week, nanos: 249 };
    let just_then = Timestamp { secs: START.secs + week, nanos: 250 };
    assert!(!p.state.is_stale_at(&START, &p.config));
    assert!(!p.state.is_stale_at(&just_before, &p.config));
    assert!(p.state.is_stale_at(&just_then, &p.config));
    let (now, stale) = p.state.maybe_update(&p.config);
    assert!(now.secs > 1_600_000_000);
    assert_eq!(stale, p.state.is_stale_at(&now, &p.config));
}

#[test]
fn refresh_replaces_the_directory() {
    let mut p = program(&[]);
    let later = Timestamp { secs: START.secs + 5, nanos: 0 };
    p.state.update(later, vec!["#a".to_string(), "#b".to_string()], vec![]);
    assert_eq!(p.state.last_update, later);
    assert_eq!(p.state.hashtags, vec!["#a".to_string(), "#b".to_string()]);
    assert!(p.state.bonusly_users.is_empty());
    assert_eq!(p.state.cutoff, Timestamp { secs: START.secs - 900, nanos: 250 });
}

#[test]
fn cached_profile_is_never_replaced() {
    let mut p = program(&[]);
    p.state.remember("jdoe".to_string(), profile("jdoe", None, Some("Jane Doe")));
    p.state.remember("jdoe".to_string(), profile("jdoe", None, Some("Someone Else")));
    assert_eq!(p.state.github_user("jdoe"), Some(profile("jdoe", None, Some("Jane Doe"))));
    assert_eq!(p.state.github_user("other"), None);
}

#[test]
fn scan_keeps_new_approvals_only() {
    let mut p = program(&[]);
    p.state.insert_replied(RepliedReview { pr: pr(1), reviewer: "paid".to_string() });
    let scanned = vec![
        Scanned {
            pr: pr(1),
            reviews: vec![
                approval(10, "paid"),
                review(11, "critic", Some(ReviewState::ChangesRequested)),
                approval(12, "jdoe"),
                review(13, "silent", None),
            ],
        },
        Scanned { pr: pr(2), reviews: vec![review(20, "critic", Some(ReviewState::Commented))] },
        Scanned { pr: pr(3), reviews: vec![approval(30, "paid")] },
    ];
    let found = p.new_approved_reviews(&scanned, &vec![]);
    assert_eq!(
        found,
        vec![
            Candidate { pr: pr(1), review: approval(12, "jdoe") },
            Candidate { pr: pr(3), review: approval(30, "paid") },
        ]
    );
}

#[test]
fn later_scan_of_a_pull_request_replaces_the_earlier() {
    let p = program(&[]);
    let scanned = vec![
        Scanned { pr: pr(1), reviews: vec![approval(10, "a")] },
        Scanned { pr: pr(2), reviews: vec![approval(20, "b")] },
        Scanned { pr: pr(1), reviews: vec![approval(11, "c"), approval(12, "d")] },
        Scanned { pr: pr(2), reviews: vec![review(21, "e", None)] },
    ];
    let found = p.new_approved_reviews(&scanned, &vec![]);
    assert_eq!(
        found,
        vec![
            Candidate { pr: pr(2), review: approval(20, "b") },
            Candidate { pr: pr(1), review: approval(11, "c") },
            Candidate { pr: pr(1), review: approval(12, "d") },
        ]
    );
}

#[test]
fn retried_reviews_follow_the_scan() {
    let p = program(&[]);
    let scanned = vec![Scanned { pr: pr(1), reviews: vec![approval(10, "a")] }];
    let retried = vec![
        Candidate { pr: pr(7), review: approval(70, "old") },
        Candidate { pr: pr(1), review: review(9, "late", Some(ReviewState::Dismissed)) },
    ];
    let found = p.new_approved_reviews(&scanned, &retried);
    assert_eq!(
        found,
        vec![
            Candidate { pr: pr(1), review: approval(10, "a") },
            Candidate { pr: pr(7), review: approval(70, "old") },
            Candidate { pr: pr(1), review: review(9, "late", Some(ReviewState::Dismissed)) },
        ]
    );
}

#[test]
fn unknown_reviewers_are_those_without_a_profile() {
    let mut p = program(&[]);
    p.state.remember("known".to_string(), profile("known", None, None));
    let found = vec![
        Candidate { pr: pr(1), review: approval(1, "new") },
        Candidate { pr: pr(1), review: approval(2, "known") },
        Candidate { pr: pr(2), review: approval(3, "new") },
    ];
    assert_eq!(p.unknown_reviewers(&found), vec!["new".to_string(), "new".to_string()]);
}

#[test]
fn resolved_review_is_made_ready() {
    let mut p = program(&[]);
    let status = p.classify(
        &giver(),
        &pr(42),
        &approval(9, "jdoe"),
        &profile("jdoe", None, Some("Jane Doe")),
        0,
    );
    assert_eq!(
        status,
        Some(ReviewStatus::Ready(waiting(42, "jdoe", 9), bonus_for("jane@co.example", 9)))
    );
}

#[test]
fn hashtag_is_the_one_picked() {
    let mut p = program(&[]);
    p.state.update(START, vec!["#a".to_string(), "#b".to_string(), "#c".to_string()], vec![]);
    let status = p.classify(
        &giver(),
        &pr(42),
        &approval(9, "jdoe"),
        &profile("jdoe", Some("jane@starry.com"), None),
        2,
    );
    match status {
        Some(ReviewStatus::Ready(_, bonus)) => {
            assert_eq!(bonus.hashtag, "#c");
            assert_eq!(bonus.receiver_email, "jane@starry.com");
            assert_eq!(bonus.amount, 3);
        }
        other => panic!("no reward made ready: {other:?}"),
    }
}

#[test]
fn unresolved_review_is_reported_once() {
    let mut p = program(&[]);
    let nobody = profile("ghost", None, None);
    let status = p.classify(&giver(), &pr(42), &approval(9, "ghost"), &nobody, 0);
    assert_eq!(status, Some(ReviewStatus::MissingEmail(waiting(42, "ghost", 9))));
    assert_eq!(p.reply(status.unwrap(), Delivery::Withheld), Ok(()));
    assert!(p.state.is_pending(&waiting(42, "ghost", 9)));
    let again = p.classify(&giver(), &pr(42), &approval(9, "ghost"), &nobody, 0);
    assert_eq!(again, None);
    assert!(p.state.is_pending(&waiting(42, "ghost", 9)));
}

#[test]
fn drawn_hashtag_is_one_of_those_held() {
    let mut p = program(&[]);
    let held = vec!["#a".to_string(), "#b".to_string(), "#c".to_string()];
    p.state.update(START, held.clone(), vec![entry("Jane Doe", "jane@co.example")]);
    p.state.remember("jdoe".to_string(), profile("jdoe", None, Some("Jane Doe")));
    let found: Vec<Candidate> =
        (0..40).map(|n| Candidate { pr: pr(n), review: approval(n as u64, "jdoe") }).collect();
    let statuses = p.reviews(&giver(), &found);
    assert_eq!(statuses.len(), 40);
    for status in statuses {
        match status {
            ReviewStatus::Ready(_, bonus) => assert!(held.contains(&bonus.hashtag)),
            other => panic!("no reward made ready: {other:?}"),
        }
    }
}

#[test]
fn pending_review_resolves_and_is_rewarded() {
    let mut p = program(&[]);
    p.state.insert_pending(waiting(42, "jdoe", 9));
    assert_eq!(p.state.pending_reviews(), vec![waiting(42, "jdoe", 9)]);

    let retried = vec![Candidate { pr: pr(42), review: approval(9, "jdoe") }];
    let found = p.new_approved_reviews(&vec![], &retried);
    assert_eq!(p.unknown_reviewers(&found), vec!["jdoe".to_string()]);
    p.state.remember("jdoe".to_string(), profile("jdoe", Some("jane@starry.com"), None));

    let mut statuses = p.reviews(&giver(), &found);
    assert_eq!(
        statuses,
        vec![ReviewStatus::Ready(waiting(42, "jdoe", 9), bonus_for("jane@starry.com", 9))]
    );
    let status = statuses.pop().unwrap();
    assert_eq!(p.next_bonus(&status), Some(bonus_for("jane@starry.com", 9)));
    assert_eq!(p.reply(status, Delivery::Sent), Ok(()));

    assert!(p.state.non_replied_prs.is_empty());
    assert_eq!(p.state.replied_prs, vec![RepliedReview { pr: pr(42), reviewer: "jdoe".to_string() }]);
    assert!(p.state.has_replied(&pr(42), &"jdoe".to_string()));
    assert!(!p.state.is_pending(&waiting(42, "jdoe", 9)));
}

#[test]
fn failed_reward_waits_and_the_cycle_still_ends() {
    let mut p = program(&[]);
    p.state.remember("jdoe".to_string(), profile("jdoe", None, Some("Jane Doe")));
    let found = vec![Candidate { pr: pr(42), review: approval(9, "jdoe") }];
    let mut statuses = p.reviews(&giver(), &found);
    let status = statuses.pop().unwrap();
    assert!(p.next_bonus(&status).is_some());

    let mut errors = Vec::new();
    if let Err(message) = p.reply(status, Delivery::Failed("connection reset".to_string())) {
        errors.push(message);
    }
    assert_eq!(errors, vec!["connection reset".to_string()]);
    assert_eq!(p.state.non_replied_prs, vec![waiting(42, "jdoe", 9)]);
    assert!(p.state.replied_prs.is_empty());

    let end = Timestamp { secs: START.secs + 60, nanos: 0 };
    assert_eq!(p.finish_at(end, errors), Err(vec!["connection reset".to_string()]));
    assert_eq!(p.state.cutoff, end);
    assert_eq!(p.state.pending_reviews(), vec![waiting(42, "jdoe", 9)]);
}

#[test]
fn rewarded_pair_is_never_rewarded_again() {
    let mut p = program(&[]);
    p.state.remember("jdoe".to_string(), profile("jdoe", None, Some("Jane Doe")));
    let first = ReviewStatus::Ready(waiting(42, "jdoe", 9), bonus_for("jane@co.example", 9));
    assert_eq!(p.reply(first, Delivery::Sent), Ok(()));

    let scanned = vec![Scanned { pr: pr(42), reviews: vec![approval(10, "jdoe")] }];
    assert_eq!(p.new_approved_reviews(&scanned, &vec![]), vec![]);

    let second = ReviewStatus::Ready(waiting(42, "jdoe", 10), bonus_for("jane@co.example", 10));
    assert_eq!(p.next_bonus(&second), None);
    assert_eq!(p.reply(second, Delivery::Sent), Ok(()));
    let third = ReviewStatus::MissingEmail(waiting(42, "jdoe", 11));
    assert_eq!(p.next_bonus(&third), None);
    assert_eq!(p.reply(third, Delivery::Withheld), Ok(()));
    let fourth = ReviewStatus::Ready(waiting(42, "jdoe", 12), bonus_for("jane@co.example", 12));
    assert_eq!(p.reply(fourth, Delivery::Failed("late".to_string())), Err("late".to_string()));

    assert_eq!(p.state.replied_prs, vec![RepliedReview { pr: pr(42), reviewer: "jdoe".to_string() }]);
    assert!(p.state.non_replied_prs.is_empty());
}

#[test]
fn reward_clears_every_waiting_review_of_the_pair() {
    let mut p = program(&[]);
    p.state.insert_pending(waiting(42, "jdoe", 9));
    p.state.insert_pending(waiting(42, "jdoe", 10));
    p.state.insert_pending(waiting(42, "other", 11));
    p.state.insert_pending(waiting(43, "jdoe", 12));
    p.state.insert_pending(waiting(42, "jdoe", 9));
    assert_eq!(p.state.non_replied_prs.len(), 4);
    let status = ReviewStatus::Ready(waiting(42, "jdoe", 9), bonus_for("jane@co.example", 9));
    assert_eq!(p.reply(status, Delivery::Sent), Ok(()));
    assert_eq!(p.state.non_replied_prs, vec![waiting(42, "other", 11), waiting(43, "jdoe", 12)]);
    p.state.insert_pending(waiting(42, "jdoe", 13));
    assert_eq!(p.state.non_replied_prs.len(), 2);
    p.state.remove_pending(&waiting(43, "jdoe", 12));
    p.state.remove_pending(&waiting(43, "jdoe", 99));
    assert_eq!(p.state.non_replied_prs, vec![waiting(42, "other", 11)]);
}

#[test]
fn unresolved_review_waits_into_the_next_cycle() {
    let mut p = program(&[]);
    p.state.remember("ghost".to_string(), profile("ghost", None, Some("No One")));
    let found = vec![Candidate { pr: pr(5), review: approval(50, "ghost") }];
    for status in p.reviews(&giver(), &found) {
        assert_eq!(p.next_bonus(&status), None);
        assert_eq!(p.reply(status, Delivery::Withheld), Ok(()));
    }
    let far = Timestamp { secs: START.secs + 10_000_000, nanos: 0 };
    assert_eq!(p.finish_at(far, Vec::new()), Ok(()));
    assert_eq!(p.state.pending_reviews(), vec![waiting(5, "ghost", 50)]);
}

#[test]
fn cycle_end_moves_the_watermark() {
    let mut p = program(&[]);
    let before = p.state.cutoff;
    let end = Timestamp { secs: START.secs + 900, nanos: 1 };
    assert_eq!(p.finish_at(end, Vec::new()), Ok(()));
    assert_eq!(p.state.cutoff, end);
    assert!(before.at_or_before(&p.state.cutoff));
    assert!(!p.state.cutoff.at_or_before(&before));
    assert_eq!(p.state.last_update, START);
}

#[test]
fn cycle_end_reads_the_clock() {
    let mut p = program(&[]);
    assert_eq!(p.reply_all_and_wait(vec!["a".to_string(), "b".to_string()]),
        Err(vec!["a".to_string(), "b".to_string()]));
    assert!(p.state.cutoff.secs > START.secs);
    assert!(p.state.cutoff.nanos < 1_000_000_000);
    let first = p.state.cutoff;
    assert_eq!(p.reply_all_and_wait(Vec::new()), Ok(()));
    assert!(first.at_or_before(&p.state.cutoff));
}

#[test]
fn restored_state_keeps_each_pair_once() {
    let replied = vec![
        RepliedReview { pr: pr(1), reviewer: "a".to_string() },
        RepliedReview { pr: pr(2), reviewer: "b".to_string() },
        RepliedReview { pr: pr(1), reviewer: "a".to_string() },
    ];
    let pending = vec![waiting(1, "a", 5), waiting(3, "c", 6), waiting(3, "c", 6), waiting(3, "c", 7)];
    let state = State::restore(
        START,
        Timestamp { secs: 5, nanos: 0 },
        replied,
        pending,
        vec![entry("Jane Doe", "jane@co.example")],
        vec![
            ("a".to_string(), profile("a", None, Some("First"))),
            ("b".to_string(), profile("b", None, None)),
            ("a".to_string(), profile("a", None, Some("Second"))),
        ],
        vec!["#x".to_string()],
    );
    assert_eq!(state.known_logins(), vec!["a".to_string(), "b".to_string()]);
    assert_eq!(state.github_user("a"), Some(profile("a", None, Some("First"))));
    assert_eq!(
        state.members(),
        vec![
            ("a".to_string(), profile("a", None, Some("First"))),
            ("b".to_string(), profile("b", None, None)),
        ]
    );
    assert_eq!(
        state.replied_prs,
        vec![
            RepliedReview { pr: pr(1), reviewer: "a".to_string() },
            RepliedReview { pr: pr(2), reviewer: "b".to_string() },
        ]
    );
    assert_eq!(state.non_replied_prs, vec![waiting(3, "c", 6), waiting(3, "c", 7)]);
    assert_eq!(state.cutoff, Timestamp { secs: 5, nanos: 0 });
    assert_eq!(state.last_update, START);
    assert_eq!(state.hashtags, vec!["#x".to_string()]);
    assert_eq!(state.bonusly_users.len(), 1);
}

#[test]
fn state_is_restored_from_its_parts() {
    let mut p = program(&[]);
    p.state.insert_pending(waiting(1, "a", 5));
    p.state.insert_pending(waiting(2, "b", 6));
    p.state.insert_replied(RepliedReview { pr: pr(3), reviewer: "c".to_string() });
    p.state.remember("a".to_string(), profile("a", None, Some("A")));
    p.state.remember("b".to_string(), profile("b", Some("b@starry.com"), None));
    assert_eq!(p.finish_at(Timestamp { secs: START.secs + 1, nanos: 2 }, Vec::new()), Ok(()));

    let again = State::restore(
        p.state.last_update,
        p.state.cutoff,
        p.state.replied_prs.clone(),
        p.state.non_replied_prs.clone(),
        p.state.bonusly_users.clone(),
        p.state.members(),
        p.state.hashtags.clone(),
    );
    assert_eq!(again.last_update, p.state.last_update);
    assert_eq!(again.cutoff, p.state.cutoff);
    assert_eq!(again.replied_prs, p.state.replied_prs);
    assert_eq!(again.non_replied_prs, p.state.non_replied_prs);
    assert_eq!(again.bonusly_users, p.state.bonusly_users);
    assert_eq!(again.hashtags, p.state.hashtags);
    assert_eq!(again.known_logins(), vec!["a".to_string(), "b".to_string()]);
    assert_eq!(again.github_user("a"), p.state.github_user("a"));
    assert_eq!(again.github_user("b"), Some(profile("b", Some("b@starry.com"), None)));
}

#[test]
fn nothing_resolves_without_hashtags_and_nothing_is_drawn() {
    let config = config(&[]);
    let state = State::starting_at(START, &config).unwrap();
    let mut p = Program { config, state };
    p.state.remember("ghost".to_string(), profile("ghost", None, Some("No One")));
    let found = vec![Candidate { pr: pr(5), review: approval(50, "ghost") }];
    assert_eq!(
        p.reviews(&giver(), &found),
        vec![ReviewStatus::MissingEmail(waiting(5, "ghost", 50))]
    );
}

#[test]
fn classification_needs_profiles_and_a_hashtag() {
    let mut p = program(&[]);
    let found = vec![Candidate { pr: pr(42), review: approval(9, "jdoe") }];
    assert!(p.is_ready_for(&Vec::new()));
    assert!(!p.is_ready_for(&found));
    p.state.remember("jdoe".to_string(), profile("jdoe", None, Some("Jane Doe")));
    assert!(p.is_ready_for(&found));
    p.state.update(START, Vec::new(), vec![entry("Jane Doe", "jane@co.example")]);
    assert!(!p.is_ready_for(&found));
    p.state.update(START, Vec::new(), Vec::new());
    assert!(p.is_ready_for(&found));
}

#[test]
fn review_given_by_scan_and_retry_stands_once() {
    let mut p = program(&[]);
    p.state.insert_pending(waiting(42, "jdoe", 9));
    let scanned = vec![Scanned { pr: pr(42), reviews: vec![approval(9, "jdoe"), approval(10, "rroe")] }];
    let retried = vec![
        Candidate { pr: pr(42), review: approval(9, "jdoe") },
        Candidate { pr: pr(7), review: approval(70, "old") },
    ];
    let found = p.new_approved_reviews(&scanned, &retried);
    assert_eq!(
        found,
        vec![
            Candidate { pr: pr(42), review: approval(9, "jdoe") },
            Candidate { pr: pr(42), review: approval(10, "rroe") },
            Candidate { pr: pr(7), review: approval(70, "old") },
        ]
    );
}

#[test]
fn review_listed_twice_stands_once() {
    let p = program(&[]);
    let scanned = vec![Scanned {
        pr: pr(1),
        reviews: vec![approval(10, "a"), approval(11, "a"), approval(10, "a")],
    }];
    let retried = vec![
        Candidate { pr: pr(2), review: approval(20, "b") },
        Candidate { pr: pr(2), review: approval(20, "b") },
        Candidate { pr: pr(2), review: approval(20, "c") },
        Candidate { pr: pr(3), review: approval(20, "b") },
    ];
    let found = p.new_approved_reviews(&scanned, &retried);
    assert_eq!(
        found,
        vec![
            Candidate { pr: pr(1), review: approval(10, "a") },
            Candidate { pr: pr(1), review: approval(11, "a") },
            Candidate { pr: pr(2), review: approval(20, "b") },
            Candidate { pr: pr(2), review: approval(20, "c") },
            Candidate { pr: pr(3), review: approval(20, "b") },
        ]
    );
}

#[test]
fn failed_reward_is_not_sent_again_in_the_same_cycle() {
    let mut p = program(&[]);
    p.state.insert_pending(waiting(42, "jdoe", 9));
    p.state.remember("jdoe".to_string(), profile("jdoe", None, Some("Jane Doe")));
    let scanned = vec![Scanned { pr: pr(42), reviews: vec![approval(9, "jdoe")] }];
    let retried = vec![Candidate { pr: pr(42), review: approval(9, "jdoe") }];
    let found = p.new_approved_reviews(&scanned, &retried);
    let statuses = p.reviews(&giver(), &found);
    assert_eq!(
        statuses,
        vec![ReviewStatus::Ready(waiting(42, "jdoe", 9), bonus_for("jane@co.example", 9))]
    );
    let mut sent = 0;
    for status in statuses {
        if p.next_bonus(&status).is_some() {
            sent += 1;
        }
        assert_eq!(
            p.reply(status, Delivery::Failed("down".to_string())),
            Err("down".to_string())
        );
    }
    assert_eq!(sent, 1);
    assert_eq!(p.state.non_replied_prs, vec![waiting(42, "jdoe", 9)]);
}
