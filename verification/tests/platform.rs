use cherries_4_prs::bonusly::{BonuslyResult, BonuslyResultInner, User, UserPages, LIMIT};
use cherries_4_prs::clock::Timestamp;
use cherries_4_prs::github;
use cherries_4_prs::github::{Issue, NonRepliedReview, PullRequest, RepliedReview, Review, ReviewState};

fn user(n: usize) -> User {
    User {
        id: n.to_string(),
        short_name: String::new(),
        full_name: format!("User {n}"),
        display_name: format!("User {n}"),
        first_name: String::new(),
        last_name: String::new(),
        email: format!("user{n}@co.example"),
        can_receive: true,
    }
}

fn page(from: usize, count: usize) -> Vec<User> {
    (from..from + count).map(user).collect()
}

#[test]
fn result_is_taken_whatever_the_flag_says() {
    let answer = BonuslyResult { success: false, data: BonuslyResultInner::Success { result: 5 } };
    assert_eq!(answer.into_result(), Ok(5));
    let answer = BonuslyResult { success: true, data: BonuslyResultInner::Success { result: 6 } };
    assert_eq!(answer.into_result(), Ok(6));
}

#[test]
fn message_is_the_error_whatever_the_flag_says() {
    let answer: BonuslyResult<u8> = BonuslyResult {
        success: true,
        data: BonuslyResultInner::Failure { message: "no such user".to_string() },
    };
    assert_eq!(answer.into_result(), Err("no such user".to_string()));
    let answer: BonuslyResult<u8> = BonuslyResult {
        success: false,
        data: BonuslyResultInner::Failure { message: "denied".to_string() },
    };
    assert_eq!(answer.into_result(), Err("denied".to_string()));
}

#[test]
fn full_page_asks_for_another() {
    let mut pages = UserPages::new();
    assert_eq!(pages.skip, 0);
    assert!(pages.users.is_empty());
    assert!(!pages.list_users(page(0, LIMIT)));
    assert_eq!(pages.skip, 100);
    assert_eq!(pages.users.len(), 100);
    assert!(pages.list_users(page(100, 99)));
    assert_eq!(pages.skip, 199);
    assert_eq!(pages.users.len(), 199);
    assert_eq!(pages.users[0], user(0));
    assert_eq!(pages.users[100], user(100));
    assert_eq!(pages.users[198], user(198));
}

#[test]
fn empty_page_ends_the_list() {
    let mut pages = UserPages::new();
    assert!(pages.list_users(Vec::new()));
    assert_eq!(pages.skip, 0);
    assert!(pages.users.is_empty());
}

#[test]
fn search_names_author_org_and_watermark() {
    let watched = github::Config::new("octo".to_string(), "acme".to_string());
    let since = Timestamp { secs: 1_714_564_800, nanos: 0 };
    assert_eq!(
        watched.prs_since(&since),
        Some(
            "is:pr author:octo review:approved org:acme updated:>=2024-05-01T12:00:00+00:00"
                .to_string()
        )
    );
}

#[test]
fn search_keeps_fractions_of_a_second() {
    let watched = github::Config::new("octo".to_string(), "acme".to_string());
    let since = Timestamp { secs: 0, nanos: 500_000_000 };
    assert_eq!(
        watched.prs_since(&since),
        Some(
            "is:pr author:octo review:approved org:acme updated:>=1970-01-01T00:00:00.500+00:00"
                .to_string()
        )
    );
}

#[test]
fn instant_outside_the_calendar_has_no_search() {
    let watched = github::Config::new("octo".to_string(), "acme".to_string());
    let since = Timestamp { secs: i64::MAX, nanos: 0 };
    assert_eq!(watched.prs_since(&since), None);
}

#[test]
fn organization_and_repository_are_read_from_the_address() {
    let hit = Issue {
        repository_url: Some(vec!["repos".to_string(), "acme".to_string(), "rocket".to_string()]),
        number: 42,
    };
    assert_eq!(github::org_repo(&hit), Some(("acme", "rocket")));
    assert_eq!(
        hit.pull_request(),
        Some(PullRequest { org: "acme".to_string(), repo: "rocket".to_string(), number: 42 })
    );
}

#[test]
fn longer_address_still_names_both() {
    let hit = Issue {
        repository_url: Some(vec![
            "repos".to_string(),
            "acme".to_string(),
            "rocket".to_string(),
            "extra".to_string(),
        ]),
        number: 1,
    };
    assert_eq!(github::org_repo(&hit), Some(("acme", "rocket")));
}

#[test]
fn short_address_names_nothing() {
    let hit = Issue { repository_url: Some(vec!["repos".to_string(), "acme".to_string()]), number: 42 };
    assert_eq!(github::org_repo(&hit), None);
    assert_eq!(hit.pull_request(), None);
    let hit = Issue { repository_url: None, number: 42 };
    assert_eq!(github::org_repo(&hit), None);
    assert_eq!(hit.pull_request(), None);
}

#[test]
fn reward_record_drops_the_review_number() {
    let pr = PullRequest { org: "acme".to_string(), repo: "rocket".to_string(), number: 42 };
    let waiting = NonRepliedReview { pr: pr.clone(), reviewer: "jdoe".to_string(), id: 9 };
    let record = RepliedReview::from(waiting.clone());
    assert_eq!(record, RepliedReview { pr: pr.clone(), reviewer: "jdoe".to_string() });
    assert!(record.is_of(&pr, &"jdoe".to_string()));
    assert!(!record.is_of(&pr, &"other".to_string()));
    assert!(waiting.is_of(&pr, &"jdoe".to_string()));
    assert!(waiting.same(&waiting.clone()));
    assert!(!waiting.same(&NonRepliedReview { pr, reviewer: "jdoe".to_string(), id: 10 }));
}

#[test]
fn only_an_approving_review_is_approved() {
    let mut review = Review {
        id: 1,
        login: "jdoe".to_string(),
        state: Some(ReviewState::Approved),
        html_url: "https://example/review/1".to_string(),
    };
    assert!(review.is_approved());
    review.state = Some(ReviewState::ChangesRequested);
    assert!(!review.is_approved());
    review.state = Some(ReviewState::Commented);
    assert!(!review.is_approved());
    review.state = None;
    assert!(!review.is_approved());
}

#[test]
fn instants_are_ordered_by_seconds_then_nanoseconds() {
    let early = Timestamp { secs: 10, nanos: 999_999_999 };
    let late = Timestamp { secs: 11, nanos: 0 };
    assert!(early.at_or_before(&late));
    assert!(!late.at_or_before(&early));
    assert!(early.at_or_before(&early));
    let before_epoch = Timestamp { secs: -1, nanos: 999_999_999 };
    assert!(before_epoch.at_or_before(&Timestamp { secs: 0, nanos: 0 }));
    assert!(Timestamp { secs: 5, nanos: 1 }.at_or_before(&Timestamp { secs: 5, nanos: 2 }));
    assert!(!Timestamp { secs: 5, nanos: 2 }.at_or_before(&Timestamp { secs: 5, nanos: 1 }));
}

#[test]
fn instants_move_by_whole_seconds() {
    let at = Timestamp { secs: 100, nanos: 5 };
    assert_eq!(at.minus_secs(30), Some(Timestamp { secs: 70, nanos: 5 }));
    assert_eq!(at.plus_secs(900), Some(Timestamp { secs: 1000, nanos: 5 }));
    assert_eq!(at.plus_secs(-200), Some(Timestamp { secs: -100, nanos: 5 }));
    assert_eq!(at.minus_secs(0), Some(at));
}

#[test]
fn instants_stop_at_the_ends_of_the_field() {
    let zero = Timestamp { secs: 0, nanos: 0 };
    assert_eq!(zero.minus_secs(1 << 63), Some(Timestamp { secs: i64::MIN, nanos: 0 }));
    assert_eq!(zero.minus_secs((1 << 63) + 1), None);
    assert_eq!(Timestamp { secs: -1, nanos: 0 }.minus_secs(1 << 63), None);
    assert_eq!(Timestamp { secs: 5, nanos: 0 }.minus_secs(u64::MAX), None);
    assert_eq!(Timestamp { secs: i64::MAX, nanos: 0 }.plus_secs(1), None);
    assert_eq!(Timestamp { secs: i64::MIN, nanos: 0 }.plus_secs(-1), None);
    assert_eq!(
        Timestamp { secs: i64::MAX, nanos: 7 }.minus_secs(u64::MAX),
        Some(Timestamp { secs: i64::MIN, nanos: 7 })
    );
}

fn hit(segments: &[&str], number: i64) -> Issue {
    Issue { repository_url: Some(segments.iter().map(|s| s.to_string()).collect()), number }
}

#[test]
fn search_results_name_their_pull_requests() {
    let hits = vec![hit(&["repos", "acme", "rocket"], 1), hit(&["repos", "acme", "anvil"], 2)];
    assert_eq!(
        github::pull_requests(&hits),
        Ok(vec![
            PullRequest { org: "acme".to_string(), repo: "rocket".to_string(), number: 1 },
            PullRequest { org: "acme".to_string(), repo: "anvil".to_string(), number: 2 },
        ])
    );
    assert_eq!(github::pull_requests(&Vec::new()), Ok(Vec::new()));
}

#[test]
fn one_unreadable_address_fails_the_search() {
    let hits = vec![
        hit(&["repos", "acme", "rocket"], 1),
        hit(&["repos", "acme"], 2),
        hit(&["repos", "acme", "anvil"], 3),
        Issue { repository_url: None, number: 4 },
    ];
    assert_eq!(github::pull_requests(&hits), Err(1));
}

#[test]
fn page_that_is_not_full_is_the_last() {
    assert_eq!(github::PER_PAGE, 100);
    assert!(github::is_last_page(0));
    assert!(github::is_last_page(99));
    assert!(!github::is_last_page(100));
    assert!(!github::is_last_page(101));
}

#[test]
fn instant_needs_less_than_a_second_of_nanoseconds() {
    assert_eq!(Timestamp::new(5, 999_999_999), Some(Timestamp { secs: 5, nanos: 999_999_999 }));
    assert_eq!(Timestamp::new(-5, 0), Some(Timestamp { secs: -5, nanos: 0 }));
    assert_eq!(Timestamp::new(5, 1_000_000_000), None);
    assert_eq!(Timestamp::new(5, u32::MAX), None);
}

#[test]
fn search_is_built_around_the_given_instant() {
    let watched = github::Config::new("octo".to_string(), "acme".to_string());
    assert_eq!(
        watched.query_since("2024-05-01T12:00:00+00:00"),
        "is:pr author:octo review:approved org:acme updated:>=2024-05-01T12:00:00+00:00"
    );
    assert_eq!(watched.query_since(""), "is:pr author:octo review:approved org:acme updated:>=");
}

#[test]
fn leap_second_is_taken_at_the_nanosecond_before_it() {
    assert_eq!(Timestamp::within_second(59, 5), Timestamp { secs: 59, nanos: 5 });
    assert_eq!(
        Timestamp::within_second(59, 999_999_999),
        Timestamp { secs: 59, nanos: 999_999_999 }
    );
    assert_eq!(
        Timestamp::within_second(59, 1_000_000_000),
        Timestamp { secs: 59, nanos: 999_999_999 }
    );
    assert_eq!(
        Timestamp::within_second(59, 1_500_000_000),
        Timestamp { secs: 59, nanos: 999_999_999 }
    );
}
