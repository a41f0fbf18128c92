//! What the review platform reports, as plain values.

use vstd::prelude::*;
use vstd::hash_map::StringHashMap;
use crate::clock::{rfc3339_text, to_rfc3339, Timestamp};
use vstd::string::StringExecFns;
use crate::text::{decimal, decimal_text, signed_decimal, signed_decimal_text};

verus! {

/// The view of an optional string.
pub open spec fn opt_text(s: Option<String>) -> Option<Seq<char>> {
    match s {
        Some(t) => Some(t@),
        None => None,
    }
}

/// A copy of an optional string.
pub fn clone_opt(s: &Option<String>) -> (r: Option<String>)
    ensures
        opt_text(r) == opt_text(*s),
{
    match s {
        Some(t) => Some(t.clone()),
        None => None,
    }
}

/// An account on the review platform.
#[derive(Debug, PartialEq, Eq)]
pub struct User {
    pub id: u64,
    pub login: String,
    pub email: Option<String>,
    pub name: Option<String>,
}

/// What a [`User`] holds.
pub struct UserView {
    pub id: int,
    pub login: Seq<char>,
    pub email: Option<Seq<char>>,
    pub name: Option<Seq<char>>,
}

impl View for User {
    type V = UserView;

    open spec fn view(&self) -> UserView {
        UserView {
            id: self.id as int,
            login: self.login@,
            email: opt_text(self.email),
            name: opt_text(self.name),
        }
    }
}

impl Clone for User {
    fn clone(&self) -> (r: Self)
        ensures
            r@ == self@,
    {
        User {
            id: self.id,
            login: self.login.clone(),
            email: clone_opt(&self.email),
            name: clone_opt(&self.name),
        }
    }
}

impl User {
    /// Where to fetch the profile of `login`, as in `users/jdoe`.
    pub fn from_login(login: &str) -> (path: String)
        ensures
            path@ == profile_path(login@),
    {
        String::from_str("users/").concat(login)
    }
}

/// Whose pull requests are watched, and where.
pub struct Config {
    pub user: String,
    pub org: String,
    /// Forced addresses, by login on the review platform.
    pub emails: StringHashMap<String>,
}

/// The addresses that `emails` forces, by login.
pub open spec fn overrides_of(emails: Map<Seq<char>, String>) -> Map<Seq<char>, Seq<char>> {
    Map::new(|login: Seq<char>| emails.contains_key(login), |login: Seq<char>| emails[login]@)
}

/// The search for the approved pull requests of `user` in `org` that changed
/// at `since` or later, where `since` is the RFC 3339 text of an instant.
pub open spec fn query_text(user: Seq<char>, org: Seq<char>, since: Seq<char>) -> Seq<char> {
    "is:pr author:"@ + user + " review:approved org:"@ + org + " updated:>="@ + since
}

impl Config {
    /// Settings to watch the pull requests of `user` in `org`, with no
    /// address forced.
    pub fn new(user: String, org: String) -> (config: Config)
        ensures
            config.user == user,
            config.org == org,
            config.overrides() == Map::<Seq<char>, Seq<char>>::empty(),
    {
        let config = Config { user, org, emails: StringHashMap::new() };
        config
    }

    /// Forces `email` as the address of `login`, in place of any address
    /// forced for it before.
    pub fn force_email(&mut self, login: String, email: String)
        ensures
            final(self).user == old(self).user,
            final(self).org == old(self).org,
            final(self).overrides() == old(self).overrides().insert(login@, email@),
    {
        self.emails.insert(login, email);
    }

    /// The addresses forced by login.
    pub open spec fn overrides(&self) -> Map<Seq<char>, Seq<char>> {
        overrides_of(self.emails@)
    }

    /// The search for the pull requests of the watched author, approved, in
    /// the watched organization, updated at the instant with the RFC 3339
    /// text `since` or later.
    pub fn query_since(&self, since: &str) -> (query: String)
        ensures
            query@ == query_text(self.user@, self.org@, since@),
    {
        let q = String::from_str("is:pr author:");
        let q = q.concat(self.user.as_str());
        let q = q.concat(" review:approved org:");
        let q = q.concat(self.org.as_str());
        let q = q.concat(" updated:>=");
        let q = q.concat(since);
        q
    }

    /// The search that finds the pull requests to scan: those updated at
    /// `datetime` or later. `None` where `datetime` has no RFC 3339 text.
    pub fn prs_since(&self, datetime: &Timestamp) -> (query: Option<String>)
        ensures
            query is Some <==> rfc3339_text(datetime.secs as int, datetime.nanos as int) is Some,
            query matches Some(q) ==> rfc3339_text(datetime.secs as int, datetime.nanos as int)
                matches Some(since) && q@ == query_text(self.user@, self.org@, since),
    {
        match to_rfc3339(datetime.secs, datetime.nanos) {
            Some(since) => Some(self.query_since(since.as_str())),
            None => None,
        }
    }
}

/// A pull request as the search reports it: the path segments of its
/// repository's address, where the address has a path that can be split, and
/// its number.
#[derive(Debug, PartialEq, Eq)]
pub struct Issue {
    pub repository_url: Option<Vec<String>>,
    pub number: i64,
}

/// The organization and the repository in the path segments of a
/// repository's address, which read `repos`, then the organization, then
/// the repository: the second and the third segment.
pub open spec fn org_repo_of(segments: Option<Seq<String>>) -> Option<(Seq<char>, Seq<char>)> {
    match segments {
        Some(s) => if s.len() >= 3 {
            Some((s[1]@, s[2]@))
        } else {
            None
        },
        None => None,
    }
}

/// The view of an optional list.
pub open spec fn opt_list(list: Option<Vec<String>>) -> Option<Seq<String>> {
    match list {
        Some(l) => Some(l@),
        None => None,
    }
}

/// The organization and the repository of `pr`, read from its repository's
/// address; `None` where the address does not name both.
pub fn org_repo(pr: &Issue) -> (r: Option<(&str, &str)>)
    ensures
        r is Some <==> org_repo_of(opt_list(pr.repository_url)) is Some,
        r matches Some(found) ==> org_repo_of(opt_list(pr.repository_url)) == Some(
            (found.0@, found.1@),
        ),
{
    match &pr.repository_url {
        Some(segments) => {
            if segments.len() >= 3 {
                Some((segments[1].as_str(), segments[2].as_str()))
            } else {
                None
            }
        },
        None => None,
    }
}

impl Issue {
    /// The pull request that this search result names; `None` where its
    /// repository's address does not name an organization and a repository.
    pub fn pull_request(&self) -> (r: Option<PullRequest>)
        ensures
            r is Some <==> org_repo_of(opt_list(self.repository_url)) is Some,
            r matches Some(pr) ==> org_repo_of(opt_list(self.repository_url)) == Some(
                (pr@.org, pr@.repo),
            ) && pr.number == self.number,
    {
        match org_repo(self) {
            Some(found) => Some(
                PullRequest {
                    org: String::from_str(found.0),
                    repo: String::from_str(found.1),
                    number: self.number,
                },
            ),
            None => None,
        }
    }
}

/// Whether the search result `hit` names an organization and a repository.
pub open spec fn names_repository(hit: Issue) -> bool {
    org_repo_of(opt_list(hit.repository_url)) is Some
}

/// The pull requests that the search results `hits` name, in order. One
/// result that names no organization and repository fails them all: the
/// error is the place of the first such result.
pub fn pull_requests(hits: &Vec<Issue>) -> (r: Result<Vec<PullRequest>, usize>)
    ensures
        r is Ok <==> forall|i: int| 0 <= i < hits@.len() ==> names_repository(#[trigger] hits@[i]),
        r matches Ok(list) ==> list@.len() == hits@.len() && forall|i: int|
            0 <= i < hits@.len() ==> org_repo_of(opt_list(hits@[i].repository_url)) == Some(
                ((#[trigger] list@[i])@.org, list@[i]@.repo),
            ) && list@[i].number == hits@[i].number,
        r matches Err(at) ==> at < hits@.len() && !names_repository(hits@[at as int])
            && forall|i: int| 0 <= i < at ==> names_repository(#[trigger] hits@[i]),
{
    let mut list: Vec<PullRequest> = Vec::new();
    let mut i: usize = 0;
    while i < hits.len()
        invariant
            i <= hits@.len(),
            list@.len() == i,
            forall|j: int| 0 <= j < i ==> names_repository(#[trigger] hits@[j]),
            forall|j: int|
                0 <= j < i ==> org_repo_of(opt_list(hits@[j].repository_url)) == Some(
                    ((#[trigger] list@[j])@.org, list@[j]@.repo),
                ) && list@[j].number == hits@[j].number,
        decreases hits@.len() - i,
    {
        match hits[i].pull_request() {
            Some(pr) => {
                list.push(pr);
            },
            None => {
                return Err(i);
            },
        }
        i = i + 1;
    }
    Ok(list)
}

/// How many results a full page of the review platform holds.
pub const PER_PAGE: usize = 100;

/// Whether a page of `received` results is the last: one that is not full
/// ends the list.
pub fn is_last_page(received: usize) -> (last: bool)
    ensures
        last == (received < PER_PAGE),
{
    received < PER_PAGE
}

/// A pull request: the organization and repository that hold it, and its
/// number there.
#[derive(Debug, PartialEq, Eq)]
pub struct PullRequest {
    pub org: String,
    pub repo: String,
    pub number: i64,
}

/// What a [`PullRequest`] holds.
pub struct PullRequestView {
    pub org: Seq<char>,
    pub repo: Seq<char>,
    pub number: int,
}

impl View for PullRequest {
    type V = PullRequestView;

    open spec fn view(&self) -> PullRequestView {
        PullRequestView { org: self.org@, repo: self.repo@, number: self.number as int }
    }
}

impl Clone for PullRequest {
    fn clone(&self) -> (r: Self)
        ensures
            r@ == self@,
    {
        PullRequest { org: self.org.clone(), repo: self.repo.clone(), number: self.number }
    }
}

impl PullRequestView {
    /// The pull request as it is written: organization, repository and
    /// number, as in `acme/rocket#42`.
    pub open spec fn text(self) -> Seq<char> {
        self.org + "/"@ + self.repo + "#"@ + signed_decimal(self.number)
    }
}

impl PullRequest {
    /// The pull request as it is written, as in `acme/rocket#42`.
    pub fn to_text(&self) -> (s: String)
        ensures
            s@ == self@.text(),
    {
        let s = self.org.clone();
        let s = s.concat("/");
        let s = s.concat(self.repo.as_str());
        let s = s.concat("#");
        let s = s.concat(signed_decimal_text(self.number).as_str());
        s
    }

    /// Whether both name the same pull request.
    pub fn same(&self, other: &PullRequest) -> (b: bool)
        ensures
            b == (self@ == other@),
    {
        self.org == other.org && self.repo == other.repo && self.number == other.number
    }
}

/// A pull request and one who reviewed it: the key under which a reward is
/// given once.
pub struct PairView {
    pub pr: PullRequestView,
    pub reviewer: Seq<char>,
}

/// One approval: the pull request, the approver's login and the platform's
/// number for the review.
pub struct ReviewKey {
    pub pr: PullRequestView,
    pub reviewer: Seq<char>,
    pub id: int,
}

impl PairView {
    /// The pair as it is written, as in `acme/rocket#42 reviewed by jdoe`.
    pub open spec fn text(self) -> Seq<char> {
        self.pr.text() + " reviewed by "@ + self.reviewer
    }
}

impl ReviewKey {
    /// The pull request and approver of this approval.
    pub open spec fn pair(self) -> PairView {
        PairView { pr: self.pr, reviewer: self.reviewer }
    }

    /// The approval as it is written, as in
    /// `acme/rocket#42 reviewed by jdoe (ID 9)`.
    pub open spec fn text(self) -> Seq<char> {
        self.pair().text() + " (ID "@ + decimal(self.id as nat) + ")"@
    }

    /// Where the review platform keeps this review, as in
    /// `/repos/acme/rocket/pulls/42/reviews/9`.
    pub open spec fn path(self) -> Seq<char> {
        "/repos/"@ + self.pr.org + "/"@ + self.pr.repo + "/pulls/"@ + signed_decimal(
            self.pr.number,
        ) + "/reviews/"@ + decimal(self.id as nat)
    }
}

/// Where the review platform keeps the profile of `login`.
pub open spec fn profile_path(login: Seq<char>) -> Seq<char> {
    "users/"@ + login
}

/// A review that has not been rewarded yet: its approver has no known
/// address, or sending the reward failed.
#[derive(Debug, PartialEq, Eq)]
pub struct NonRepliedReview {
    pub pr: PullRequest,
    /// Login on the review platform.
    pub reviewer: String,
    pub id: u64,
}

impl View for NonRepliedReview {
    type V = ReviewKey;

    open spec fn view(&self) -> ReviewKey {
        ReviewKey { pr: self.pr@, reviewer: self.reviewer@, id: self.id as int }
    }
}

impl Clone for NonRepliedReview {
    fn clone(&self) -> (r: Self)
        ensures
            r@ == self@,
    {
        NonRepliedReview { pr: self.pr.clone(), reviewer: self.reviewer.clone(), id: self.id }
    }
}

impl NonRepliedReview {
    /// The approval as it is written, as in
    /// `acme/rocket#42 reviewed by jdoe (ID 9)`.
    pub fn to_text(&self) -> (s: String)
        ensures
            s@ == self@.text(),
    {
        let s = self.pr.to_text();
        let s = s.concat(" reviewed by ");
        let s = s.concat(self.reviewer.as_str());
        let s = s.concat(" (ID ");
        let s = s.concat(decimal_text(self.id).as_str());
        let s = s.concat(")");
        s
    }

    /// Where to fetch this review again by its number, as in
    /// `/repos/acme/rocket/pulls/42/reviews/9`.
    pub fn review_path(&self) -> (s: String)
        ensures
            s@ == self@.path(),
    {
        let s = String::from_str("/repos/");
        let s = s.concat(self.pr.org.as_str());
        let s = s.concat("/");
        let s = s.concat(self.pr.repo.as_str());
        let s = s.concat("/pulls/");
        let s = s.concat(signed_decimal_text(self.pr.number).as_str());
        let s = s.concat("/reviews/");
        let s = s.concat(decimal_text(self.id).as_str());
        s
    }

    /// Whether both name the same approval.
    pub fn same(&self, other: &NonRepliedReview) -> (b: bool)
        ensures
            b == (self@ == other@),
    {
        self.pr.same(&other.pr) && self.reviewer == other.reviewer && self.id == other.id
    }

    /// Whether this approval is by the given login on `pr`.
    pub fn is_of(&self, pr: &PullRequest, reviewer: &String) -> (b: bool)
        ensures
            b == (self@.pair() == (PairView { pr: pr@, reviewer: reviewer@ })),
    {
        self.pr.same(pr) && self.reviewer == *reviewer
    }
}

/// A review that has been rewarded. It carries no review number: an approver
/// is rewarded once for a pull request, however often they approve it.
#[derive(Debug, PartialEq, Eq)]
pub struct RepliedReview {
    pub pr: PullRequest,
    /// Login on the review platform.
    pub reviewer: String,
}

impl View for RepliedReview {
    type V = PairView;

    open spec fn view(&self) -> PairView {
        PairView { pr: self.pr@, reviewer: self.reviewer@ }
    }
}

impl Clone for RepliedReview {
    fn clone(&self) -> (r: Self)
        ensures
            r@ == self@,
    {
        RepliedReview { pr: self.pr.clone(), reviewer: self.reviewer.clone() }
    }
}

impl RepliedReview {
    /// The reward as it is written, as in `acme/rocket#42 reviewed by jdoe`.
    pub fn to_text(&self) -> (s: String)
        ensures
            s@ == self@.text(),
    {
        let s = self.pr.to_text();
        let s = s.concat(" reviewed by ");
        let s = s.concat(self.reviewer.as_str());
        s
    }

    /// Whether this reward was for the given login on `pr`.
    pub fn is_of(&self, pr: &PullRequest, reviewer: &String) -> (b: bool)
        ensures
            b == (self@ == (PairView { pr: pr@, reviewer: reviewer@ })),
    {
        self.pr.same(pr) && self.reviewer == *reviewer
    }
}

impl From<NonRepliedReview> for RepliedReview {
    fn from(missing_email: NonRepliedReview) -> (r: Self) {
        RepliedReview { pr: missing_email.pr, reviewer: missing_email.reviewer }
    }
}

impl vstd::std_specs::convert::FromSpecImpl<NonRepliedReview> for RepliedReview {
    open spec fn obeys_from_spec() -> bool {
        true
    }

    open spec fn from_spec(missing_email: NonRepliedReview) -> RepliedReview {
        RepliedReview { pr: missing_email.pr, reviewer: missing_email.reviewer }
    }
}

/// The verdict of a review.
#[derive(Debug, PartialEq, Eq, Clone, Copy)]
pub enum ReviewState {
    Approved,
    Pending,
    ChangesRequested,
    Commented,
    Dismissed,
    /// A verdict that has no name here.
    Other,
}

/// One review of a pull request, as the platform lists it.
#[derive(Debug, PartialEq, Eq)]
pub struct Review {
    pub id: u64,
    /// Login of the approver.
    pub login: String,
    pub state: Option<ReviewState>,
    /// Where the review can be read.
    pub html_url: String,
}

/// What a [`Review`] holds.
pub struct ReviewView {
    pub id: int,
    pub login: Seq<char>,
    pub state: Option<ReviewState>,
    pub html_url: Seq<char>,
}

impl ReviewView {
    /// Whether the review approves.
    pub open spec fn approved(self) -> bool {
        self.state == Some(ReviewState::Approved)
    }
}

impl View for Review {
    type V = ReviewView;

    open spec fn view(&self) -> ReviewView {
        ReviewView {
            id: self.id as int,
            login: self.login@,
            state: self.state,
            html_url: self.html_url@,
        }
    }
}

impl Clone for Review {
    fn clone(&self) -> (r: Self)
        ensures
            r@ == self@,
    {
        Review {
            id: self.id,
            login: self.login.clone(),
            state: self.state,
            html_url: self.html_url.clone(),
        }
    }
}

/// What the reviews in `list` hold, in its order.
pub open spec fn reviews_of(list: Seq<Review>) -> Seq<ReviewView> {
    Seq::new(list.len(), |i: int| list[i]@)
}

impl Review {
    /// Whether the review approves.
    pub fn is_approved(&self) -> (b: bool)
        ensures
            b == self@.approved(),
    {
        match self.state {
            Some(ReviewState::Approved) => true,
            _ => false,
        }
    }
}

} // verus!
