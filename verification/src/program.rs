//! One cycle of the daemon: which reviews are candidates, what becomes of
//! each, and how the state moves when a reward went out or did not.

use rand::Rng;
use vstd::prelude::*;
use vstd::string::StringExecFns;
use crate::bonusly::{Bonus, BonusView};
use crate::clock::{utc_now, Timestamp};
use crate::config::{resolve, Config};
use crate::github;
use crate::github::{
    reviews_of, PairView, PullRequest, PullRequestView, Review, ReviewKey, ReviewView,
};
use crate::state::{texts_of, MissingEmail, RepliedReview, State, StateView};

verus! {

/// What is to be done about a review.
#[derive(Debug, PartialEq, Eq)]
pub enum ReviewStatus {
    /// An address was found: this reward is to be sent.
    Ready(MissingEmail, Bonus),
    /// No address was found: the review has to wait.
    MissingEmail(MissingEmail),
}

/// What a [`ReviewStatus`] holds.
pub enum StatusView {
    Ready(ReviewKey, BonusView),
    MissingEmail(ReviewKey),
}

impl View for ReviewStatus {
    type V = StatusView;

    open spec fn view(&self) -> StatusView {
        match self {
            ReviewStatus::Ready(review, bonus) => StatusView::Ready(review@, bonus@),
            ReviewStatus::MissingEmail(review) => StatusView::MissingEmail(review@),
        }
    }
}

impl StatusView {
    /// The approval that this is about.
    pub open spec fn key(self) -> ReviewKey {
        match self {
            StatusView::Ready(key, _) => key,
            StatusView::MissingEmail(key) => key,
        }
    }
}

/// How sending a reward went.
#[derive(Debug, PartialEq, Eq)]
pub enum Delivery {
    /// Nothing was sent.
    Withheld,
    /// The rewards platform took the reward.
    Sent,
    /// Sending failed, with this message.
    Failed(String),
}

/// A review found in a cycle, with its pull request.
#[derive(Debug, PartialEq, Eq)]
pub struct Candidate {
    pub pr: PullRequest,
    pub review: Review,
}

/// What a [`Candidate`] holds.
pub struct CandidateView {
    pub pr: PullRequestView,
    pub review: ReviewView,
}

impl View for Candidate {
    type V = CandidateView;

    open spec fn view(&self) -> CandidateView {
        CandidateView { pr: self.pr@, review: self.review@ }
    }
}

impl CandidateView {
    /// The approval that this candidate stands for.
    pub open spec fn key(self) -> ReviewKey {
        ReviewKey { pr: self.pr, reviewer: self.review.login, id: self.review.id }
    }
}

impl Clone for Candidate {
    fn clone(&self) -> (r: Self)
        ensures
            r@ == self@,
    {
        Candidate { pr: self.pr.clone(), review: self.review.clone() }
    }
}

/// A pull request that the scan found, with all its reviews.
#[derive(Debug, PartialEq, Eq)]
pub struct Scanned {
    pub pr: PullRequest,
    pub reviews: Vec<Review>,
}

/// What a [`Scanned`] holds.
pub struct ScannedView {
    pub pr: PullRequestView,
    pub reviews: Seq<ReviewView>,
}

impl View for Scanned {
    type V = ScannedView;

    open spec fn view(&self) -> ScannedView {
        ScannedView { pr: self.pr@, reviews: reviews_of(self.reviews@) }
    }
}

/// What the scanned pull requests in `list` hold, in its order.
pub open spec fn scanned_of(list: Seq<Scanned>) -> Seq<ScannedView> {
    Seq::new(list.len(), |i: int| list[i]@)
}

/// The reviews of `pr`, each as a candidate.
pub open spec fn offered(pr: PullRequestView, reviews: Seq<ReviewView>) -> Seq<CandidateView> {
    Seq::new(reviews.len(), |i: int| CandidateView { pr, review: reviews[i] })
}

/// The test for an approval whose approver has not been rewarded for its
/// pull request.
pub open spec fn is_new_approval(replied: Set<PairView>) -> spec_fn(CandidateView) -> bool {
    |c: CandidateView| c.review.approved() && !replied.contains(c.key().pair())
}

/// The test for a candidate of another pull request than `pr`.
pub open spec fn is_not_of(pr: PullRequestView) -> spec_fn(CandidateView) -> bool {
    |c: CandidateView| c.pr != pr
}

/// Whether one of `list` stands for the approval `key`.
pub open spec fn stands(list: Seq<CandidateView>, key: ReviewKey) -> bool {
    exists|i: int| 0 <= i < list.len() && (#[trigger] list[i]).key() == key
}

/// No two of `list` stand for the same approval.
pub open spec fn distinct(list: Seq<CandidateView>) -> bool {
    forall|i: int, j: int|
        0 <= i < j < list.len() ==> (#[trigger] list[i]).key() != (#[trigger] list[j]).key()
}

/// `found` with `more` taken in, in order: one whose approval already
/// stands is left out, so that a review given twice stands once.
pub open spec fn merged(found: Seq<CandidateView>, more: Seq<CandidateView>) -> Seq<
    CandidateView,
>
    decreases more.len(),
{
    if more.len() == 0 {
        found
    } else {
        let before = merged(found, more.drop_last());
        if stands(before, more.last().key()) {
            before
        } else {
            before.push(more.last())
        }
    }
}

/// The candidates after one scanned pull request is taken in. Where it has
/// new approvals, they stand for the pull request, each once, in place of
/// what stood for it before; where it has none, nothing changes.
pub open spec fn with_scanned(
    found: Seq<CandidateView>,
    replied: Set<PairView>,
    scanned: ScannedView,
) -> Seq<CandidateView> {
    let fresh = offered(scanned.pr, scanned.reviews).filter(is_new_approval(replied));
    if fresh.len() == 0 {
        found
    } else {
        merged(found.filter(is_not_of(scanned.pr)), fresh)
    }
}

/// The candidates that the scanned pull requests give, taken in order.
pub open spec fn scanned_all(replied: Set<PairView>, scanned: Seq<ScannedView>) -> Seq<
    CandidateView,
>
    decreases scanned.len(),
{
    if scanned.len() == 0 {
        Seq::empty()
    } else {
        with_scanned(scanned_all(replied, scanned.drop_last()), replied, scanned.last())
    }
}

/// The candidates of a cycle: what the scan gives, then each review that
/// was fetched again because it waits, unless the scan gave it already.
pub open spec fn discovered(
    replied: Set<PairView>,
    scanned: Seq<ScannedView>,
    retried: Seq<CandidateView>,
) -> Seq<CandidateView> {
    merged(scanned_all(replied, scanned), retried)
}

/// What stands after `more` is taken in stood before or is one of `more`.
pub proof fn lemma_merged_contains(
    found: Seq<CandidateView>,
    more: Seq<CandidateView>,
    candidate: CandidateView,
)
    requires
        merged(found, more).contains(candidate),
    ensures
        found.contains(candidate) || more.contains(candidate),
    decreases more.len(),
{
    if more.len() > 0 {
        let before = merged(found, more.drop_last());
        if before.contains(candidate) {
            lemma_merged_contains(found, more.drop_last(), candidate);
            if more.drop_last().contains(candidate) {
                let i = choose|i: int|
                    0 <= i < more.drop_last().len() && more.drop_last()[i] == candidate;
                assert(more[i] == candidate);
            }
        } else {
            let i = choose|i: int|
                0 <= i < merged(found, more).len() && merged(found, more)[i] == candidate;
            assert(before.push(more.last())[i] == candidate);
            assert(more[more.len() - 1] == candidate);
        }
    }
}

/// Taking in keeps a list free of repeated approvals.
pub proof fn lemma_merged_distinct(found: Seq<CandidateView>, more: Seq<CandidateView>)
    requires
        distinct(found),
    ensures
        distinct(merged(found, more)),
    decreases more.len(),
{
    if more.len() > 0 {
        lemma_merged_distinct(found, more.drop_last());
    }
}

/// Leaving some out keeps a list free of repeated approvals.
pub proof fn lemma_filter_distinct(list: Seq<CandidateView>, test: spec_fn(CandidateView) -> bool)
    requires
        distinct(list),
    ensures
        distinct(list.filter(test)),
    decreases list.len(),
{
    reveal(Seq::filter);
    if list.len() > 0 {
        let front = list.drop_last();
        let kept = front.filter(test);
        assert(distinct(front)) by {
            assert forall|i: int, j: int| 0 <= i < j < front.len() implies (#[trigger] front[i]).key()
                != (#[trigger] front[j]).key() by {
                assert(list[i] == front[i] && list[j] == front[j]);
            }
        }
        lemma_filter_distinct(front, test);
        if test(list.last()) {
            assert forall|i: int| 0 <= i < kept.len() implies (#[trigger] kept[i]).key()
                != list.last().key() by {
                assert(kept.contains(kept[i]));
                front.lemma_filter_contains_rev(test, kept[i]);
                let j = choose|j: int| 0 <= j < front.len() && front[j] == kept[i];
                assert(list[j] == front[j]);
                assert(list[j].key() != list[list.len() - 1].key());
            }
        }
    }
}

/// What the scan gives holds no approval twice.
pub proof fn lemma_scanned_distinct(replied: Set<PairView>, scanned: Seq<ScannedView>)
    ensures
        distinct(scanned_all(replied, scanned)),
    decreases scanned.len(),
{
    if scanned.len() > 0 {
        let before = scanned_all(replied, scanned.drop_last());
        let last = scanned.last();
        lemma_scanned_distinct(replied, scanned.drop_last());
        lemma_filter_distinct(before, is_not_of(last.pr));
        lemma_merged_distinct(
            before.filter(is_not_of(last.pr)),
            offered(last.pr, last.reviews).filter(is_new_approval(replied)),
        );
    }
}

/// The logins of the approvers of `candidates`, in order.
pub open spec fn logins_of(candidates: Seq<CandidateView>) -> Seq<Seq<char>> {
    Seq::new(candidates.len(), |i: int| candidates[i].review.login)
}

/// The test for a login without a cached profile.
pub open spec fn is_unknown(members: Map<Seq<char>, github::UserView>) -> spec_fn(Seq<char>) -> bool {
    |login: Seq<char>| !members.contains_key(login)
}

/// Whether each of `picks` is a place in a list of `bound` hashtags.
pub open spec fn picks_within(picks: Seq<int>, bound: int) -> bool {
    forall|i: int| 0 <= i < picks.len() ==> 0 <= #[trigger] picks[i] < bound
}

/// The candidates in `list`, in its order.
pub open spec fn candidates_of(list: Seq<Candidate>) -> Seq<CandidateView> {
    Seq::new(list.len(), |i: int| list[i]@)
}

/// What the statuses in `list` hold, in its order.
pub open spec fn statuses_of(list: Seq<ReviewStatus>) -> Seq<StatusView> {
    Seq::new(list.len(), |i: int| list[i]@)
}

/// What an optional status holds.
pub open spec fn opt_status(status: Option<ReviewStatus>) -> Option<StatusView> {
    match status {
        Some(s) => Some(s@),
        None => None,
    }
}

/// What an optional reward holds.
pub open spec fn opt_bonus(bonus: Option<Bonus>) -> Option<BonusView> {
    match bonus {
        Some(b) => Some(b@),
        None => None,
    }
}

/// The words of thanks sent with a reward for the review at `url`.
pub open spec fn reason_for(url: Seq<char>) -> Seq<char> {
    "thanks for approving my PR! "@ + url
}

/// The settings that decide what becomes of a candidate.
pub struct Terms {
    /// Forced addresses, by login.
    pub overrides: Map<Seq<char>, Seq<char>>,
    /// The reward for one approval.
    pub amount: int,
    /// The address that rewards are sent from.
    pub giver: Seq<char>,
}

/// What becomes of `candidate`, whose approver has `profile`, in state `s`:
/// the state afterwards, and the status to act on, if any.
///
/// Where an address is found the review waits no longer and a reward is
/// made ready, with the hashtag at `pick`. Where none is found, a review
/// that does not wait yet is to be let wait, and one that waits is left
/// alone.
pub open spec fn classified(
    s: StateView,
    terms: Terms,
    candidate: CandidateView,
    profile: github::UserView,
    pick: int,
) -> (StateView, Option<StatusView>) {
    let key = candidate.key();
    match resolve(terms.overrides, profile, s.directory) {
        Some(email) => (
            s.released(key),
            Some(
                StatusView::Ready(
                    key,
                    BonusView {
                        giver_email: terms.giver,
                        receiver_email: email,
                        amount: terms.amount,
                        hashtag: s.hashtags[pick],
                        reason: reason_for(candidate.review.html_url),
                    },
                ),
            ),
        ),
        None => (
            s,
            if s.pending.contains(key) {
                None
            } else {
                Some(StatusView::MissingEmail(key))
            },
        ),
    }
}

/// What becomes of `candidates` taken in order, each with the cached
/// profile of its approver and the hashtag at its place in `picks`: the
/// state afterwards, and the statuses to act on.
pub open spec fn classified_all(
    s: StateView,
    terms: Terms,
    candidates: Seq<CandidateView>,
    picks: Seq<int>,
) -> (StateView, Seq<StatusView>)
    decreases candidates.len(),
{
    if candidates.len() == 0 {
        (s, Seq::empty())
    } else {
        let before = classified_all(s, terms, candidates.drop_last(), picks.drop_last());
        let last = candidates.last();
        let step = classified(
            before.0,
            terms,
            last,
            before.0.members[last.review.login],
            picks.last(),
        );
        (
            step.0,
            match step.1 {
                Some(status) => before.1.push(status),
                None => before.1,
            },
        )
    }
}

/// Whether `candidates` can be classified in state `s`: each of them has a
/// cached profile, and a hashtag is held unless no address is found for any
/// of them.
pub open spec fn can_classify(
    s: StateView,
    overrides: Map<Seq<char>, Seq<char>>,
    candidates: Seq<CandidateView>,
) -> bool {
    &&& forall|i: int|
        0 <= i < candidates.len() ==> s.members.contains_key(
            (#[trigger] candidates[i]).review.login,
        )
    &&& s.hashtags.len() == 0 ==> forall|i: int|
        0 <= i < candidates.len() ==> resolve(
            overrides,
            s.members[(#[trigger] candidates[i]).review.login],
            s.directory,
        ) is None
}

/// The reward to send for `status` in state `s`: the one made ready, unless
/// its pair has been rewarded already.
pub open spec fn bonus_due(s: StateView, status: StatusView) -> Option<BonusView> {
    match status {
        StatusView::Ready(key, bonus) => if s.replied.contains(key.pair()) {
            None
        } else {
            Some(bonus)
        },
        StatusView::MissingEmail(_) => None,
    }
}

/// The state after `status` was acted on, where `sent` says whether a
/// reward went out.
///
/// A pair that has been rewarded stays as it is. A reward that went out is
/// recorded. Every other review waits.
pub open spec fn replied_to(s: StateView, status: StatusView, sent: bool) -> StateView {
    match status {
        StatusView::Ready(key, _) => if !s.replied.contains(key.pair()) && sent {
            s.rewarded(key.pair())
        } else {
            s.deferred(key)
        },
        StatusView::MissingEmail(key) => s.deferred(key),
    }
}

/// Whether one of `list` stands for the same approval as `wanted`.
fn stands_in(list: &Vec<Candidate>, wanted: &Candidate) -> (b: bool)
    ensures
        b == stands(candidates_of(list@), wanted@.key()),
{
    let ghost all = candidates_of(list@);
    let mut i: usize = 0;
    while i < list.len()
        invariant
            i <= list@.len(),
            all == candidates_of(list@),
            forall|j: int| 0 <= j < i ==> (#[trigger] all[j]).key() != wanted@.key(),
        decreases list@.len() - i,
    {
        let entry = &list[i];
        if entry.pr.same(&wanted.pr) && entry.review.login == wanted.review.login
            && entry.review.id == wanted.review.id {
            assert(all[i as int].key() == wanted@.key());
            return true;
        }
        i = i + 1;
    }
    false
}

/// Takes `more` into `found`, in order, leaving out each whose approval
/// already stands.
fn take_in(found: &mut Vec<Candidate>, more: &Vec<Candidate>)
    ensures
        candidates_of(final(found)@) == merged(candidates_of(old(found)@), candidates_of(more@)),
{
    let ghost start = candidates_of(found@);
    let ghost all = candidates_of(more@);
    let mut k: usize = 0;
    while k < more.len()
        invariant
            k <= more@.len(),
            all == candidates_of(more@),
            candidates_of(found@) == merged(start, all.take(k as int)),
        decreases more@.len() - k,
    {
        let ghost earlier = candidates_of(found@);
        assert(all.take(k + 1).drop_last() =~= all.take(k as int));
        assert(all.take(k + 1).last() == all[k as int]);
        if !stands_in(found, &more[k]) {
            found.push(more[k].clone());
            assert(candidates_of(found@) =~= earlier.push(all[k as int]));
        }
        k = k + 1;
    }
    assert(all.take(k as int) =~= all);
}

/// The candidates of `list` that are not of `pr`, in the same order.
fn drop_pull(list: &Vec<Candidate>, pr: &PullRequest) -> (kept: Vec<Candidate>)
    ensures
        candidates_of(kept@) == candidates_of(list@).filter(is_not_of(pr@)),
{
    let ghost all = candidates_of(list@);
    let ghost test = is_not_of(pr@);
    let mut kept: Vec<Candidate> = Vec::new();
    let mut i: usize = 0;
    assert(Seq::<CandidateView>::empty().filter(test) =~= Seq::<CandidateView>::empty()) by {
        reveal(Seq::filter);
    }
    while i < list.len()
        invariant
            i <= list@.len(),
            all == candidates_of(list@),
            test == is_not_of(pr@),
            candidates_of(kept@) == all.take(i as int).filter(test),
        decreases list@.len() - i,
    {
        proof {
            assert(all.take(i + 1) =~= all.take(i as int).push(all[i as int]));
            all.take(i as int).lemma_filter_push(all[i as int], test);
        }
        if !list[i].pr.same(pr) {
            kept.push(list[i].clone());
        }
        i = i + 1;
    }
    assert(all.take(i as int) =~= all);
    kept
}

/// `rand::Rng::gen_range` on `rand::thread_rng()` over `0..bound`. Trusted:
/// the number drawn lies in the range, which must not be empty.
#[verifier::external_body]
fn pick_index(bound: usize) -> (i: usize)
    requires
        bound > 0,
    ensures
        i < bound,
{
    rand::thread_rng().gen_range(0..bound)
}

/// The daemon: its settings and its state.
pub struct Program {
    pub config: Config,
    pub state: State,
}

impl Program {
    /// The settings that decide what becomes of a candidate, with rewards
    /// sent from `giver`.
    pub open spec fn terms(&self, giver: Seq<char>) -> Terms {
        Terms {
            overrides: self.config.github.overrides(),
            amount: self.config.cherries_per_check as int,
            giver,
        }
    }

    /// The new approvals among the reviews of `pr`: those that approve and
    /// whose approver has not been rewarded for `pr`.
    fn fresh_approvals(&self, pr: &PullRequest, reviews: &Vec<Review>) -> (fresh: Vec<Candidate>)
        ensures
            candidates_of(fresh@) == offered(pr@, reviews_of(reviews@)).filter(
                is_new_approval(self.state@.replied),
            ),
    {
        let ghost all = offered(pr@, reviews_of(reviews@));
        let ghost test = is_new_approval(self.state@.replied);
        let mut fresh: Vec<Candidate> = Vec::new();
        let mut i: usize = 0;
        assert(Seq::<CandidateView>::empty().filter(test) =~= Seq::<CandidateView>::empty()) by {
            reveal(Seq::filter);
        }
        while i < reviews.len()
            invariant
                i <= reviews@.len(),
                all == offered(pr@, reviews_of(reviews@)),
                test == is_new_approval(self.state@.replied),
                candidates_of(fresh@) == all.take(i as int).filter(test),
            decreases reviews@.len() - i,
        {
            let review = &reviews[i];
            proof {
                assert(all.take(i + 1) =~= all.take(i as int).push(all[i as int]));
                all.take(i as int).lemma_filter_push(all[i as int], test);
            }
            if review.is_approved() && !self.state.has_replied(pr, &review.login) {
                fresh.push(Candidate { pr: pr.clone(), review: review.clone() });
            }
            i = i + 1;
        }
        assert(all.take(i as int) =~= all);
        fresh
    }

    /// The candidates that a cycle works on.
    ///
    /// `scanned` holds the pull requests that the search found, each with
    /// its full list of reviews; `retried` holds the reviews that wait, each
    /// as it was fetched again by its number. Of a scanned pull request the
    /// approvals count whose approver has not been rewarded for it. A review
    /// that is given more than once, by the scan or by both, stands once.
    pub fn new_approved_reviews(&self, scanned: &Vec<Scanned>, retried: &Vec<Candidate>) -> (found:
        Vec<Candidate>)
        ensures
            candidates_of(found@) == discovered(
                self.state@.replied,
                scanned_of(scanned@),
                candidates_of(retried@),
            ),
            distinct(candidates_of(found@)),
    {
        let ghost replied = self.state@.replied;
        let ghost all = scanned_of(scanned@);
        let mut found: Vec<Candidate> = Vec::new();
        let mut i: usize = 0;
        while i < scanned.len()
            invariant
                i <= scanned@.len(),
                replied == self.state@.replied,
                all == scanned_of(scanned@),
                candidates_of(found@) == scanned_all(replied, all.take(i as int)),
            decreases scanned@.len() - i,
        {
            let entry = &scanned[i];
            let fresh = self.fresh_approvals(&entry.pr, &entry.reviews);
            assert(all.take(i + 1).drop_last() =~= all.take(i as int));
            if fresh.len() > 0 {
                let mut kept = drop_pull(&found, &entry.pr);
                take_in(&mut kept, &fresh);
                found = kept;
            }
            i = i + 1;
        }
        assert(all.take(i as int) =~= all);
        take_in(&mut found, retried);
        proof {
            lemma_scanned_distinct(replied, all);
            lemma_merged_distinct(scanned_all(replied, all), candidates_of(retried@));
        }
        found
    }

    /// The logins among `found` that have no cached profile, in order: the
    /// profiles to fetch and cache before the reviews are classified.
    pub fn unknown_reviewers(&self, found: &Vec<Candidate>) -> (logins: Vec<String>)
        ensures
            texts_of(logins@) == logins_of(candidates_of(found@)).filter(
                is_unknown(self.state@.members),
            ),
    {
        let ghost all = logins_of(candidates_of(found@));
        let ghost test = is_unknown(self.state@.members);
        let mut logins: Vec<String> = Vec::new();
        let mut i: usize = 0;
        assert(Seq::<Seq<char>>::empty().filter(test) =~= Seq::<Seq<char>>::empty()) by {
            reveal(Seq::filter);
        }
        while i < found.len()
            invariant
                i <= found@.len(),
                all == logins_of(candidates_of(found@)),
                test == is_unknown(self.state@.members),
                texts_of(logins@) == all.take(i as int).filter(test),
            decreases found@.len() - i,
        {
            let login = &found[i].review.login;
            proof {
                assert(all.take(i + 1) =~= all.take(i as int).push(all[i as int]));
                all.take(i as int).lemma_filter_push(all[i as int], test);
            }
            if self.state.github_user(login.as_str()).is_none() {
                logins.push(login.clone());
            }
            i = i + 1;
        }
        assert(all.take(i as int) =~= all);
        logins
    }

    /// Whether `found` can be classified as the state stands: each of them
    /// has a cached profile, and a hashtag is held unless no address is found
    /// for any of them.
    pub fn is_ready_for(&self, found: &Vec<Candidate>) -> (ready: bool)
        ensures
            ready == can_classify(
                self.state@,
                self.config.github.overrides(),
                candidates_of(found@),
            ),
    {
        let ghost all = candidates_of(found@);
        let ghost s = self.state@;
        let ghost overrides = self.config.github.overrides();
        let bare = self.state.hashtags.len() == 0;
        let mut i: usize = 0;
        while i < found.len()
            invariant
                i <= found@.len(),
                all == candidates_of(found@),
                s == self.state@,
                overrides == self.config.github.overrides(),
                bare == (s.hashtags.len() == 0),
                forall|j: int|
                    0 <= j < i ==> s.members.contains_key((#[trigger] all[j]).review.login),
                bare ==> forall|j: int|
                    0 <= j < i ==> resolve(
                        overrides,
                        s.members[(#[trigger] all[j]).review.login],
                        s.directory,
                    ) is None,
            decreases found@.len() - i,
        {
            assert(all[i as int].review.login == found@[i as int].review.login@);
            match self.state.github_user(found[i].review.login.as_str()) {
                Some(user) => {
                    if bare {
                        let email = self.config.find_bonusly_email(
                            self.state.bonusly_users.as_slice(),
                            &user,
                        );
                        if email.is_some() {
                            return false;
                        }
                    }
                },
                None => {
                    return false;
                },
            }
            i = i + 1;
        }
        true
    }

    /// Decides what becomes of each of `found`, in order, from the cached
    /// profile of its approver. Each reward made ready carries a hashtag
    /// drawn at random from those held.
    pub fn reviews(&mut self, giver_email: &String, found: &Vec<Candidate>) -> (ret: Vec<
        ReviewStatus,
    >)
        requires
            old(self).state.wf(),
            can_classify(
                old(self).state@,
                old(self).config.github.overrides(),
                candidates_of(found@),
            ),
        ensures
            final(self).state.wf(),
            final(self).config == old(self).config,
            exists|picks: Seq<int>|
                picks.len() == found@.len() && (old(self).state.hashtags@.len() > 0
                    ==> picks_within(picks, old(self).state.hashtags@.len() as int)) && (
                    final(self).state@,
                    statuses_of(ret@),
                ) == #[trigger] classified_all(
                    old(self).state@,
                    old(self).terms(giver_email@),
                    candidates_of(found@),
                    picks,
                ),
    {
        let ghost start = self.state@;
        let ghost terms = self.terms(giver_email@);
        let ghost all = candidates_of(found@);
        let ghost bound = self.state.hashtags@.len() as int;
        let ghost mut picks: Seq<int> = Seq::empty();
        let mut ret: Vec<ReviewStatus> = Vec::new();
        let mut i: usize = 0;
        while i < found.len()
            invariant
                i <= found@.len(),
                self.state.wf(),
                self.config == old(self).config,
                terms == self.terms(giver_email@),
                all == candidates_of(found@),
                self.state.hashtags@.len() == bound,
                self.state@.members == start.members,
                self.state@.directory == start.directory,
                can_classify(start, self.config.github.overrides(), all),
                start.hashtags.len() == bound,
                picks.len() == i,
                bound > 0 ==> picks_within(picks, bound),
                (self.state@, statuses_of(ret@)) == classified_all(
                    start,
                    terms,
                    all.take(i as int),
                    picks,
                ),
            decreases found@.len() - i,
        {
            let candidate = &found[i];
            assert(all[i as int] == candidate@);
            let ghost earlier_picks = picks;
            match self.state.github_user(candidate.review.login.as_str()) {
                Some(user) => {
                    let held = self.state.hashtags.len();
                    let pick = if held > 0 {
                        pick_index(held)
                    } else {
                        0
                    };
                    let status = self.classify(
                        giver_email,
                        &candidate.pr,
                        &candidate.review,
                        &user,
                        pick,
                    );
                    proof {
                        picks = picks.push(pick as int);
                        assert(all.take(i + 1).drop_last() =~= all.take(i as int));
                        assert(picks.drop_last() =~= earlier_picks);
                        assert(texts_of(self.state.hashtags@).len() == self.state.hashtags@.len());
                    }
                    match status {
                        Some(s) => {
                            ret.push(s);
                        },
                        None => {},
                    }
                },
                None => {},
            }
            i = i + 1;
        }
        assert(all.take(i as int) =~= all);
        ret
    }

    /// Decides what becomes of one review of `pr`, whose approver has the
    /// profile `user`; a reward carries the hashtag at `pick`.
    pub fn classify(
        &mut self,
        giver_email: &String,
        pr: &PullRequest,
        review: &Review,
        user: &github::User,
        pick: usize,
    ) -> (status: Option<ReviewStatus>)
        requires
            old(self).state.wf(),
            resolve(
                old(self).config.github.overrides(),
                user@,
                old(self).state@.directory,
            ) is Some ==> pick < old(self).state.hashtags@.len(),
        ensures
            final(self).state.wf(),
            final(self).config == old(self).config,
            (final(self).state@, opt_status(status)) == classified(
                old(self).state@,
                old(self).terms(giver_email@),
                CandidateView { pr: pr@, review: review@ },
                user@,
                pick as int,
            ),
    {
        let email = self.config.find_bonusly_email(self.state.bonusly_users.as_slice(), user);
        let missing_email = MissingEmail {
            pr: pr.clone(),
            reviewer: review.login.clone(),
            id: review.id,
        };
        match email {
            Some(email) => {
                let reason = String::from_str("thanks for approving my PR! ").concat(
                    review.html_url.as_str(),
                );
                let bonus = Bonus {
                    giver_email: giver_email.clone(),
                    receiver_email: email,
                    amount: self.config.cherries_per_check,
                    hashtag: self.state.hashtags[pick].clone(),
                    reason,
                };
                self.state.remove_pending(&missing_email);
                Some(ReviewStatus::Ready(missing_email, bonus))
            },
            None => {
                if !self.state.is_pending(&missing_email) {
                    Some(ReviewStatus::MissingEmail(missing_email))
                } else {
                    None
                }
            },
        }
    }

    /// The reward to send for `review` now, if any: none for a review
    /// without an address, and none for a pair that has been rewarded.
    pub fn next_bonus(&self, review: &ReviewStatus) -> (bonus: Option<Bonus>)
        ensures
            opt_bonus(bonus) == bonus_due(self.state@, review@),
    {
        match review {
            ReviewStatus::Ready(missing_email, bonus) => {
                if self.state.has_replied(&missing_email.pr, &missing_email.reviewer) {
                    None
                } else {
                    Some(bonus.clone())
                }
            },
            ReviewStatus::MissingEmail(_) => None,
        }
    }

    /// Records how acting on `review` went. A reward that went out is
    /// recorded and nothing of its pair waits any more; any other review
    /// waits, unless its pair has been rewarded. The error is the message of
    /// a failed sending.
    pub fn reply(&mut self, review: ReviewStatus, delivery: Delivery) -> (r: Result<(), String>)
        requires
            old(self).state.wf(),
        ensures
            final(self).state.wf(),
            final(self).config == old(self).config,
            final(self).state@ == replied_to(old(self).state@, review@, delivery is Sent),
            r is Err <==> review@ is Ready && delivery is Failed,
            r matches Err(message) ==> delivery == Delivery::Failed(message),
    {
        match review {
            ReviewStatus::Ready(missing_email, _) => {
                match delivery {
                    Delivery::Sent => {
                        if self.state.has_replied(&missing_email.pr, &missing_email.reviewer) {
                            self.state.insert_pending(missing_email);
                        } else {
                            self.state.insert_replied(RepliedReview::from(missing_email));
                        }
                        Ok(())
                    },
                    Delivery::Failed(message) => {
                        self.state.insert_pending(missing_email);
                        Err(message)
                    },
                    Delivery::Withheld => {
                        self.state.insert_pending(missing_email);
                        Ok(())
                    },
                }
            },
            ReviewStatus::MissingEmail(missing_email) => {
                self.state.insert_pending(missing_email);
                Ok(())
            },
        }
    }

    /// Ends a cycle at `now`: the watermark moves there, whatever failed,
    /// and the messages of the failed sendings come back as one error.
    pub fn finish_at(&mut self, now: Timestamp, errors: Vec<String>) -> (r: Result<
        (),
        Vec<String>,
    >)
        requires
            now.valid(),
        ensures
            final(self).config == old(self).config,
            final(self).state.cutoff == now,
            final(self).state@ == old(self).state@.advanced(now@),
            old(self).state.wf() ==> final(self).state.wf(),
            r is Ok <==> errors@.len() == 0,
            r matches Err(all) ==> all == errors,
    {
        self.state.cutoff = now;
        if errors.len() == 0 {
            Ok(())
        } else {
            Err(errors)
        }
    }

    /// Ends a cycle at the present: the watermark moves to the instant the
    /// clock shows, whatever failed, and the messages of the failed sendings
    /// come back as one error.
    pub fn reply_all_and_wait(&mut self, errors: Vec<String>) -> (r: Result<(), Vec<String>>)
        ensures
            final(self).config == old(self).config,
            final(self).state.cutoff.valid(),
            final(self).state@ == old(self).state@.advanced(final(self).state@.cutoff),
            old(self).state.wf() ==> final(self).state.wf(),
            r is Ok <==> errors@.len() == 0,
            r matches Err(all) ==> all == errors,
    {
        self.finish_at(utc_now(), errors)
    }
}

} // verus!
