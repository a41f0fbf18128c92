//! The durable state: what has been rewarded, what still waits, the
//! watermark of the scan, and the cached directory and profiles.

use vstd::prelude::*;
use vstd::hash_map::StringHashMap;
use crate::bonusly;
use crate::bonusly::directory_of;
use crate::clock::{utc_now, Timestamp, CLOCK_SPAN};
use crate::config::Config;
use crate::github;
use crate::github::{NonRepliedReview, PairView, PullRequest, ReviewKey};

pub use crate::github::RepliedReview;

verus! {

/// A review that waits: no address is known for its approver, or sending
/// the reward failed.
pub type MissingEmail = NonRepliedReview;

/// The pairs of the rewards in `list`, in its order.
pub open spec fn pairs_of(list: Seq<RepliedReview>) -> Seq<PairView> {
    Seq::new(list.len(), |i: int| list[i]@)
}

/// The approvals in `list`, in its order.
pub open spec fn keys_of(list: Seq<MissingEmail>) -> Seq<ReviewKey> {
    Seq::new(list.len(), |i: int| list[i]@)
}

/// The texts in `list`, in its order.
pub open spec fn texts_of(list: Seq<String>) -> Seq<Seq<char>> {
    Seq::new(list.len(), |i: int| list[i]@)
}

/// The profiles in `cache`, by login.
pub open spec fn members_of(cache: Map<Seq<char>, github::User>) -> Map<
    Seq<char>,
    github::UserView,
> {
    Map::new(|login: Seq<char>| cache.contains_key(login), |login: Seq<char>| cache[login]@)
}

/// What the cached profiles in `list` hold, each with its login, in order.
pub open spec fn profiles_of(list: Seq<(String, github::User)>) -> Seq<
    (Seq<char>, github::UserView),
> {
    Seq::new(list.len(), |i: int| (list[i].0@, list[i].1@))
}

/// The cache after the profiles of `list` were cached in order: of two
/// profiles for one login the first stays.
pub open spec fn cached(list: Seq<(Seq<char>, github::UserView)>) -> Map<
    Seq<char>,
    github::UserView,
>
    decreases list.len(),
{
    if list.len() == 0 {
        Map::empty()
    } else {
        let before = cached(list.drop_last());
        if before.contains_key(list.last().0) {
            before
        } else {
            before.insert(list.last().0, list.last().1)
        }
    }
}

/// Whether a waiting approval `key` is one to drop: it is by `pair`, and it
/// has the number `id` where one is given.
pub open spec fn is_dropped(key: ReviewKey, pair: PairView, id: Option<int>) -> bool {
    key.pair() == pair && (id is None || id == Some(key.id))
}

/// `pending` without the approvals to drop.
pub open spec fn pending_without(pending: Set<ReviewKey>, pair: PairView, id: Option<int>) -> Set<
    ReviewKey,
> {
    Set::new(|key: ReviewKey| pending.contains(key) && !is_dropped(key, pair, id))
}

/// No approval of `pending` is by a pair of `replied`.
pub open spec fn apart(replied: Set<PairView>, pending: Set<ReviewKey>) -> bool {
    forall|key: ReviewKey| pending.contains(key) ==> !replied.contains(key.pair())
}

/// What a [`State`] holds. Times are in nanoseconds since the epoch.
pub struct StateView {
    pub last_update: int,
    pub cutoff: int,
    pub replied: Set<PairView>,
    pub pending: Set<ReviewKey>,
    pub directory: Seq<bonusly::UserView>,
    pub members: Map<Seq<char>, github::UserView>,
    pub hashtags: Seq<Seq<char>>,
}

impl StateView {
    /// No approval waits whose approver has been rewarded for its pull
    /// request.
    pub open spec fn coherent(self) -> bool {
        apart(self.replied, self.pending)
    }

    /// This state after the reward for `pair` went out: the pair is
    /// recorded, and nothing of it waits any longer.
    pub open spec fn rewarded(self, pair: PairView) -> StateView {
        StateView {
            replied: self.replied.insert(pair),
            pending: pending_without(self.pending, pair, None),
            ..self
        }
    }

    /// This state with `key` waiting, unless its pair has been rewarded.
    pub open spec fn deferred(self, key: ReviewKey) -> StateView {
        if self.replied.contains(key.pair()) {
            self
        } else {
            StateView { pending: self.pending.insert(key), ..self }
        }
    }

    /// This state with `key` no longer waiting.
    pub open spec fn released(self, key: ReviewKey) -> StateView {
        StateView { pending: self.pending.remove(key), ..self }
    }

    /// This state with the profile of `login` cached, unless one is cached
    /// already.
    pub open spec fn remembering(self, login: Seq<char>, user: github::UserView) -> StateView {
        if self.members.contains_key(login) {
            self
        } else {
            StateView { members: self.members.insert(login, user), ..self }
        }
    }

    /// This state with the directory fetched anew at `now`.
    pub open spec fn refreshed(
        self,
        now: int,
        hashtags: Seq<Seq<char>>,
        directory: Seq<bonusly::UserView>,
    ) -> StateView {
        StateView { last_update: now, hashtags, directory, ..self }
    }

    /// This state with the scan's watermark moved to `now`.
    pub open spec fn advanced(self, now: int) -> StateView {
        StateView { cutoff: now, ..self }
    }

    /// Whether the directory is due for a refresh at `now`, `interval`
    /// seconds after the last one at the earliest.
    pub open spec fn stale_at(self, now: int, interval: int) -> bool {
        self.last_update + interval * 1_000_000_000 <= now
    }
}

/// A list without repeats stays so when something new is put at its end,
/// and then holds what it held and the new item.
proof fn lemma_push_new<A>(list: Seq<A>, item: A)
    requires
        list.no_duplicates(),
        !list.contains(item),
    ensures
        list.push(item).no_duplicates(),
        list.push(item).to_set() == list.to_set().insert(item),
{
    let longer = list.push(item);
    list.lemma_push_to_set_commute(item);
    assert forall|a: int, b: int|
        0 <= a < longer.len() && 0 <= b < longer.len() && a != b implies longer[a]
        != longer[b] by {
        if a < list.len() && b < list.len() {
            assert(list[a] != list[b]);
        } else if a < list.len() {
            assert(list.contains(list[a]));
        } else {
            assert(list.contains(list[b]));
        }
    }
}

/// Whether `list` holds a reward for the given login on `pr`.
fn holds_pair(list: &Vec<RepliedReview>, pr: &PullRequest, reviewer: &String) -> (b: bool)
    ensures
        b == pairs_of(list@).to_set().contains(PairView { pr: pr@, reviewer: reviewer@ }),
{
    let ghost pairs = pairs_of(list@);
    let ghost pair = PairView { pr: pr@, reviewer: reviewer@ };
    let mut i: usize = 0;
    while i < list.len()
        invariant
            i <= list@.len(),
            pairs == pairs_of(list@),
            pair == (PairView { pr: pr@, reviewer: reviewer@ }),
            forall|j: int| 0 <= j < i ==> #[trigger] pairs[j] != pair,
        decreases list@.len() - i,
    {
        if list[i].is_of(pr, reviewer) {
            assert(pairs[i as int] == pair);
            return true;
        }
        i = i + 1;
    }
    false
}

/// Whether `list` holds the approval `wanted`.
fn holds_key(list: &Vec<MissingEmail>, wanted: &MissingEmail) -> (b: bool)
    ensures
        b == keys_of(list@).to_set().contains(wanted@),
{
    let ghost keys = keys_of(list@);
    let mut i: usize = 0;
    while i < list.len()
        invariant
            i <= list@.len(),
            keys == keys_of(list@),
            forall|j: int| 0 <= j < i ==> #[trigger] keys[j] != wanted@,
        decreases list@.len() - i,
    {
        if list[i].same(wanted) {
            assert(keys[i as int] == wanted@);
            return true;
        }
        i = i + 1;
    }
    false
}

/// The approvals of `list` but those by the given login on `pr` (with the number
/// `id`, where one is given), in the same order.
fn without(list: &Vec<MissingEmail>, pr: &PullRequest, reviewer: &String, id: Option<u64>) -> (kept:
    Vec<MissingEmail>)
    requires
        keys_of(list@).no_duplicates(),
    ensures
        keys_of(kept@).no_duplicates(),
        keys_of(kept@).to_set() == pending_without(
            keys_of(list@).to_set(),
            PairView { pr: pr@, reviewer: reviewer@ },
            match id {
                Some(n) => Some(n as int),
                None => None,
            },
        ),
{
    let ghost keys = keys_of(list@);
    let ghost pair = PairView { pr: pr@, reviewer: reviewer@ };
    let ghost number: Option<int> = match id {
        Some(n) => Some(n as int),
        None => None,
    };
    let mut kept: Vec<MissingEmail> = Vec::new();
    let mut i: usize = 0;
    while i < list.len()
        invariant
            i <= list@.len(),
            keys == keys_of(list@),
            keys.no_duplicates(),
            pair == (PairView { pr: pr@, reviewer: reviewer@ }),
            number == match id {
                Some(n) => Some(n as int),
                None => None,
            },
            keys_of(kept@).no_duplicates(),
            forall|a: int|
                0 <= a < kept@.len() ==> !is_dropped(#[trigger] keys_of(kept@)[a], pair, number)
                    && exists|j: int| 0 <= j < i && keys[j] == keys_of(kept@)[a],
            forall|j: int|
                0 <= j < i && !is_dropped(#[trigger] keys[j], pair, number) ==> keys_of(
                    kept@,
                ).contains(keys[j]),
        decreases list@.len() - i,
    {
        let entry = &list[i];
        let by_pair = entry.is_of(pr, reviewer);
        let dropped = by_pair && match id {
            Some(n) => entry.id == n,
            None => true,
        };
        assert(dropped == is_dropped(keys[i as int], pair, number));
        if !dropped {
            let ghost earlier = keys_of(kept@);
            kept.push(entry.clone());
            proof {
                let later = keys_of(kept@);
                assert(later =~= earlier.push(keys[i as int]));
                assert(!earlier.contains(keys[i as int])) by {
                    if earlier.contains(keys[i as int]) {
                        let a = choose|a: int|
                            0 <= a < earlier.len() && earlier[a] == keys[i as int];
                        let j = choose|j: int| 0 <= j < i && keys[j] == earlier[a];
                        assert(keys[j] != keys[i as int]);
                    }
                }
                lemma_push_new(earlier, keys[i as int]);
                assert forall|j: int|
                    0 <= j < i + 1 && !is_dropped(#[trigger] keys[j], pair, number) implies later.contains(
                    keys[j],
                ) by {
                    if j < i {
                        let a = choose|a: int| 0 <= a < earlier.len() && earlier[a] == keys[j];
                        assert(later[a] == keys[j]);
                    } else {
                        assert(later[earlier.len() as int] == keys[j]);
                    }
                }
            }
        }
        i = i + 1;
    }
    proof {
        let got = keys_of(kept@).to_set();
        let want = pending_without(keys.to_set(), pair, number);
        assert forall|key: ReviewKey| got.contains(key) <==> want.contains(key) by {
            if got.contains(key) {
                let a = choose|a: int| 0 <= a < kept@.len() && keys_of(kept@)[a] == key;
                let j = choose|j: int| 0 <= j < i && keys[j] == keys_of(kept@)[a];
                assert(keys[j] == key);
            }
            if want.contains(key) {
                let j = choose|j: int| 0 <= j < keys.len() && keys[j] == key;
                assert(keys_of(kept@).contains(keys[j]));
            }
        }
        assert(got =~= want);
    }
    kept
}

/// The state of the daemon, read when it starts and written after each
/// cycle.
pub struct State {
    /// When the directory was last fetched.
    pub last_update: Timestamp,
    /// Who has been rewarded for which pull request; each pair once.
    pub replied_prs: Vec<RepliedReview>,
    /// The approvals that wait; each once, and none of a rewarded pair.
    pub non_replied_prs: Vec<MissingEmail>,
    /// Pull requests that did not change since are not scanned.
    pub cutoff: Timestamp,
    /// The users of the rewards platform.
    pub bonusly_users: Vec<bonusly::User>,
    /// Profiles on the review platform, by login.
    pub github_members: StringHashMap<github::User>,
    /// The logins that have a cached profile, in the order in which they
    /// were cached; each once.
    pub member_logins: Vec<String>,
    /// The hashtags that a reward can carry.
    pub hashtags: Vec<String>,
}

impl View for State {
    type V = StateView;

    open spec fn view(&self) -> StateView {
        StateView {
            last_update: self.last_update@,
            cutoff: self.cutoff@,
            replied: pairs_of(self.replied_prs@).to_set(),
            pending: keys_of(self.non_replied_prs@).to_set(),
            directory: directory_of(self.bonusly_users@),
            members: members_of(self.github_members@),
            hashtags: texts_of(self.hashtags@),
        }
    }
}

impl State {
    /// Both times are valid, no pair is recorded twice, no approval waits
    /// twice, none waits whose pair has been rewarded, and the logins listed
    /// are those with a cached profile.
    pub open spec fn wf(&self) -> bool {
        &&& self.last_update.valid()
        &&& self.cutoff.valid()
        &&& pairs_of(self.replied_prs@).no_duplicates()
        &&& keys_of(self.non_replied_prs@).no_duplicates()
        &&& self@.coherent()
        &&& texts_of(self.member_logins@).no_duplicates()
        &&& texts_of(self.member_logins@).to_set() == self@.members.dom()
    }

    /// A state with nothing recorded, whose scan starts one poll interval
    /// before `now`. `None` where that instant cannot be written down.
    pub fn starting_at(now: Timestamp, config: &Config) -> (state: Option<State>)
        requires
            now.valid(),
        ensures
            state is Some <==> now.secs - config.pr_check_interval >= i64::MIN,
            state matches Some(s) ==> s.wf() && s@.last_update == now@ && s@.cutoff == now@
                - config.pr_check_interval * 1_000_000_000 && s@.replied == Set::<PairView>::empty()
                && s@.pending == Set::<ReviewKey>::empty() && s@.directory == Seq::<
                bonusly::UserView,
            >::empty() && s@.members == Map::<Seq<char>, github::UserView>::empty() && s@.hashtags
                == Seq::<Seq<char>>::empty(),
    {
        match now.minus_secs(config.pr_check_interval) {
            Some(cutoff) => {
                let s = State {
                    last_update: now,
                    replied_prs: Vec::new(),
                    non_replied_prs: Vec::new(),
                    cutoff,
                    bonusly_users: Vec::new(),
                    github_members: StringHashMap::new(),
                    member_logins: Vec::new(),
                    hashtags: Vec::new(),
                };
                assert(texts_of(s.member_logins@).to_set() =~= s@.members.dom());
                assert(s@.pending =~= Set::<ReviewKey>::empty());
                assert(s@.members =~= Map::<Seq<char>, github::UserView>::empty());
                Some(s)
            },
            None => None,
        }
    }

    /// The state that was written down with these parts. A pair listed
    /// twice is recorded once, a review does not wait whose pair is among
    /// the rewarded, and of two profiles for one login the first stays.
    pub fn restore(
        last_update: Timestamp,
        cutoff: Timestamp,
        replied: Vec<RepliedReview>,
        pending: Vec<MissingEmail>,
        users: Vec<bonusly::User>,
        members: Vec<(String, github::User)>,
        hashtags: Vec<String>,
    ) -> (state: State)
        requires
            last_update.valid(),
            cutoff.valid(),
        ensures
            state.wf(),
            state.last_update == last_update,
            state.cutoff == cutoff,
            state@.replied == pairs_of(replied@).to_set(),
            state@.pending == Set::new(
                |key: ReviewKey|
                    keys_of(pending@).contains(key) && !pairs_of(replied@).to_set().contains(
                        key.pair(),
                    ),
            ),
            state@.directory == directory_of(users@),
            state@.hashtags == texts_of(hashtags@),
            state@.members == cached(profiles_of(members@)),
    {
        let mut state = State {
            last_update,
            replied_prs: Vec::new(),
            non_replied_prs: Vec::new(),
            cutoff,
            bonusly_users: users,
            github_members: StringHashMap::new(),
            member_logins: Vec::new(),
            hashtags,
        };
        assert(texts_of(state.member_logins@).to_set() =~= state@.members.dom());
        let ghost pairs = pairs_of(replied@);
        let ghost keys = keys_of(pending@);
        let ghost start = state@;
        let mut i: usize = 0;
        while i < replied.len()
            invariant
                i <= replied@.len(),
                pairs == pairs_of(replied@),
                state.wf(),
                state.last_update == last_update,
                state.cutoff == cutoff,
                state@.replied == pairs.take(i as int).to_set(),
                state@.pending == Set::<ReviewKey>::empty(),
                state@.directory == start.directory,
                state@.hashtags == start.hashtags,
                state@.members == start.members,
            decreases replied@.len() - i,
        {
            state.insert_replied(replied[i].clone());
            proof {
                assert(pairs.take(i + 1) =~= pairs.take(i as int).push(pairs[i as int]));
                pairs.take(i as int).lemma_push_to_set_commute(pairs[i as int]);
                assert(state@.pending =~= Set::<ReviewKey>::empty());
            }
            i = i + 1;
        }
        assert(pairs.take(i as int) =~= pairs);
        let ghost rewarded = pairs.to_set();
        let mut k: usize = 0;
        while k < pending.len()
            invariant
                k <= pending@.len(),
                keys == keys_of(pending@),
                rewarded == pairs.to_set(),
                state.wf(),
                state.last_update == last_update,
                state.cutoff == cutoff,
                state@.replied == rewarded,
                state@.pending == Set::new(
                    |key: ReviewKey|
                        keys.take(k as int).contains(key) && !rewarded.contains(key.pair()),
                ),
                state@.directory == start.directory,
                state@.hashtags == start.hashtags,
                state@.members == start.members,
            decreases pending@.len() - k,
        {
            state.insert_pending(pending[k].clone());
            proof {
                let prev = keys.take(k as int);
                let next = keys.take(k + 1);
                let later = Set::new(
                    |key: ReviewKey| next.contains(key) && !rewarded.contains(key.pair()),
                );
                assert(next =~= prev.push(keys[k as int]));
                assert forall|key: ReviewKey| state@.pending.contains(key) <==> later.contains(
                    key,
                ) by {
                    if prev.contains(key) {
                        let j = choose|j: int| 0 <= j < prev.len() && prev[j] == key;
                        assert(next[j] == key);
                    }
                    if next.contains(key) {
                        let j = choose|j: int| 0 <= j < next.len() && next[j] == key;
                        if j < k {
                            assert(prev[j] == key);
                        }
                    }
                    assert(next[k as int] == keys[k as int]);
                }
                assert(state@.pending =~= later);
            }
            k = k + 1;
        }
        assert(keys.take(k as int) =~= keys);
        let ghost profiles = profiles_of(members@);
        let ghost waiting = state@.pending;
        let mut m: usize = 0;
        while m < members.len()
            invariant
                m <= members@.len(),
                profiles == profiles_of(members@),
                state.wf(),
                state.last_update == last_update,
                state.cutoff == cutoff,
                state@.replied == rewarded,
                state@.pending == waiting,
                state@.directory == start.directory,
                state@.hashtags == start.hashtags,
                state@.members == cached(profiles.take(m as int)),
            decreases members@.len() - m,
        {
            let login = members[m].0.clone();
            let user = members[m].1.clone();
            state.remember(login, user);
            assert(profiles.take(m + 1).drop_last() =~= profiles.take(m as int));
            m = m + 1;
        }
        assert(profiles.take(m as int) =~= profiles);
        state
    }

    /// The cached profiles, each with its login, in the order in which they
    /// were cached.
    pub fn members(&self) -> (list: Vec<(String, github::User)>)
        requires
            self.wf(),
        ensures
            list@.len() == self.member_logins@.len(),
            forall|i: int|
                0 <= i < list@.len() ==> (#[trigger] profiles_of(list@)[i]) == (
                    self.member_logins@[i]@,
                    self@.members[self.member_logins@[i]@],
                ),
    {
        let mut list: Vec<(String, github::User)> = Vec::new();
        let mut i: usize = 0;
        while i < self.member_logins.len()
            invariant
                i <= self.member_logins@.len(),
                self.wf(),
                list@.len() == i,
                forall|j: int|
                    0 <= j < i ==> (#[trigger] profiles_of(list@)[j]) == (
                        self.member_logins@[j]@,
                        self@.members[self.member_logins@[j]@],
                    ),
            decreases self.member_logins@.len() - i,
        {
            let login = &self.member_logins[i];
            let ghost earlier = profiles_of(list@);
            proof {
                let logins = texts_of(self.member_logins@);
                assert(logins[i as int] == login@);
                assert(logins.to_set().contains(login@));
            }
            match self.github_members.get(login.as_str()) {
                Some(user) => {
                    list.push((login.clone(), user.clone()));
                    assert(profiles_of(list@) =~= earlier.push((login@, self@.members[login@])));
                },
                None => {},
            }
            i = i + 1;
        }
        list
    }

    /// A state with nothing recorded, whose scan starts one poll interval
    /// before the present. `None` where that instant cannot be written down.
    pub fn new(config: &Config) -> (state: Option<State>)
        ensures
            config.pr_check_interval <= i64::MAX - CLOCK_SPAN ==> state is Some,
            state matches Some(s) ==> s.wf() && s@.cutoff == s@.last_update
                - config.pr_check_interval * 1_000_000_000 && s@.replied == Set::<PairView>::empty()
                && s@.pending == Set::<ReviewKey>::empty() && s@.directory == Seq::<
                bonusly::UserView,
            >::empty() && s@.members == Map::<Seq<char>, github::UserView>::empty() && s@.hashtags
                == Seq::<Seq<char>>::empty(),
    {
        State::starting_at(utc_now(), config)
    }

    /// Whether the given login has been rewarded for `pr`.
    pub fn has_replied(&self, pr: &PullRequest, reviewer: &String) -> (b: bool)
        ensures
            b == self@.replied.contains(PairView { pr: pr@, reviewer: reviewer@ }),
    {
        holds_pair(&self.replied_prs, pr, reviewer)
    }

    /// Whether `review` waits.
    pub fn is_pending(&self, review: &MissingEmail) -> (b: bool)
        ensures
            b == self@.pending.contains(review@),
    {
        holds_key(&self.non_replied_prs, review)
    }

    /// Records that the reward for `review` went out. Nothing of its pair
    /// waits afterwards.
    pub fn insert_replied(&mut self, review: RepliedReview)
        requires
            old(self).wf(),
        ensures
            final(self).wf(),
            final(self)@ == old(self)@.rewarded(review@),
    {
        let kept = without(&self.non_replied_prs, &review.pr, &review.reviewer, None);
        self.non_replied_prs = kept;
        if !holds_pair(&self.replied_prs, &review.pr, &review.reviewer) {
            let ghost earlier = pairs_of(self.replied_prs@);
            let ghost pair = review@;
            self.replied_prs.push(review);
            proof {
                assert(pairs_of(self.replied_prs@) =~= earlier.push(pair));
                lemma_push_new(earlier, pair);
            }
        } else {
            assert(old(self)@.replied.insert(review@) =~= old(self)@.replied);
        }
    }

    /// Lets `review` wait, unless its pair has been rewarded.
    pub fn insert_pending(&mut self, review: MissingEmail)
        requires
            old(self).wf(),
        ensures
            final(self).wf(),
            final(self)@ == old(self)@.deferred(review@),
    {
        if holds_pair(&self.replied_prs, &review.pr, &review.reviewer) {
            return ;
        }
        if !holds_key(&self.non_replied_prs, &review) {
            let ghost earlier = keys_of(self.non_replied_prs@);
            let ghost key = review@;
            self.non_replied_prs.push(review);
            proof {
                assert(keys_of(self.non_replied_prs@) =~= earlier.push(key));
                lemma_push_new(earlier, key);
            }
        } else {
            assert(old(self)@.pending.insert(review@) =~= old(self)@.pending);
        }
    }

    /// Lets `review` wait no longer.
    pub fn remove_pending(&mut self, review: &MissingEmail)
        requires
            old(self).wf(),
        ensures
            final(self).wf(),
            final(self)@ == old(self)@.released(review@),
    {
        let kept = without(&self.non_replied_prs, &review.pr, &review.reviewer, Some(review.id));
        self.non_replied_prs = kept;
        assert(final(self)@.pending =~= old(self)@.pending.remove(review@));
    }

    /// The approvals that wait, each to be fetched again by its number,
    /// whatever the watermark.
    pub fn pending_reviews(&self) -> (list: Vec<MissingEmail>)
        ensures
            keys_of(list@) == keys_of(self.non_replied_prs@),
            keys_of(list@).to_set() == self@.pending,
    {
        let mut list: Vec<MissingEmail> = Vec::new();
        let mut i: usize = 0;
        while i < self.non_replied_prs.len()
            invariant
                i <= self.non_replied_prs@.len(),
                keys_of(list@) == keys_of(self.non_replied_prs@).take(i as int),
            decreases self.non_replied_prs@.len() - i,
        {
            let ghost earlier = keys_of(list@);
            let entry = self.non_replied_prs[i].clone();
            list.push(entry);
            assert(keys_of(list@) =~= earlier.push(keys_of(self.non_replied_prs@)[i as int]));
            i = i + 1;
        }
        list
    }

    /// The cached profile of `login`.
    pub fn github_user(&self, login: &str) -> (user: Option<github::User>)
        ensures
            user is Some <==> self@.members.contains_key(login@),
            user matches Some(u) ==> u@ == self@.members[login@],
    {
        match self.github_members.get(login) {
            Some(u) => Some(u.clone()),
            None => None,
        }
    }

    /// Caches `user` as the profile of `login`, unless one is cached: a
    /// cached profile is never replaced.
    pub fn remember(&mut self, login: String, user: github::User)
        requires
            old(self).wf(),
        ensures
            final(self).wf(),
            final(self)@ == old(self)@.remembering(login@, user@),
    {
        if !self.github_members.contains_key(login.as_str()) {
            let ghost before = self.github_members@;
            let ghost earlier = texts_of(self.member_logins@);
            self.member_logins.push(login.clone());
            self.github_members.insert(login, user);
            proof {
                let later = texts_of(self.member_logins@);
                assert(members_of(self.github_members@) =~= members_of(before).insert(
                    login@,
                    user@,
                ));
                assert(later =~= earlier.push(login@));
                assert(!earlier.to_set().contains(login@));
                lemma_push_new(earlier, login@);
            }
        }
    }

    /// The logins that have a cached profile, in the order in which they
    /// were cached.
    pub fn known_logins(&self) -> (logins: Vec<String>)
        ensures
            texts_of(logins@) == texts_of(self.member_logins@),
            self.wf() ==> texts_of(logins@).to_set() == self@.members.dom(),
    {
        let mut logins: Vec<String> = Vec::new();
        let mut i: usize = 0;
        while i < self.member_logins.len()
            invariant
                i <= self.member_logins@.len(),
                texts_of(logins@) == texts_of(self.member_logins@).take(i as int),
            decreases self.member_logins@.len() - i,
        {
            let ghost earlier = texts_of(logins@);
            logins.push(self.member_logins[i].clone());
            assert(texts_of(logins@) =~= earlier.push(texts_of(self.member_logins@)[i as int]));
            i = i + 1;
        }
        assert(texts_of(logins@) =~= texts_of(self.member_logins@));
        logins
    }

    /// Takes in the directory as fetched at `now`: the hashtags and the
    /// users replace those held.
    pub fn update(&mut self, now: Timestamp, hashtags: Vec<String>, users: Vec<bonusly::User>)
        requires
            now.valid(),
        ensures
            final(self)@ == old(self)@.refreshed(now@, texts_of(hashtags@), directory_of(users@)),
            old(self).wf() ==> final(self).wf(),
    {
        self.last_update = now;
        self.hashtags = hashtags;
        self.bonusly_users = users;
    }

    /// Whether the directory is due for a refresh at `now`.
    pub fn is_stale_at(&self, now: &Timestamp, config: &Config) -> (stale: bool)
        requires
            self.last_update.valid(),
            now.valid(),
        ensures
            stale == self@.stale_at(now@, config.state_update_interval as int),
    {
        match self.last_update.plus_secs(config.state_update_interval) {
            Some(due) => due.at_or_before(now),
            None => config.state_update_interval < 0,
        }
    }

    /// Reads the clock and says whether the directory is due for a refresh at
    /// that instant, which is returned too.
    pub fn maybe_update(&self, config: &Config) -> (r: (Timestamp, bool))
        requires
            self.last_update.valid(),
        ensures
            r.0.valid(),
            r.1 == self@.stale_at(r.0@, config.state_update_interval as int),
    {
        let now = utc_now();
        let stale = self.is_stale_at(&now, config);
        (now, stale)
    }
}

} // verus!
