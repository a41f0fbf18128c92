//! What holds of the state over any run of the daemon, and of the matching
//! of approvers to accounts.

use vstd::prelude::*;
use crate::bonusly;
use crate::bonusly::directory_of;
use crate::config::resolve;
use crate::github;
use crate::github::{PairView, ReviewKey};
use crate::program::{
    bonus_due, classified, discovered, distinct, is_new_approval, is_not_of,
    lemma_merged_contains, lemma_merged_distinct, lemma_scanned_distinct, offered, replied_to,
    scanned_all, CandidateView, ScannedView, StatusView, Terms,
};
use crate::state::{cached, keys_of, pairs_of, texts_of, State, StateView};

verus! {

/// One thing that happens to the state.
pub enum Step {
    /// A candidate was classified, from a profile and with a hashtag.
    Classified(Terms, CandidateView, github::UserView, int),
    /// A status was acted on; the flag says whether a reward went out.
    Replied(StatusView, bool),
    /// A profile was cached under a login.
    Remembered(Seq<char>, github::UserView),
    /// The directory was fetched anew at an instant.
    Refreshed(int, Seq<Seq<char>>, Seq<bonusly::UserView>),
    /// A cycle ended at an instant.
    Advanced(int),
}

/// The state after `step`.
pub open spec fn stepped(s: StateView, step: Step) -> StateView {
    match step {
        Step::Classified(terms, candidate, profile, pick) => classified(
            s,
            terms,
            candidate,
            profile,
            pick,
        ).0,
        Step::Replied(status, sent) => replied_to(s, status, sent),
        Step::Remembered(login, user) => s.remembering(login, user),
        Step::Refreshed(now, hashtags, directory) => s.refreshed(now, hashtags, directory),
        Step::Advanced(now) => s.advanced(now),
    }
}

/// The state after `steps`, taken in order.
pub open spec fn run(s: StateView, steps: Seq<Step>) -> StateView
    decreases steps.len(),
{
    if steps.len() == 0 {
        s
    } else {
        stepped(run(s, steps.drop_last()), steps.last())
    }
}

/// A well-formed state records no pair twice, and lets no review wait whose
/// pair it records.
pub proof fn law_recorded_once(s: State)
    requires
        s.wf(),
    ensures
        forall|i: int, j: int|
            0 <= i < j < s.replied_prs@.len() ==> (#[trigger] s.replied_prs@[i])@
                != (#[trigger] s.replied_prs@[j])@,
        forall|i: int, j: int|
            0 <= i < s.non_replied_prs@.len() && 0 <= j < s.replied_prs@.len() ==> (
            #[trigger] s.non_replied_prs@[i])@.pair() != (#[trigger] s.replied_prs@[j])@,
{
    let pairs = pairs_of(s.replied_prs@);
    let keys = keys_of(s.non_replied_prs@);
    assert forall|i: int, j: int| 0 <= i < j < s.replied_prs@.len() implies (
    #[trigger] s.replied_prs@[i])@ != (#[trigger] s.replied_prs@[j])@ by {
        assert(pairs[i] != pairs[j]);
    }
    assert forall|i: int, j: int|
        0 <= i < s.non_replied_prs@.len() && 0 <= j < s.replied_prs@.len() implies (
    #[trigger] s.non_replied_prs@[i])@.pair() != (#[trigger] s.replied_prs@[j])@ by {
        assert(s@.pending.contains(keys[i]));
        assert(pairs[j] == s.replied_prs@[j]@);
    }
}

/// No step lets a review wait whose pair has been rewarded, and no step
/// takes a reward back.
pub proof fn law_step_keeps_rewards(s: StateView, step: Step)
    requires
        s.coherent(),
    ensures
        stepped(s, step).coherent(),
        s.replied.subset_of(stepped(s, step).replied),
{
}

/// Over any run, a pair once rewarded stays rewarded, and no review of it
/// waits afterwards, whatever its number.
pub proof fn law_at_most_once(s: StateView, steps: Seq<Step>)
    requires
        s.coherent(),
    ensures
        run(s, steps).coherent(),
        s.replied.subset_of(run(s, steps).replied),
        forall|key: ReviewKey|
            s.replied.contains(key.pair()) ==> !run(s, steps).pending.contains(key),
    decreases steps.len(),
{
    if steps.len() > 0 {
        law_at_most_once(s, steps.drop_last());
        law_step_keeps_rewards(run(s, steps.drop_last()), steps.last());
    }
}

/// No step drops or replaces a cached profile.
pub proof fn law_profiles_are_kept(s: StateView, step: Step, login: Seq<char>)
    requires
        s.members.contains_key(login),
    ensures
        stepped(s, step).members.contains_key(login),
        stepped(s, step).members[login] == s.members[login],
{
}

/// Only a refresh changes the directory and the hashtags, and it replaces
/// both as a whole.
pub proof fn law_directory_is_replaced_whole(s: StateView, step: Step)
    ensures
        !(step is Refreshed) ==> stepped(s, step).directory == s.directory && stepped(
            s,
            step,
        ).hashtags == s.hashtags,
        step matches Step::Refreshed(now, hashtags, directory) ==> stepped(s, step).directory
            == directory && stepped(s, step).hashtags == hashtags && stepped(s, step).last_update
            == now,
{
}

/// The profiles of a well-formed state, each with its login, in the order
/// in which they were cached.
pub open spec fn profiles_in(s: State) -> Seq<(Seq<char>, github::UserView)> {
    Seq::new(
        s.member_logins@.len(),
        |i: int| (s.member_logins@[i]@, s@.members[s.member_logins@[i]@]),
    )
}

/// Caching the first `n` profiles of a well-formed state anew gives the
/// cache of that state, cut down to their logins.
proof fn lemma_cached_prefix(s: State, n: int)
    requires
        s.wf(),
        0 <= n <= s.member_logins@.len(),
    ensures
        cached(profiles_in(s).take(n)).dom() == texts_of(s.member_logins@).take(n).to_set(),
        forall|login: Seq<char>| #[trigger]
            cached(profiles_in(s).take(n)).contains_key(login) ==> cached(
                profiles_in(s).take(n),
            )[login] == s@.members[login],
    decreases n,
{
    let logins = texts_of(s.member_logins@);
    let all = profiles_in(s);
    if n > 0 {
        lemma_cached_prefix(s, n - 1);
        let earlier = logins.take(n - 1);
        let login = logins[n - 1];
        assert(all.take(n).drop_last() =~= all.take(n - 1));
        assert(logins.take(n) =~= earlier.push(login));
        earlier.lemma_push_to_set_commute(login);
        assert(!earlier.contains(login)) by {
            if earlier.contains(login) {
                let j = choose|j: int| 0 <= j < earlier.len() && earlier[j] == login;
                assert(logins[j] == logins[n - 1]);
            }
        }
    }
}

/// A state put together again from the parts of a well-formed state holds
/// the same rewards, the same waiting reviews, the same instants, the same
/// directory, the same profiles and the same hashtags.
pub proof fn law_parts_restore(s: State, restored: State)
    requires
        s.wf(),
        restored.last_update == s.last_update,
        restored.cutoff == s.cutoff,
        restored@.replied == pairs_of(s.replied_prs@).to_set(),
        restored@.pending == Set::new(
            |key: ReviewKey|
                keys_of(s.non_replied_prs@).contains(key) && !pairs_of(
                    s.replied_prs@,
                ).to_set().contains(key.pair()),
        ),
        restored@.directory == directory_of(s.bonusly_users@),
        restored@.hashtags == texts_of(s.hashtags@),
        restored@.members == cached(profiles_in(s)),
    ensures
        restored@ == s@,
{
    assert(restored@.pending =~= s@.pending);
    lemma_cached_prefix(s, s.member_logins@.len() as int);
    assert(profiles_in(s).take(s.member_logins@.len() as int) =~= profiles_in(s));
    assert(texts_of(s.member_logins@).take(s.member_logins@.len() as int) =~= texts_of(
        s.member_logins@,
    ));
    assert(restored@.members =~= s@.members);
}

/// Whatever the review platform lists, the scan offers only approvals, and
/// none by an approver who has been rewarded for the pull request, whatever
/// the number of the review.
pub proof fn law_scan_skips_rewarded(
    replied: Set<PairView>,
    scanned: Seq<ScannedView>,
    candidate: CandidateView,
)
    requires
        scanned_all(replied, scanned).contains(candidate),
    ensures
        candidate.review.approved(),
        !replied.contains(candidate.key().pair()),
    decreases scanned.len(),
{
    if scanned.len() > 0 {
        let before = scanned_all(replied, scanned.drop_last());
        let last = scanned.last();
        let fresh = offered(last.pr, last.reviews).filter(is_new_approval(replied));
        if fresh.len() == 0 {
            law_scan_skips_rewarded(replied, scanned.drop_last(), candidate);
        } else {
            let kept = before.filter(is_not_of(last.pr));
            lemma_merged_contains(kept, fresh, candidate);
            if kept.contains(candidate) {
                before.lemma_filter_contains_rev(is_not_of(last.pr), candidate);
                law_scan_skips_rewarded(replied, scanned.drop_last(), candidate);
            } else {
                let i = choose|i: int| 0 <= i < fresh.len() && fresh[i] == candidate;
                offered(last.pr, last.reviews).lemma_filter_pred(is_new_approval(replied), i);
            }
        }
    }
}

/// A review stands once among the candidates of a cycle, however often the
/// scan lists it and whether or not it also waits and is fetched again.
pub proof fn law_candidates_stand_once(
    replied: Set<PairView>,
    scanned: Seq<ScannedView>,
    retried: Seq<CandidateView>,
)
    ensures
        distinct(discovered(replied, scanned, retried)),
{
    lemma_scanned_distinct(replied, scanned);
    lemma_merged_distinct(scanned_all(replied, scanned), retried);
}

/// A review for which an address is found, and whose pair has not been
/// rewarded, is rewarded once its reward goes out, whatever hashtag is
/// drawn and whenever the cycle ends: one reward is due, to the address
/// found; the pair is then recorded, nothing of it waits, and no further
/// reward is due for it.
pub proof fn law_resolved_review_is_rewarded(
    s: StateView,
    terms: Terms,
    candidate: CandidateView,
    profile: github::UserView,
    pick: int,
    now: int,
)
    requires
        resolve(terms.overrides, profile, s.directory) is Some,
        !s.replied.contains(candidate.key().pair()),
    ensures
        ({
            let step = classified(s, terms, candidate, profile, pick);
            let acted = replied_to(step.0, step.1->0, true).advanced(now);
            &&& step.1 is Some
            &&& step.1->0.key() == candidate.key()
            &&& bonus_due(step.0, step.1->0) is Some
            &&& Some(bonus_due(step.0, step.1->0)->0.receiver_email) == resolve(
                terms.overrides,
                profile,
                s.directory,
            )
            &&& bonus_due(step.0, step.1->0)->0.giver_email == terms.giver
            &&& bonus_due(step.0, step.1->0)->0.amount == terms.amount
            &&& acted.replied == s.replied.insert(candidate.key().pair())
            &&& forall|key: ReviewKey|
                key.pair() == candidate.key().pair() ==> !acted.pending.contains(key)
            &&& bonus_due(acted, step.1->0) is None
        }),
{
}

/// For a pair that has been rewarded no reward is due again, and acting on
/// a status of it changes nothing, whether or not a reward went out and
/// whatever the number of the review.
pub proof fn law_no_second_reward(s: StateView, status: StatusView, sent: bool)
    requires
        s.coherent(),
        s.replied.contains(status.key().pair()),
    ensures
        bonus_due(s, status) is None,
        replied_to(s, status, sent) == s,
{
}

/// A review for which no address is found waits when the cycle ends, at
/// whatever instant, unless its pair has been rewarded.
pub proof fn law_pending_persists(
    s: StateView,
    terms: Terms,
    candidate: CandidateView,
    profile: github::UserView,
    pick: int,
    sent: bool,
    now: int,
)
    requires
        resolve(terms.overrides, profile, s.directory) is None,
        !s.replied.contains(candidate.key().pair()),
    ensures
        ({
            let step = classified(s, terms, candidate, profile, pick);
            let acted = match step.1 {
                Some(status) => replied_to(step.0, status, sent),
                None => step.0,
            };
            acted.advanced(now).pending.contains(candidate.key())
        }),
{
}

/// A review whose reward could not be sent waits when the cycle ends, at
/// whatever instant.
pub proof fn law_failed_reward_waits(s: StateView, status: StatusView, now: int)
    requires
        !s.replied.contains(status.key().pair()),
    ensures
        replied_to(s, status, false).advanced(now).pending.contains(status.key()),
{
}

/// A forced address wins over everything that the profile and the
/// directory say.
pub proof fn law_override_wins(
    overrides: Map<Seq<char>, Seq<char>>,
    profile: github::UserView,
    directory: Seq<bonusly::UserView>,
)
    requires
        overrides.contains_key(profile.login),
    ensures
        resolve(overrides, profile, directory) == Some(overrides[profile.login]),
{
}

/// The address found depends on the forced addresses, the profile and the
/// directory alone: the same three give the same address.
pub proof fn law_resolution_repeats(
    overrides: Map<Seq<char>, Seq<char>>,
    profile: github::UserView,
    directory: Seq<bonusly::UserView>,
    overrides_again: Map<Seq<char>, Seq<char>>,
    profile_again: github::UserView,
    directory_again: Seq<bonusly::UserView>,
)
    requires
        overrides == overrides_again,
        profile == profile_again,
        directory == directory_again,
    ensures
        resolve(overrides, profile, directory) == resolve(
            overrides_again,
            profile_again,
            directory_again,
        ),
{
}

/// The watermark moves only when a cycle ends, and then to the instant of
/// its end: it does not fall where the clock has not gone back, and it rises
/// where the clock has gone on.
pub proof fn law_cutoff_monotone(s: StateView, step: Step)
    ensures
        !(step is Advanced) ==> stepped(s, step).cutoff == s.cutoff,
        step matches Step::Advanced(now) ==> stepped(s, step).cutoff == now,
        step matches Step::Advanced(now) ==> (now >= s.cutoff ==> stepped(s, step).cutoff
            >= s.cutoff),
        step matches Step::Advanced(now) ==> (now > s.cutoff ==> stepped(s, step).cutoff
            > s.cutoff),
{
}

} // verus!
