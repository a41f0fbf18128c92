//! The settings the daemon runs with, and the matching of an approver to an
//! account on the rewards platform.

use vstd::prelude::*;
use crate::api;
use crate::bonusly;
use crate::bonusly::directory_of;
use crate::github;
use crate::github::opt_text;
use crate::text::{ends_with, has_prefix, has_suffix, replace_all, replaced, starts_with};

verus! {

/// Seconds in a minute.
pub const SECONDS_PER_MINUTE: u64 = 60;

/// Seconds in a day.
pub const SECONDS_PER_DAY: i64 = 86_400;

/// The most days that a refresh interval can span.
pub const MAX_UPDATE_DAYS: i64 = 106_751_991_167;

/// The end of every address of the organization.
pub open spec fn org_domain() -> Seq<char> {
    "@starry.com"@
}

/// Pairs of a given name and the short form that may stand for it in a
/// profile, in the order in which they are tried.
pub open spec fn name_aliases() -> Seq<(Seq<char>, Seq<char>)> {
    seq![("Matthew"@, "Matt"@)]
}

/// The ways in which a profile's name can point to a directory entry, in
/// falling precedence.
#[derive(Debug, PartialEq, Eq, Clone, Copy)]
pub enum NameRule {
    /// The name is the entry's full name or its display name.
    Exact,
    /// The name begins with the entry's full name, which is not empty.
    Prefix,
    /// The name is the entry's full name with an alias put in.
    Alias,
}

/// Whether `name` points to `user` by `rule`.
pub open spec fn rule_matches(rule: NameRule, user: bonusly::UserView, name: Seq<char>) -> bool {
    match rule {
        NameRule::Exact => user.full_name == name || user.display_name == name,
        NameRule::Prefix => user.full_name.len() > 0 && has_prefix(name, user.full_name),
        NameRule::Alias => exists|k: int|
            0 <= k < name_aliases().len() && #[trigger] replaced(
                user.full_name,
                name_aliases()[k].0,
                name_aliases()[k].1,
            ) == name,
    }
}

/// Entry `i` is the first of `directory` that `name` points to by `rule`.
pub open spec fn is_first_match(
    rule: NameRule,
    directory: Seq<bonusly::UserView>,
    name: Seq<char>,
    i: int,
) -> bool {
    &&& 0 <= i < directory.len()
    &&& rule_matches(rule, directory[i], name)
    &&& forall|j: int| 0 <= j < i ==> !rule_matches(rule, #[trigger] directory[j], name)
}

/// The address of the first entry that `name` points to by `rule`.
pub open spec fn by_rule(rule: NameRule, directory: Seq<bonusly::UserView>, name: Seq<char>)
    -> Option<Seq<char>> {
    if exists|i: int| is_first_match(rule, directory, name, i) {
        Some(directory[choose|i: int| is_first_match(rule, directory, name, i)].email)
    } else {
        None
    }
}

/// The address that `name` leads to: by an exact match where there is one,
/// else by a prefix match, else by an alias.
pub open spec fn by_name(directory: Seq<bonusly::UserView>, name: Seq<char>) -> Option<Seq<char>> {
    if by_rule(NameRule::Exact, directory, name) is Some {
        by_rule(NameRule::Exact, directory, name)
    } else if by_rule(NameRule::Prefix, directory, name) is Some {
        by_rule(NameRule::Prefix, directory, name)
    } else {
        by_rule(NameRule::Alias, directory, name)
    }
}

/// The address on the rewards platform of the approver with `profile`.
///
/// A forced address wins. Else an address of the profile in the
/// organization's domain is taken as it is. Else the profile's name, where it
/// has one that is not empty, is looked up in the directory.
pub open spec fn resolve(
    overrides: Map<Seq<char>, Seq<char>>,
    profile: github::UserView,
    directory: Seq<bonusly::UserView>,
) -> Option<Seq<char>> {
    if overrides.contains_key(profile.login) {
        Some(overrides[profile.login])
    } else if profile.email is Some && has_suffix(profile.email->0, org_domain()) {
        profile.email
    } else if profile.name is Some && profile.name->0.len() > 0 {
        by_name(directory, profile.name->0)
    } else {
        None
    }
}

/// The alias pairs, as text.
fn alias_table() -> (table: Vec<(&'static str, &'static str)>)
    ensures
        table@.len() == name_aliases().len(),
        forall|k: int|
            0 <= k < table@.len() ==> (#[trigger] table@[k]).0@ == name_aliases()[k].0
                && table@[k].1@ == name_aliases()[k].1 && table@[k].0@.len() > 0,
{
    proof {
        reveal_strlit("Matthew");
    }
    vec![("Matthew", "Matt")]
}

/// Whether `name` points to `user` by `rule`.
fn matches_by(rule: NameRule, user: &bonusly::User, name: &String) -> (b: bool)
    ensures
        b == rule_matches(rule, user@, name@),
{
    match rule {
        NameRule::Exact => user.full_name == *name || user.display_name == *name,
        NameRule::Prefix => !user.full_name.as_str().is_empty() && starts_with(
            name.as_str(),
            user.full_name.as_str(),
        ),
        NameRule::Alias => {
            let table = alias_table();
            let mut k: usize = 0;
            while k < table.len()
                invariant
                    rule == NameRule::Alias,
                    k <= table@.len(),
                    table@.len() == name_aliases().len(),
                    forall|i: int|
                        0 <= i < table@.len() ==> (#[trigger] table@[i]).0@ == name_aliases()[i].0
                            && table@[i].1@ == name_aliases()[i].1 && table@[i].0@.len() > 0,
                    forall|i: int|
                        0 <= i < k ==> #[trigger] replaced(
                            user@.full_name,
                            name_aliases()[i].0,
                            name_aliases()[i].1,
                        ) != name@,
                decreases table@.len() - k,
            {
                let pair = table[k];
                let replaced_name = replace_all(user.full_name.as_str(), pair.0, pair.1);
                if replaced_name == *name {
                    assert(replaced(
                        user@.full_name,
                        name_aliases()[k as int].0,
                        name_aliases()[k as int].1,
                    ) == name@);
                    return true;
                }
                k = k + 1;
            }
            false
        },
    }
}

/// The address of the first of `users` that `name` points to by `rule`.
fn find_by(rule: NameRule, users: &[bonusly::User], name: &String) -> (r: Option<String>)
    ensures
        opt_text(r) == by_rule(rule, directory_of(users@), name@),
{
    let ghost directory = directory_of(users@);
    let mut i: usize = 0;
    while i < users.len()
        invariant
            i <= users@.len(),
            directory == directory_of(users@),
            forall|j: int| 0 <= j < i ==> !rule_matches(rule, #[trigger] directory[j], name@),
        decreases users@.len() - i,
    {
        if matches_by(rule, &users[i], name) {
            assert(is_first_match(rule, directory, name@, i as int));
            return Some(users[i].email.clone());
        }
        i = i + 1;
    }
    None
}

/// The settings the daemon runs with. Intervals are in seconds.
pub struct Config {
    pub path: String,
    pub github: github::Config,
    pub cherries_per_check: usize,
    pub state_path: String,
    pub credentials_path: String,
    pub pr_check_interval: u64,
    pub state_update_interval: i64,
    pub send_bonus_interval: u64,
    pub notify_send_user: Option<String>,
}

impl Config {
    /// The settings that the file at `path` gives, with its intervals in
    /// seconds. `state_path` and `credentials_path` are the file's two paths
    /// as seen from the directory of `path`.
    pub fn from_path(path: String, state_path: String, credentials_path: String, file: api::Config)
        -> (config: Config)
        requires
            file.pr_check_minutes * SECONDS_PER_MINUTE <= u64::MAX,
            -MAX_UPDATE_DAYS <= file.state_update_days <= MAX_UPDATE_DAYS,
        ensures
            config.path == path,
            config.state_path == state_path,
            config.credentials_path == credentials_path,
            config.github == file.github,
            config.cherries_per_check == file.cherries_per_check,
            config.pr_check_interval == file.pr_check_minutes * 60,
            config.state_update_interval == file.state_update_days * 86_400,
            config.send_bonus_interval == file.send_bonus_delay_seconds,
            config.notify_send_user == file.notify_send_user,
    {
        Config {
            path,
            github: file.github,
            cherries_per_check: file.cherries_per_check,
            state_path,
            credentials_path,
            pr_check_interval: file.pr_check_minutes * SECONDS_PER_MINUTE,
            state_update_interval: file.state_update_days * SECONDS_PER_DAY,
            send_bonus_interval: file.send_bonus_delay_seconds,
            notify_send_user: file.notify_send_user,
        }
    }

    /// Finds the address on the rewards platform of the approver `find`,
    /// given the platform's `users`.
    pub fn find_bonusly_email(&self, users: &[bonusly::User], find: &github::User) -> (email:
        Option<String>)
        ensures
            opt_text(email) == resolve(self.github.overrides(), find@, directory_of(users@)),
    {
        match self.github.emails.get(find.login.as_str()) {
            Some(forced) => {
                return Some(forced.clone());
            },
            None => {},
        }
        match &find.email {
            Some(address) => {
                proof {
                    reveal_strlit("@starry.com");
                }
                if ends_with(address.as_str(), "@starry.com") {
                    return Some(address.clone());
                }
            },
            None => {},
        }
        match &find.name {
            Some(name) => {
                if name.as_str().is_empty() {
                    return None;
                }
                let exact = find_by(NameRule::Exact, users, name);
                if exact.is_some() {
                    return exact;
                }
                let prefix = find_by(NameRule::Prefix, users, name);
                if prefix.is_some() {
                    return prefix;
                }
                find_by(NameRule::Alias, users, name)
            },
            None => None,
        }
    }
}

} // verus!
