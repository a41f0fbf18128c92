//! What the rewards platform reports and accepts, as plain values.

use vstd::prelude::*;

verus! {

/// How many users one page of the user list holds when it is full.
pub const LIMIT: usize = 100;

/// The answer of the rewards platform: a flag, and either a result or a
/// message. The flag does not tell the two apart reliably; `data` does.
#[derive(Debug)]
pub struct BonuslyResult<T> {
    pub success: bool,
    pub data: BonuslyResultInner<T>,
}

/// Either the result asked for, or the platform's complaint.
#[derive(Debug)]
pub enum BonuslyResultInner<T> {
    Success { result: T },
    Failure { message: String },
}

impl<T> BonuslyResult<T> {
    /// The result where there is one, else the message; the flag is not
    /// consulted.
    pub fn into_result(self) -> (r: Result<T, String>)
        ensures
            self.data matches BonuslyResultInner::Success { result } ==> r == Ok::<T, String>(result),
            self.data matches BonuslyResultInner::Failure { message } ==> r == Err::<T, String>(
                message,
            ),
    {
        match self.data {
            BonuslyResultInner::Success { result } => Ok(result),
            BonuslyResultInner::Failure { message } => Err(message),
        }
    }
}

/// An account on the rewards platform.
#[derive(Debug, PartialEq, Eq)]
pub struct User {
    pub id: String,
    pub short_name: String,
    pub full_name: String,
    pub display_name: String,
    pub first_name: String,
    pub last_name: String,
    pub email: String,
    pub can_receive: bool,
}

/// What a [`User`] holds.
pub struct UserView {
    pub id: Seq<char>,
    pub short_name: Seq<char>,
    pub full_name: Seq<char>,
    pub display_name: Seq<char>,
    pub first_name: Seq<char>,
    pub last_name: Seq<char>,
    pub email: Seq<char>,
    pub can_receive: bool,
}

impl View for User {
    type V = UserView;

    open spec fn view(&self) -> UserView {
        UserView {
            id: self.id@,
            short_name: self.short_name@,
            full_name: self.full_name@,
            display_name: self.display_name@,
            first_name: self.first_name@,
            last_name: self.last_name@,
            email: self.email@,
            can_receive: self.can_receive,
        }
    }
}

impl Clone for User {
    fn clone(&self) -> (r: Self)
        ensures
            r@ == self@,
    {
        User {
            id: self.id.clone(),
            short_name: self.short_name.clone(),
            full_name: self.full_name.clone(),
            display_name: self.display_name.clone(),
            first_name: self.first_name.clone(),
            last_name: self.last_name.clone(),
            email: self.email.clone(),
            can_receive: self.can_receive,
        }
    }
}

/// The users in `users`, each by what it holds.
pub open spec fn directory_of(users: Seq<User>) -> Seq<UserView> {
    Seq::new(users.len(), |i: int| users[i]@)
}

/// A company on the rewards platform, with the hashtags it accepts.
#[derive(Debug, PartialEq, Eq)]
pub struct Company {
    pub company_hashtags: Vec<String>,
}

/// A reward to send.
#[derive(Debug, PartialEq, Eq)]
pub struct Bonus {
    pub giver_email: String,
    pub receiver_email: String,
    pub amount: usize,
    /// With its leading `#`.
    pub hashtag: String,
    pub reason: String,
}

/// What a [`Bonus`] holds.
pub struct BonusView {
    pub giver_email: Seq<char>,
    pub receiver_email: Seq<char>,
    pub amount: int,
    pub hashtag: Seq<char>,
    pub reason: Seq<char>,
}

impl View for Bonus {
    type V = BonusView;

    open spec fn view(&self) -> BonusView {
        BonusView {
            giver_email: self.giver_email@,
            receiver_email: self.receiver_email@,
            amount: self.amount as int,
            hashtag: self.hashtag@,
            reason: self.reason@,
        }
    }
}

impl Clone for Bonus {
    fn clone(&self) -> (r: Self)
        ensures
            r@ == self@,
    {
        Bonus {
            giver_email: self.giver_email.clone(),
            receiver_email: self.receiver_email.clone(),
            amount: self.amount,
            hashtag: self.hashtag.clone(),
            reason: self.reason.clone(),
        }
    }
}

/// The platform's record of a reward that it created.
#[derive(Debug, PartialEq, Eq)]
pub struct BonusReply {
    pub id: String,
    pub created_at: String,
    pub reason: String,
}

/// The user list while it is fetched page by page: how many users to skip
/// in the next request, and the users gathered so far.
#[derive(Debug)]
pub struct UserPages {
    pub skip: usize,
    pub users: Vec<User>,
}

impl UserPages {
    /// Nothing fetched yet.
    pub fn new() -> (pages: UserPages)
        ensures
            pages.skip == 0,
            pages.users@ == Seq::<User>::empty(),
    {
        UserPages { skip: 0, users: Vec::new() }
    }

    /// Takes in the page that was fetched with `skip` users skipped, and
    /// says whether it was the last: a page shorter than [`LIMIT`] ends the
    /// list.
    pub fn list_users(&mut self, page: Vec<User>) -> (done: bool)
        requires
            old(self).skip + page.len() <= usize::MAX,
        ensures
            done == (page.len() < LIMIT),
            final(self).skip == old(self).skip + page.len(),
            final(self).users@ == old(self).users@ + page@,
    {
        let mut page = page;
        let done = page.len() < LIMIT;
        self.skip = self.skip + page.len();
        self.users.append(&mut page);
        done
    }
}

} // verus!
