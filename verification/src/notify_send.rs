//! Desktop notifications by way of `notify-send`: which command to run.

use vstd::prelude::*;
use vstd::string::StringExecFns;

verus! {

/// A notification for the desktop of `user`, or of whoever runs the daemon
/// where no user is named.
#[derive(Debug, PartialEq, Eq)]
pub struct Notification {
    pub title: String,
    pub message: String,
    pub user: Option<String>,
}

/// A command to run: the program, its arguments, and the variables to set
/// in its environment.
#[derive(Debug, PartialEq, Eq)]
pub struct Invocation {
    pub program: String,
    pub args: Vec<String>,
    pub envs: Vec<(String, String)>,
}

/// What an [`Invocation`] holds.
pub struct InvocationView {
    pub program: Seq<char>,
    pub args: Seq<Seq<char>>,
    pub envs: Seq<(Seq<char>, Seq<char>)>,
}

impl View for Invocation {
    type V = InvocationView;

    open spec fn view(&self) -> InvocationView {
        InvocationView {
            program: self.program@,
            args: Seq::new(self.args@.len(), |i: int| self.args@[i]@),
            envs: Seq::new(self.envs@.len(), |i: int| (self.envs@[i].0@, self.envs@[i].1@)),
        }
    }
}

/// The address of the session bus of the user with the number `uid`.
pub open spec fn bus_address(uid: Seq<char>) -> Seq<char> {
    "unix:path=/run/user/"@ + uid + "/bus"@
}

/// The command that asks for the number of `user`.
pub open spec fn uid_query(user: Seq<char>) -> InvocationView {
    InvocationView { program: "id"@, args: seq!["-u"@, user], envs: Seq::empty() }
}

/// The command that notifies `user`, whose number is `uid`, on the first
/// display; or whoever runs the daemon, where no user is named.
pub open spec fn notify_command(user: Option<Seq<char>>, uid: Seq<char>) -> InvocationView {
    match user {
        Some(name) => InvocationView {
            program: "sudo"@,
            args: seq![
                "-u"@,
                name,
                "--preserve-env=DISPLAY,DBUS_SESSION_BUS_ADDRESS"@,
                "notify-send"@,
            ],
            envs: seq![("DISPLAY"@, ":0"@), ("DBUS_SESSION_BUS_ADDRESS"@, bus_address(uid))],
        },
        None => InvocationView { program: "notify-send"@, args: Seq::empty(), envs: Seq::empty() },
    }
}

impl Notification {
    /// The user named, as text.
    pub open spec fn user_text(&self) -> Option<Seq<char>> {
        match self.user {
            Some(name) => Some(name@),
            None => None,
        }
    }

    /// The command whose output is the number of the user to notify; `None`
    /// where no user is named.
    pub fn uid_command(&self) -> (r: Option<Invocation>)
        ensures
            r is Some <==> self.user is Some,
            r matches Some(command) ==> command@ == uid_query(self.user->0@),
    {
        match &self.user {
            Some(name) => {
                let command = Invocation {
                    program: String::from_str("id"),
                    args: vec![String::from_str("-u"), name.clone()],
                    envs: Vec::new(),
                };
                assert(command@.args =~= seq!["-u"@, name@]);
                assert(command@.envs =~= Seq::empty());
                Some(command)
            },
            None => None,
        }
    }

    /// The command that shows the notification, where `uid` is the number of
    /// the user named. Without a user `uid` is not looked at.
    pub fn send(&self, uid: &str) -> (command: Invocation)
        ensures
            command@ == notify_command(self.user_text(), uid@),
    {
        match &self.user {
            Some(name) => {
                let bus = String::from_str("unix:path=/run/user/").concat(uid).concat("/bus");
                let command = Invocation {
                    program: String::from_str("sudo"),
                    args: vec![
                        String::from_str("-u"),
                        name.clone(),
                        String::from_str("--preserve-env=DISPLAY,DBUS_SESSION_BUS_ADDRESS"),
                        String::from_str("notify-send"),
                    ],
                    envs: vec![
                        (String::from_str("DISPLAY"), String::from_str(":0")),
                        (String::from_str("DBUS_SESSION_BUS_ADDRESS"), bus),
                    ],
                };
                assert(command@.args =~= notify_command(self.user_text(), uid@).args);
                assert(command@.envs =~= notify_command(self.user_text(), uid@).envs);
                command
            },
            None => {
                let command = Invocation {
                    program: String::from_str("notify-send"),
                    args: Vec::new(),
                    envs: Vec::new(),
                };
                assert(command@.args =~= Seq::empty());
                assert(command@.envs =~= Seq::empty());
                command
            },
        }
    }
}

} // verus!
