//! Users, thread ids and the modes of anonymity.

use vstd::prelude::*;

verus! {

/// The identifier of a thread, as its owner sees it.
pub type ThreadId = String;

/// How much each side of a conversation learns about the other.
#[derive(Debug, Clone, Copy, PartialEq, Eq, Structural)]
pub enum ThreadAnonimityMode {
    /// The owner of the thread is visible to the peer; the peer stays hidden.
    Me,
    /// The peer is visible to the owner; the owner stays hidden.
    Them,
    /// Neither side is identified.
    Both,
}

impl ThreadAnonimityMode {
    /// The mode that the peer's half of the same conversation carries.
    pub open spec fn spec_mirror(self) -> ThreadAnonimityMode {
        match self {
            ThreadAnonimityMode::Me => ThreadAnonimityMode::Them,
            ThreadAnonimityMode::Them => ThreadAnonimityMode::Me,
            ThreadAnonimityMode::Both => ThreadAnonimityMode::Both,
        }
    }

    /// The mode that the peer's half of the same conversation carries.
    #[verifier::when_used_as_spec(spec_mirror)]
    pub fn mirror(self) -> (m: ThreadAnonimityMode)
        ensures
            m == self.spec_mirror(),
    {
        match self {
            ThreadAnonimityMode::Me => ThreadAnonimityMode::Them,
            ThreadAnonimityMode::Them => ThreadAnonimityMode::Me,
            ThreadAnonimityMode::Both => ThreadAnonimityMode::Both,
        }
    }
}

/// A user of the service. The login is the only key used for routing.
#[derive(Debug, PartialEq, Eq)]
pub struct User {
    pub login: String,
    pub first_name: String,
    pub last_name: Option<String>,
}

/// The mathematical value of a [`User`].
pub struct UserView {
    pub login: Seq<char>,
    pub first_name: Seq<char>,
    pub last_name: Option<Seq<char>>,
}

/// The text of an optional string.
pub open spec fn option_text(s: Option<String>) -> Option<Seq<char>> {
    match s {
        Some(t) => Some(t@),
        None => None,
    }
}

impl View for User {
    type V = UserView;

    open spec fn view(&self) -> UserView {
        UserView {
            login: self.login@,
            first_name: self.first_name@,
            last_name: option_text(self.last_name),
        }
    }
}

impl Clone for User {
    fn clone(&self) -> (res: Self)
        ensures
            res == *self,
    {
        let last_name = match &self.last_name {
            Some(name) => Some(name.clone()),
            None => None,
        };
        User { login: self.login.clone(), first_name: self.first_name.clone(), last_name }
    }
}

/// What the transport knows of the sender of a message.
#[derive(Debug, Clone, PartialEq, Eq)]
pub struct Sender {
    pub username: Option<String>,
    pub first_name: String,
    pub last_name: Option<String>,
}

/// Why a sender cannot use the service.
#[derive(Debug, Clone, Copy, PartialEq, Eq, Structural)]
pub enum UserError {
    /// The sender has no username, so nothing to be addressed by.
    NoUsername,
}

impl UserError {
    /// The text shown for this error.
    pub fn message(&self) -> (text: String)
        ensures
            text@ == "user has no username"@,
    {
        crate::text::owned("user has no username")
    }
}

impl User {
    /// The user that a sender is: its username is the login.
    pub fn try_from(sender: &Sender) -> (result: Result<User, UserError>)
        ensures
            match result {
                Ok(user) => sender.username is Some && user@ == (UserView {
                    login: sender.username->0@,
                    first_name: sender.first_name@,
                    last_name: option_text(sender.last_name),
                }),
                Err(error) => sender.username is None,
            },
    {
        match &sender.username {
            None => Err(UserError::NoUsername),
            Some(username) => {
                let last_name = match &sender.last_name {
                    Some(name) => Some(name.clone()),
                    None => None,
                };
                Ok(User { login: username.clone(), first_name: sender.first_name.clone(), last_name })
            },
        }
    }
}

} // verus!
