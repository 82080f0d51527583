//! Who makes a request.

use crate::model::user::{User, UserView};
use crate::text::text_of;
use vstd::prelude::*;

verus! {

/// Who makes a request: a guest, or a user who has authenticated.
#[derive(Debug, Clone, PartialEq, Eq)]
pub enum AuthenticationState {
    Guest,
    User(User),
}

/// The view of an optional user.
pub open spec fn user_of(user: Option<User>) -> Option<UserView> {
    match user {
        Some(u) => Some(u@),
        None => None,
    }
}

impl AuthenticationState {
    /// The user who has authenticated, as a view. `None` for a guest.
    pub open spec fn user_view(self) -> Option<UserView> {
        match self {
            AuthenticationState::User(user) => Some(user@),
            AuthenticationState::Guest => None,
        }
    }

    /// The identifier of the user who has authenticated, as a sequence of
    /// characters. `None` for a guest.
    pub open spec fn user_id_view(self) -> Option<Seq<char>> {
        match self {
            AuthenticationState::User(user) => Some(user.id@),
            AuthenticationState::Guest => None,
        }
    }

    /// The user who has authenticated. `None` for a guest.
    pub fn user(&self) -> (user: Option<User>)
        ensures
            user_of(user) == self.user_view(),
    {
        match self {
            AuthenticationState::User(user) => Some(user.duplicate()),
            _ => None,
        }
    }

    /// The identifier of the user who has authenticated. `None` for a guest.
    pub fn user_id(&self) -> (id: Option<String>)
        ensures
            text_of(id) == self.user_id_view(),
    {
        match self {
            AuthenticationState::User(user) => Some(user.id.clone()),
            _ => None,
        }
    }
}

} // verus!
