//! Users.

use crate::database::query::{optional_instant_column, optional_text_column, text_column, ColumnView, Row};
use crate::error::Error;
use crate::text::{copy_text, text_of};
use crate::util::Timestamp;
use vstd::prelude::*;

verus! {

/// Name of the table that holds the users.
pub const USER_TABLE: &'static str = "user";

/// A user of the service.
#[derive(Debug, Clone, PartialEq, Eq)]
pub struct User {
    pub id: String,
    pub username: String,
    /// The hash of the user's password.
    pub password: String,
    pub email: Option<String>,
    pub role: String,
    pub created_at: Option<Timestamp>,
    pub updated_at: Option<Timestamp>,
}

/// What a user holds, with its texts as sequences of characters.
pub struct UserView {
    pub id: Seq<char>,
    pub username: Seq<char>,
    pub password: Seq<char>,
    pub email: Option<Seq<char>>,
    pub role: Seq<char>,
    pub created_at: Option<Timestamp>,
    pub updated_at: Option<Timestamp>,
}

impl View for User {
    type V = UserView;

    open spec fn view(&self) -> UserView {
        UserView {
            id: self.id@,
            username: self.username@,
            password: self.password@,
            email: text_of(self.email),
            role: self.role@,
            created_at: self.created_at,
            updated_at: self.updated_at,
        }
    }
}

impl Default for User {
    fn default() -> (user: User)
        ensures
            user@ == (UserView {
                id: Seq::empty(),
                username: Seq::empty(),
                password: Seq::empty(),
                email: None,
                role: Seq::empty(),
                created_at: None,
                updated_at: None,
            }),
    {
        User {
            id: String::new(),
            username: String::new(),
            password: String::new(),
            email: None,
            role: String::new(),
            created_at: None,
            updated_at: None,
        }
    }
}

/// Whether a row holds every column of a user, each of the type the user
/// needs.
pub open spec fn user_decodes(row: Seq<ColumnView>) -> bool {
    &&& text_column(row, "id"@) is Ok
    &&& text_column(row, "username"@) is Ok
    &&& text_column(row, "password"@) is Ok
    &&& optional_text_column(row, "email"@) is Ok
    &&& text_column(row, "role"@) is Ok
    &&& optional_instant_column(row, "created_at"@) is Ok
    &&& optional_instant_column(row, "updated_at"@) is Ok
}

/// The user that a row holds, column by column.
pub open spec fn user_in(row: Seq<ColumnView>) -> UserView
    recommends
        user_decodes(row),
{
    UserView {
        id: text_column(row, "id"@)->Ok_0,
        username: text_column(row, "username"@)->Ok_0,
        password: text_column(row, "password"@)->Ok_0,
        email: optional_text_column(row, "email"@)->Ok_0,
        role: text_column(row, "role"@)->Ok_0,
        created_at: optional_instant_column(row, "created_at"@)->Ok_0,
        updated_at: optional_instant_column(row, "updated_at"@)->Ok_0,
    }
}

impl User {
    /// A copy of this user.
    pub fn duplicate(&self) -> (user: User)
        ensures
            user@ == self@,
    {
        User {
            id: self.id.clone(),
            username: self.username.clone(),
            password: self.password.clone(),
            email: copy_text(&self.email),
            role: self.role.clone(),
            created_at: self.created_at,
            updated_at: self.updated_at,
        }
    }

    /// The user that a stored row holds. Fails, with a decode failure,
    /// exactly where the row lacks a column of a user or holds one under
    /// another type.
    pub fn from_row(row: &Row) -> (made: Result<User, Error>)
        ensures
            made is Ok <==> user_decodes(row@),
            made is Ok ==> made->Ok_0@ == user_in(row@),
            made is Err ==> made->Err_0 == Error::DecodeFailure,
    {
        let id = row.text("id");
        let username = row.text("username");
        let password = row.text("password");
        let email = row.optional_text("email");
        let role = row.text("role");
        let created_at = row.optional_instant("created_at");
        let updated_at = row.optional_instant("updated_at");
        match (id, username, password, email, role, created_at, updated_at) {
            (
                Ok(id),
                Ok(username),
                Ok(password),
                Ok(email),
                Ok(role),
                Ok(created_at),
                Ok(updated_at),
            ) => Ok(User { id, username, password, email, role, created_at, updated_at }),
            _ => Err(Error::DecodeFailure),
        }
    }
}

} // verus!
