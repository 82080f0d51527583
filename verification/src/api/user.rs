//! Users in requests and responses, the statements that read and write
//! them, and access tokens.

use crate::api::bookmark::{condition, conditioned, filter, filtered};
use crate::api::tag::{replace_text, replaced};
use crate::database::query::{empty_query, list_of, list_query, ColumnView, Query, QueryView, Row};
use crate::database::value::{value_views, Value, ValueView};
use crate::error::Error;
use crate::hash::{hash_password, hashed_with};
use crate::model::user::{user_decodes, user_in, User, UserView, USER_TABLE};
use crate::path::chars_of;
use crate::repo::tagged::row_views;
use crate::text::{copy_text, lowercase, lowercase_of, text_of};
use crate::util::Timestamp;
use vstd::prelude::*;
use vstd::string::{StrSliceExecFns, StringExecFns};

verus! {

/// The request to create a user, and the request for an access token.
#[derive(Debug, Clone, PartialEq, Eq)]
pub struct CreateUserRequest {
    pub username: String,
    pub password: String,
    pub email: Option<String>,
    pub role: Option<String>,
}

/// The request to change a user. A field that is `None` is left as it is.
#[derive(Debug, Clone, PartialEq, Eq)]
pub struct UpdateUserRequest {
    pub username: Option<String>,
    pub password: Option<String>,
    pub email: Option<String>,
    pub role: Option<String>,
}

/// A user as it is sent in a response: without the password.
#[derive(Debug, Clone, PartialEq, Eq)]
pub struct UserResponse {
    pub id: String,
    pub username: String,
    pub email: Option<String>,
    pub role: String,
    pub created_at: Option<Timestamp>,
    pub updated_at: Option<Timestamp>,
}

/// What a response holds, with its texts as sequences of characters.
pub struct UserResponseView {
    pub id: Seq<char>,
    pub username: Seq<char>,
    pub email: Option<Seq<char>>,
    pub role: Seq<char>,
    pub created_at: Option<Timestamp>,
    pub updated_at: Option<Timestamp>,
}

impl View for UserResponse {
    type V = UserResponseView;

    open spec fn view(&self) -> UserResponseView {
        UserResponseView {
            id: self.id@,
            username: self.username@,
            email: text_of(self.email),
            role: self.role@,
            created_at: self.created_at,
            updated_at: self.updated_at,
        }
    }
}

/// The response that shows `user`.
pub open spec fn shown(user: UserView) -> UserResponseView {
    UserResponseView {
        id: user.id,
        username: user.username,
        email: user.email,
        role: user.role,
        created_at: user.created_at,
        updated_at: user.updated_at,
    }
}

impl UserResponse {
    /// The response that shows `user`: every field but the password.
    pub fn from_user(user: User) -> (response: UserResponse)
        ensures
            response@ == shown(user@),
    {
        UserResponse {
            id: user.id,
            username: user.username,
            email: user.email,
            role: user.role,
            created_at: user.created_at,
            updated_at: user.updated_at,
        }
    }
}

/// What to look for among the stored users. A field that is `None` does not
/// restrict the search.
#[derive(Debug, Clone, PartialEq, Eq)]
pub struct SearchUser {
    pub id: Option<String>,
    pub username: Option<String>,
    pub email: Option<String>,
    pub role: Option<String>,
}

impl Default for SearchUser {
    fn default() -> (search: SearchUser)
        ensures
            search.id is None,
            search.username is None,
            search.email is None,
            search.role is None,
    {
        SearchUser { id: None, username: None, email: None, role: None }
    }
}

/// The statement that reads the stored users that a search selects.
pub open spec fn find_statement(
    id: Option<Seq<char>>,
    username: Option<Seq<char>>,
    email: Option<Seq<char>>,
    role: Option<Seq<char>>,
) -> QueryView {
    filtered(
        empty_query().with_piece("SELECT * FROM "@).with_piece("user"@),
        conditioned(
            conditioned(
                conditioned(
                    conditioned(empty_query().with_separator(" AND "@), "id IN (?)"@, id),
                    "username IN (?)"@,
                    username,
                ),
                "email IN (?)"@,
                email,
            ),
            "role IN (?)"@,
            role,
        ),
    )
}

/// The statement that reads the stored users that `search` selects.
pub fn find_users_query(search: &SearchUser) -> (query: Query)
    ensures
        query@ == find_statement(
            text_of(search.id),
            text_of(search.username),
            text_of(search.email),
            text_of(search.role),
        ),
{
    let mut conditions = Query::new();
    conditions.set_separator(" AND ");
    condition(&mut conditions, "id IN (?)", &search.id);
    condition(&mut conditions, "username IN (?)", &search.username);
    condition(&mut conditions, "email IN (?)", &search.email);
    condition(&mut conditions, "role IN (?)", &search.role);
    let mut query = Query::new();
    query.push_str("SELECT * FROM ");
    query.push_str(USER_TABLE);
    filter(query, conditions)
}

/// Whether every one of `rows` holds a user.
pub open spec fn all_decode(rows: Seq<Seq<ColumnView>>) -> bool {
    forall|i: int| 0 <= i < rows.len() ==> user_decodes(#[trigger] rows[i])
}

/// The views of a sequence of users.
pub open spec fn user_views(users: Seq<User>) -> Seq<UserView> {
    users.map_values(|user: User| user@)
}

/// The users that `rows` hold, row by row.
pub open spec fn stored_users(rows: Seq<Seq<ColumnView>>) -> Seq<UserView> {
    rows.map_values(|row: Seq<ColumnView>| user_in(row))
}

/// The users that the rows hold. Fails, with a decode failure, exactly where
/// some row holds none.
pub fn find_users(rows: &Vec<Row>) -> (made: Result<Vec<User>, Error>)
    ensures
        made is Ok <==> all_decode(row_views(rows@)),
        made is Ok ==> user_views(made->Ok_0@) == stored_users(row_views(rows@)),
        made is Err ==> made->Err_0 == Error::DecodeFailure,
{
    let ghost views = row_views(rows@);
    let mut users: Vec<User> = Vec::new();
    let mut i: usize = 0;
    while i < rows.len()
        invariant
            i <= rows.len(),
            views == row_views(rows@),
            users.len() == i,
            forall|k: int| 0 <= k < i ==> user_decodes(#[trigger] views[k]),
            forall|k: int| 0 <= k < i ==> (#[trigger] users@[k])@ == user_in(views[k]),
        decreases rows.len() - i,
    {
        proof {
            assert(views[i as int] == rows@[i as int]@);
        }
        match User::from_row(&rows[i]) {
            Ok(user) => {
                users.push(user);
            },
            Err(e) => {
                return Err(e);
            },
        }
        i = i + 1;
    }
    proof {
        assert(user_views(users@) =~= stored_users(views));
    }
    Ok(users)
}

/// The one user that the rows hold: the last of them. Fails with a decode
/// failure where some row holds no user, and as not found where there is no
/// row.
pub fn find_user_by_id(rows: &Vec<Row>) -> (made: Result<User, Error>)
    ensures
        made is Ok <==> all_decode(row_views(rows@)) && rows@.len() > 0,
        made is Ok ==> made->Ok_0@ == user_in(rows@[rows@.len() - 1]@),
        made is Err ==> made->Err_0 == if all_decode(row_views(rows@)) {
            Error::NotFound
        } else {
            Error::DecodeFailure
        },
{
    let mut users = match find_users(rows) {
        Ok(users) => users,
        Err(e) => {
            return Err(e);
        },
    };
    proof {
        assert(user_views(users@).len() == users@.len());
        assert(stored_users(row_views(rows@)).len() == rows@.len());
        if rows@.len() > 0 {
            let last = rows@.len() - 1;
            assert(user_views(users@)[last] == users@[last]@);
            assert(stored_users(row_views(rows@))[last] == user_in(rows@[last]@));
        }
    }
    match users.pop() {
        Some(user) => Ok(user),
        None => Err(Error::NotFound),
    }
}

/// The role of a user whose request names none.
pub open spec fn default_role() -> Seq<char> {
    "user"@
}

/// The user that a request to create one asks for: under the identifier
/// `id`, with the password hash `password`, created and last updated at
/// `now`, in the role of the request or, where it names none, the default
/// role.
pub open spec fn requested_user(
    id: Seq<char>,
    username: Seq<char>,
    password: Seq<char>,
    email: Option<Seq<char>>,
    role: Option<Seq<char>>,
    now: Timestamp,
) -> UserView {
    UserView {
        id,
        username,
        password,
        email,
        role: match role {
            Some(r) => r,
            None => default_role(),
        },
        created_at: Some(now),
        updated_at: Some(now),
    }
}

/// `wanted` where it is given, `kept` otherwise.
pub open spec fn replaced_text(kept: Seq<char>, wanted: Option<Seq<char>>) -> Seq<char> {
    match wanted {
        Some(w) => w,
        None => kept,
    }
}

/// `user` as a request to change it at `now` leaves it, `password` being the
/// hash of the password of the request where it gives one.
pub open spec fn amended_user(
    user: UserView,
    username: Option<Seq<char>>,
    password: Option<Seq<char>>,
    email: Option<Seq<char>>,
    role: Option<Seq<char>>,
    now: Timestamp,
) -> UserView {
    UserView {
        id: user.id,
        username: replaced_text(user.username, username),
        password: replaced_text(user.password, password),
        email: replaced(user.email, email),
        role: replaced_text(user.role, role),
        created_at: user.created_at,
        updated_at: Some(now),
    }
}

/// The statement that inserts `user`.
pub open spec fn insert_statement(user: UserView) -> QueryView {
    empty_query().with_piece("INSERT INTO "@).with_piece("user"@).with_piece(
        " (id, username, password, email, role, created_at, updated_at) VALUES ("@,
    ).with_query(
        list_query(
            seq![
                ValueView::String(Some(user.id)),
                ValueView::String(Some(user.username)),
                ValueView::String(Some(user.password)),
                ValueView::String(user.email),
                ValueView::String(Some(user.role)),
                ValueView::DateTime(user.created_at),
                ValueView::DateTime(user.updated_at),
            ],
        ),
    ).with_piece(")"@)
}

/// The statement that writes a change over the stored user under `id`: the
/// time of the change, then the name, the password hash, the address and
/// the role, each only where the request gives it.
pub open spec fn update_statement(
    id: Seq<char>,
    username: Option<Seq<char>>,
    password: Option<Seq<char>>,
    email: Option<Seq<char>>,
    role: Option<Seq<char>>,
    now: Timestamp,
) -> QueryView {
    empty_query().with_piece("UPDATE "@).with_piece("user"@).with_piece(" SET "@).with_query(
        conditioned(
            conditioned(
                conditioned(
                    conditioned(
                        empty_query().with_separator(", "@).with_piece(
                            "updated_at = ?"@,
                        ).with_value(ValueView::DateTime(Some(now))),
                        "username = ?"@,
                        username,
                    ),
                    "password = ?"@,
                    password,
                ),
                "email = ?"@,
                email,
            ),
            "role = ?"@,
            role,
        ),
    ).with_piece(" WHERE id = ?"@).with_value(ValueView::String(Some(id)))
}

/// The statement that deletes the stored user under `id`.
pub open spec fn delete_statement(id: Seq<char>) -> QueryView {
    empty_query().with_piece("DELETE FROM "@).with_piece("user"@).with_piece(
        " WHERE id = ?"@,
    ).with_value(ValueView::String(Some(id)))
}

impl CreateUserRequest {
    /// The user that this request asks to create, under the identifier `id`
    /// and with the password hash `password`, at `now`.
    pub fn user(&self, id: String, password: String, now: Timestamp) -> (user: User)
        ensures
            user@ == requested_user(
                id@,
                self.username@,
                password@,
                text_of(self.email),
                text_of(self.role),
                now,
            ),
    {
        let role = match &self.role {
            Some(role) => role.clone(),
            None => String::from_str("user"),
        };
        User {
            id,
            username: self.username.clone(),
            password,
            email: copy_text(&self.email),
            role,
            created_at: Some(now),
            updated_at: Some(now),
        }
    }
}

/// `wanted` where it is given, `kept` otherwise.
pub fn replace(kept: String, wanted: &Option<String>) -> (text: String)
    ensures
        text@ == replaced_text(kept@, text_of(*wanted)),
{
    match wanted {
        Some(w) => w.clone(),
        None => kept,
    }
}

/// The hash of an optional password, where there is a password.
pub open spec fn optional_hash(made: Result<Option<String>, ()>) -> Option<Option<Seq<char>>> {
    match made {
        Ok(hash) => Some(text_of(hash)),
        Err(_) => None,
    }
}

impl UpdateUserRequest {
    /// The hash of the password of this request under a new random salt:
    /// none where the request gives no password. Fails where the request
    /// gives a password and hashing it fails.
    pub fn hashed_password(&self) -> (made: Result<Option<String>, ()>)
        ensures
            self.password is None ==> made == Ok::<Option<String>, ()>(None),
            self.password is Some ==> exists|salt: Seq<char>|
                match #[trigger] hashed_with(self.password->0@, salt) {
                    Some(hash) => optional_hash(made) == Some(Some(hash)),
                    None => made is Err,
                },
    {
        match &self.password {
            None => Ok(None),
            Some(password) => match hash_password(password.clone()) {
                Ok(hash) => Ok(Some(hash)),
                Err(_) => Err(()),
            },
        }
    }

    /// `user` as this request, made at `now`, leaves it, `password` being
    /// the hash of the password of the request where it gives one.
    pub fn amend(&self, user: User, password: &Option<String>, now: Timestamp) -> (amended: User)
        ensures
            amended@ == amended_user(
                user@,
                text_of(self.username),
                text_of(*password),
                text_of(self.email),
                text_of(self.role),
                now,
            ),
    {
        User {
            id: user.id,
            username: replace(user.username, &self.username),
            password: replace(user.password, password),
            email: replace_text(user.email, &self.email),
            role: replace(user.role, &self.role),
            created_at: user.created_at,
            updated_at: Some(now),
        }
    }

    /// The statement that writes this request, made at `now`, over the
    /// stored user under `id`, `password` being the hash of the password of
    /// the request where it gives one.
    pub fn update_query(&self, id: &String, password: &Option<String>, now: Timestamp) -> (query:
        Query)
        ensures
            query@ == update_statement(
                id@,
                text_of(self.username),
                text_of(*password),
                text_of(self.email),
                text_of(self.role),
                now,
            ),
    {
        let mut values = Query::new();
        values.set_separator(", ");
        values.push_str("updated_at = ?");
        values.bind(Value::DateTime(Some(now)));
        condition(&mut values, "username = ?", &self.username);
        condition(&mut values, "password = ?", password);
        condition(&mut values, "email = ?", &self.email);
        condition(&mut values, "role = ?", &self.role);
        let mut query = Query::new();
        query.push_str("UPDATE ");
        query.push_str(USER_TABLE);
        query.push_str(" SET ");
        query.append(values);
        query.push_str(" WHERE id = ?");
        query.bind(Value::String(Some(id.clone())));
        query
    }
}

/// The statement that inserts `user`.
pub fn insert_user_query(user: &User) -> (query: Query)
    ensures
        query@ == insert_statement(user@),
{
    let mut values: Vec<Value> = Vec::new();
    values.push(Value::String(Some(user.id.clone())));
    values.push(Value::String(Some(user.username.clone())));
    values.push(Value::String(Some(user.password.clone())));
    values.push(Value::String(copy_text(&user.email)));
    values.push(Value::String(Some(user.role.clone())));
    values.push(Value::DateTime(user.created_at));
    values.push(Value::DateTime(user.updated_at));
    proof {
        assert(value_views(values@) =~= seq![
            ValueView::String(Some(user@.id)),
            ValueView::String(Some(user@.username)),
            ValueView::String(Some(user@.password)),
            ValueView::String(user@.email),
            ValueView::String(Some(user@.role)),
            ValueView::DateTime(user@.created_at),
            ValueView::DateTime(user@.updated_at),
        ]);
    }
    let mut query = Query::new();
    query.push_str("INSERT INTO ");
    query.push_str(USER_TABLE);
    query.push_str(" (id, username, password, email, role, created_at, updated_at) VALUES (");
    query.append(list_of(values));
    query.push_str(")");
    query
}

/// The statement that deletes the stored user under `id`.
pub fn delete_user_query(id: &String) -> (query: Query)
    ensures
        query@ == delete_statement(id@),
{
    let mut query = Query::new();
    query.push_str("DELETE FROM ");
    query.push_str(USER_TABLE);
    query.push_str(" WHERE id = ?");
    query.bind(Value::String(Some(id.clone())));
    query
}

/// An access token as it is sent in a response.
#[derive(Debug, Clone, PartialEq, Eq)]
pub struct TokenResponse {
    pub access_token: String,
}

/// What an access token claims: who its user is, and until when it is
/// valid.
#[derive(Debug, Clone, PartialEq, Eq)]
pub struct Claims {
    /// The second, counted from the Unix epoch, at which the token expires.
    pub exp: usize,
    pub user_id: String,
}

/// The number of seconds for which a token is valid: ninety days of 86400
/// seconds.
pub open spec fn token_lifetime() -> int {
    7_776_000
}

/// The second at which a token issued at `now` expires.
pub open spec fn expiry(now: Timestamp) -> int {
    now.secs + token_lifetime()
}

impl Claims {
    /// The claims of a token issued to `user` at `now`: it expires ninety
    /// days later. `None` exactly where that second is before the Unix epoch
    /// or beyond what the claim can hold.
    pub fn from_user(user: &User, now: Timestamp) -> (claims: Option<Claims>)
        ensures
            claims is Some <==> 0 <= expiry(now) <= usize::MAX,
            claims is Some ==> claims->0.exp == expiry(now) && claims->0.user_id@ == user.id@,
    {
        let expires: i128 = now.secs as i128 + 7_776_000;
        if expires < 0 || expires > usize::MAX as i128 {
            return None;
        }
        Some(Claims { exp: expires as usize, user_id: user.id.clone() })
    }
}

/// Index of the first space in `text`, or the length of `text` where there
/// is none.
pub open spec fn first_space(text: Seq<char>) -> int
    decreases text.len(),
{
    if text.len() == 0 {
        0
    } else if text.first() == ' ' {
        0
    } else {
        1 + first_space(text.drop_first())
    }
}

/// The token of an authorization header: what follows the first space, where
/// what precedes it is the word `bearer` in any case.
pub open spec fn bearer_token_of(header: Seq<char>) -> Option<Seq<char>> {
    let at = first_space(header);
    if at < header.len() && lowercase_of(header.take(at)) == "bearer"@ {
        Some(header.skip(at + 1))
    } else {
        None
    }
}

/// What `first_space` finds: an index within bounds or the length, a space
/// at the index, and none before it.
pub proof fn lemma_first_space(text: Seq<char>)
    ensures
        0 <= first_space(text) <= text.len(),
        first_space(text) < text.len() ==> text[first_space(text)] == ' ',
        forall|i: int| 0 <= i < first_space(text) ==> text[i] != ' ',
    decreases text.len(),
{
    if text.len() > 0 && text.first() != ' ' {
        let rest = text.drop_first();
        lemma_first_space(rest);
        assert forall|i: int| 0 <= i < first_space(text) implies text[i] != ' ' by {
            if i > 0 {
                assert(text[i] == rest[i - 1]);
            }
        }
    }
}

/// The token of the authorization header `header`. `None` where the header
/// holds no space or does not start with the word `bearer`.
pub fn bearer_token(header: &str) -> (token: Option<String>)
    ensures
        text_of(token) == bearer_token_of(header@),
{
    let chars = chars_of(header);
    let mut at: usize = 0;
    while at < chars.len() && chars[at] != ' '
        invariant
            at <= chars.len(),
            forall|i: int| 0 <= i < at ==> chars@[i] != ' ',
        decreases chars.len() - at,
    {
        at = at + 1;
    }
    proof {
        lemma_first_space(header@);
        assert(first_space(header@) == at);
    }
    if at == chars.len() {
        return None;
    }
    let scheme = lowercase(header.substring_char(0, at));
    proof {
        assert(header@.subrange(0, at as int) == header@.take(at as int));
        assert(header@.subrange(at + 1, chars.len() as int) == header@.skip(at + 1));
    }
    let wanted = String::from_str("bearer");
    if scheme == wanted {
        Some(String::from_str(header.substring_char(at + 1, chars.len())))
    } else {
        None
    }
}

} // verus!
