//! Records exchanged with the organiser's web pages, and the decisions those
//! pages take from what the session and the database hold.

use vstd::prelude::*;
use vstd::string::*;

verus! {

/// Page context that carries only a header line.
pub struct Context {
    pub header: String,
}

/// Page context of the login and sign-up pages.
pub struct CSRFContext {
    pub header: String,
    pub csrf: String,
}

/// Sign-up form of a new user.
pub struct UserFormSignup {
    pub username_signup: String,
    pub password_signup: String,
    pub city_signup: String,
    pub role_signup: String,
    pub first_name_user: String,
    pub patronymic_user: String,
    pub last_name_user: String,
    pub phone_user: String,
    pub mail_user: String,
    pub csrf: String,
}

/// Login form.
pub struct UserFormLogin {
    pub username_login: String,
    pub password_login: String,
    pub csrf: String,
}

/// Form that carries only the anti-forgery token.
pub struct CSRFtoken {
    pub csrf: String,
}

/// A row of the `users_sessions` table.
pub struct UsersSession {
    pub id_user_session: i64,
    pub user_id_users_session: i64,
    pub token_users_session: String,
}

/// A new row of the `users_sessions` table.
pub struct NewUserSession {
    pub user_id_new_user_session: i64,
    pub token_new_user_session: String,
}

/// A row of the `users` table.
pub struct UsersTable {
    pub id_table: i64,
    pub username_table: String,
    pub password_table: String,
    pub city_table: String,
    pub role_table: String,
}

/// A new row of the `users` table.
pub struct NewUser {
    pub username_new_user: String,
    pub password_new_user: String,
    pub city_new_user: String,
    pub role_new_user: String,
}

/// An organiser offered as the receiver of a question pack.
pub struct OrganisersPacContext {
    pub id: i64,
    pub user_name: String,
}

/// The list of organisers offered as receivers of a question pack.
pub struct OrganisersContextResponse {
    pub organisers_names: Vec<OrganisersPacContext>,
}

/// Why no user is logged in.
#[derive(Clone, Copy, PartialEq, Eq, Debug)]
pub enum SessionError {
    /// The request carries no session cookie, or no user holds its token.
    NoTokenFound,
}

/// The user of a request: the one whose session token the private cookie
/// `session_token` carries. `session_cookie` is that cookie's value, if the
/// request has it; `user_for_token` is what the `users_sessions` table maps
/// the token to.
pub fn get_user_id_from_cookies(session_cookie: Option<&str>, user_for_token: Option<i64>) -> (res:
    Result<i64, SessionError>)
    ensures
        res == (match (session_cookie, user_for_token) {
            (Some(_), Some(id)) => Ok::<i64, SessionError>(id),
            _ => Err(SessionError::NoTokenFound),
        }),
{
    match session_cookie {
        Some(_) => match user_for_token {
            Some(id) => Ok(id),
            None => Err(SessionError::NoTokenFound),
        },
        None => Err(SessionError::NoTokenFound),
    }
}

/// The menu entries, as (id, name), offered to user `me` from the rows of
/// the `users` table: every organiser other than `me`, in table order.
pub open spec fn menu_entries(users: Seq<UsersTable>, me: i64) -> Seq<(i64, Seq<char>)>
    decreases users.len(),
{
    if users.len() == 0 {
        seq![]
    } else {
        let r = menu_entries(users.drop_last(), me);
        let u = users.last();
        if u.role_table@ == "organiser"@ && u.id_table != me {
            r.push((u.id_table, u.username_table@))
        } else {
            r
        }
    }
}

/// A menu as (id, name) pairs.
pub open spec fn menu_view(v: Seq<OrganisersPacContext>) -> Seq<(i64, Seq<char>)> {
    Seq::new(v.len(), |k: int| (v[k].id, v[k].user_name@))
}

/// The organisers' menu of a request, from the rows of the `users` table:
/// for a logged-in user, every other user whose role is `organiser`, in
/// table order; none when no user is logged in.
pub fn get_organiser_context_menu(session: Result<i64, SessionError>, users: &Vec<UsersTable>) -> (res:
    OrganisersContextResponse)
    ensures
        match session {
            Ok(me) => menu_view(res.organisers_names@) == menu_entries(users@, me),
            Err(_) => res.organisers_names@.len() == 0,
        },
{
    let me = match session {
        Ok(id) => id,
        Err(_) => {
            return OrganisersContextResponse { organisers_names: Vec::new() };
        },
    };
    let mut out: Vec<OrganisersPacContext> = Vec::new();
    let mut i: usize = 0;
    while i < users.len()
        invariant
            i <= users@.len(),
            menu_view(out@) == menu_entries(users@.take(i as int), me),
        decreases users.len() - i,
    {
        assert(users@.take(i + 1).drop_last() =~= users@.take(i as int));
        assert(users@.take(i + 1).last() == users@[i as int]);
        let u = &users[i];
        if crate::text::same_text(u.role_table.as_str(), "organiser") && u.id_table != me {
            let ghost before = menu_view(out@);
            out.push(OrganisersPacContext { id: u.id_table, user_name: String::from_str(u.username_table.as_str()) });
            assert(menu_view(out@) =~= before.push((u.id_table, u.username_table@)));
        }
        i = i + 1;
    }
    assert(users@.take(users@.len() as int) =~= users@);
    OrganisersContextResponse { organisers_names: out }
}

/// Text shown when a question pack has no topic yet.
pub open spec fn no_topic_text() -> Seq<char> {
    "Название темы пятёрки вопросов не указано"@
}

/// The topic of the question last added to a pack, given what the pack's
/// table holds as its last row's topic.
pub fn get_topic_five_questions_last_insert(last_topic: Option<String>) -> (res: String)
    ensures
        res@ == (match last_topic {
            Some(t) => t@,
            None => no_topic_text(),
        }),
{
    match last_topic {
        Some(t) => t,
        None => String::from_str("Название темы пятёрки вопросов не указано"),
    }
}

/// A hand-over of a question pack from one organiser to another.
pub struct DataTransfer {
    pub sender_user_id: i64,
    pub receiver_user_id: i64,
    pub package_id: i64,
}

/// The pack has already travelled to or from `receiver`.
pub open spec fn already_shared(transfers: Seq<DataTransfer>, receiver: i64, package: i64) -> bool {
    exists|k: int|
        0 <= k < transfers.len() && (#[trigger] transfers[k]).package_id == package && (
        transfers[k].receiver_user_id == receiver || transfers[k].sender_user_id == receiver)
}

/// An organiser hands pack `package_id` (named `package_name`) over to
/// `receiver` (whose login is `receiver_name`, if known): refused when the
/// pack already went to or came from the receiver (`Err` with the page's
/// header); otherwise `Ok` with the header of the confirmation.
pub fn transfer_question_pac(
    transfers: &Vec<DataTransfer>,
    receiver: i64,
    package_id: i64,
    receiver_name: Option<String>,
    package_name: &str,
) -> (r: Result<String, String>)
    ensures
        ({
            let name = match receiver_name {
                Some(n) => n@,
                None => Seq::<char>::empty(),
            };
            if already_shared(transfers@, receiver, package_id) {
                r matches Err(h) && h@ == name + " уже имеет пакет вопросов "@ + package_name@
                    + ". Одним из организаторов (или Вами) этот пакет направлялся ранее."@
            } else {
                r matches Ok(h) && h@ == "Пакет "@ + package_name@ + " передан "@ + name
            }
        }),
{
    let mut shared = false;
    let mut i: usize = 0;
    while i < transfers.len()
        invariant
            i <= transfers@.len(),
            shared == exists|k: int|
                0 <= k < i && (#[trigger] transfers@[k]).package_id == package_id && (
                transfers@[k].receiver_user_id == receiver || transfers@[k].sender_user_id == receiver),
        decreases transfers.len() - i,
    {
        let t = &transfers[i];
        if t.package_id == package_id && (t.receiver_user_id == receiver || t.sender_user_id == receiver) {
            shared = true;
        }
        i = i + 1;
    }
    let name = match receiver_name {
        Some(n) => n,
        None => String::new(),
    };
    if shared {
        let mut h = name;
        h.append(" уже имеет пакет вопросов ");
        h.append(package_name);
        h.append(". Одним из организаторов (или Вами) этот пакет направлялся ранее.");
        Err(h)
    } else {
        let mut h = String::from_str("Пакет ");
        h.append(package_name);
        h.append(" передан ");
        h.append(name.as_str());
        Ok(h)
    }
}

} // verus!
