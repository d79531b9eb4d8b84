use vstd::prelude::*;

use crate::errors::AppError;

verus! {

/// A stored credential record, as the storage collaborator returns it.
/// `status` 1 is an active account; any other value is disabled.
#[derive(Debug, Clone, PartialEq, Eq)]
pub struct UserRecord {
    pub id: i32,
    pub username: String,
    pub email: String,
    /// PHC string of the password's Argon2 hash.
    pub password_hash: String,
    pub nickname: String,
    pub avatar: Option<String>,
    pub role_id: Option<i32>,
    pub status: i32,
}

pub const ACTIVE_STATUS: i32 = 1;

/// A user's own profile.
#[derive(Debug, Clone, PartialEq, Eq)]
pub struct UserProfile {
    pub id: i32,
    pub username: String,
    pub email: String,
    pub nickname: String,
    pub avatar: Option<String>,
    pub role_id: Option<i32>,
    pub status: i32,
}

/// One line of the user listing.
#[derive(Debug, Clone, PartialEq, Eq)]
pub struct UserListItem {
    pub id: i32,
    pub username: String,
    pub email: String,
    pub nickname: String,
    pub role_id: Option<i32>,
    pub status: i32,
}

/// `p` shows exactly the public fields of `u`.
pub open spec fn profile_of(p: UserProfile, u: UserRecord) -> bool {
    &&& p.id == u.id
    &&& p.username == u.username
    &&& p.email == u.email
    &&& p.nickname == u.nickname
    &&& p.avatar == u.avatar
    &&& p.role_id == u.role_id
    &&& p.status == u.status
}

/// `i` shows exactly the listed fields of `u`.
pub open spec fn list_item_of(i: UserListItem, u: UserRecord) -> bool {
    &&& i.id == u.id
    &&& i.username == u.username
    &&& i.email == u.email
    &&& i.nickname == u.nickname
    &&& i.role_id == u.role_id
    &&& i.status == u.status
}

/// The profile of the user that the lookup by id found.
pub fn get_user_by_id(found: Option<UserRecord>) -> (r: Result<UserProfile, AppError>)
    ensures
        found is None ==> (r matches Err(AppError::NotFound(m)) && m@ == "User not found"@),
        found matches Some(u) ==> (r matches Ok(p) && profile_of(p, u)),
{
    match found {
        None => Err(AppError::NotFound("User not found".to_string())),
        Some(u) => Ok(UserProfile {
            id: u.id,
            username: u.username,
            email: u.email,
            nickname: u.nickname,
            avatar: u.avatar,
            role_id: u.role_id,
            status: u.status,
        }),
    }
}

/// The listing of all users, in storage order.
pub fn list_users(users: &Vec<UserRecord>) -> (r: Vec<UserListItem>)
    ensures
        r@.len() == users@.len(),
        forall|i: int| 0 <= i < r@.len() ==> list_item_of(#[trigger] r@[i], users@[i]),
{
    let mut out: Vec<UserListItem> = Vec::new();
    let mut i: usize = 0;
    while i < users.len()
        invariant
            i <= users@.len(),
            out@.len() == i,
            forall|j: int| 0 <= j < i ==> list_item_of(#[trigger] out@[j], users@[j]),
        decreases users@.len() - i,
    {
        let u = &users[i];
        out.push(UserListItem {
            id: u.id,
            username: u.username.clone(),
            email: u.email.clone(),
            nickname: u.nickname.clone(),
            role_id: u.role_id,
            status: u.status,
        });
        i = i + 1;
    }
    out
}

} // verus!
