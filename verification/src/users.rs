//! Users: the rules of the user endpoints.
use vstd::prelude::*;
use vstd::string::*;
use crate::ballots::Lookup;
use crate::text::{blank, is_blank};
use crate::time::{Timestamp, parse_rfc3339, rfc3339_reading, rfc3339_text, rfc3339_writing};

verus! {

/// Why a user request fails.
pub enum ApiError {
    BadRequest(String),
    NotFound(String),
    Database(String),
}

impl ApiError {
    /// The HTTP status of the failure.
    pub fn status_code(&self) -> (out: u16)
        ensures
            out == match *self {
                ApiError::BadRequest(_) => 400u16,
                ApiError::NotFound(_) => 404u16,
                ApiError::Database(_) => 500u16,
            },
    {
        match self {
            ApiError::BadRequest(_) => 400,
            ApiError::NotFound(_) => 404,
            ApiError::Database(_) => 500,
        }
    }

    /// The text of the `error` member of the reply body.
    pub fn message(&self) -> (out: String)
        ensures
            out@ == match *self {
                ApiError::BadRequest(m) => m@,
                ApiError::NotFound(m) => m@,
                ApiError::Database(m) => "database error: "@ + m@,
            },
    {
        match self {
            ApiError::BadRequest(m) => m.clone(),
            ApiError::NotFound(m) => m.clone(),
            ApiError::Database(m) => {
                let mut out = "database error: ".to_owned();
                out.append(m.as_str());
                out
            },
        }
    }
}

/// A request to create a user.
pub struct CreateRequest {
    pub name: String,
    pub created_at: Option<String>,
}

/// A user row to insert.
pub struct NewUser {
    pub name: String,
    pub created_at: Timestamp,
}

/// A user as answered.
pub struct RecordResponse {
    pub id: i32,
    pub name: String,
    pub created_at: String,
}

/// A request naming a row.
pub struct IdQuery {
    pub id: i32,
}

/// The answer to a removal.
pub struct DeleteResponse {
    pub id: i32,
    pub deleted: bool,
}

/// A bad request with this message.
pub open spec fn is_bad_request(e: ApiError, m: Seq<char>) -> bool {
    e matches ApiError::BadRequest(s) && s@ == m
}

/// The row a lookup found; a missing row is not found with `message`, a
/// storage failure keeps its message.
pub fn found_or_not_found<T>(lookup: Lookup<T>, message: &str) -> (out: Result<T, ApiError>)
    ensures
        match lookup {
            Lookup::Found(row) => out == Ok::<T, ApiError>(row),
            Lookup::Missing => out matches Err(e) && e matches ApiError::NotFound(s) && s@ == message@,
            Lookup::Failed(m) => out matches Err(e) && e matches ApiError::Database(s) && s@ == m@,
        },
{
    match lookup {
        Lookup::Found(row) => Ok(row),
        Lookup::Missing => Err(ApiError::NotFound(message.to_owned())),
        Lookup::Failed(m) => Err(ApiError::Database(m)),
    }
}

/// A new user: a name that is not blank, and the creation time read from the
/// request or now.
pub fn plan_new_user(req: CreateRequest, now: &Timestamp) -> (out: Result<NewUser, ApiError>)
    ensures
        blank(req.name@) ==> (out matches Err(e) && is_bad_request(
            e,
            "name is required and cannot be empty"@,
        )),
        !blank(req.name@) ==> match req.created_at {
            None => out matches Ok(u) && u.name@ == req.name@ && u.created_at.parts() == now.parts(),
            Some(s) => match rfc3339_reading(s@) {
                Some(p) => out matches Ok(u) && u.name@ == req.name@ && u.created_at.parts() == p,
                None => out matches Err(e) && is_bad_request(
                    e,
                    "timestamp must be RFC3339, e.g. 2026-03-20T20:30:00Z"@,
                ),
            },
        },
{
    if is_blank(req.name.as_str()) {
        return Err(ApiError::BadRequest("name is required and cannot be empty".to_owned()));
    }
    let created_at = match &req.created_at {
        Some(value) => match parse_rfc3339(value.as_str()) {
            Some(t) => t,
            None => return Err(
                ApiError::BadRequest(
                    "timestamp must be RFC3339, e.g. 2026-03-20T20:30:00Z".to_owned(),
                ),
            ),
        },
        None => now.copy(),
    };
    Ok(NewUser { name: req.name, created_at })
}

/// A user as answered, its creation time in RFC 3339.
pub fn record_response(id: i32, name: String, created_at: &Timestamp) -> (out: RecordResponse)
    ensures
        out.id == id,
        out.name == name,
        out.created_at@ == rfc3339_writing(created_at.parts()),
{
    RecordResponse { id, name, created_at: rfc3339_text(created_at) }
}

/// The answer to removing a row that was there.
pub fn deleted(id: i32) -> (out: DeleteResponse)
    ensures
        out.id == id && out.deleted,
{
    DeleteResponse { id, deleted: true }
}

} // verus!
