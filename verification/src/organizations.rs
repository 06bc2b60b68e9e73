//! Organizations: the rules of the organization endpoints.
use vstd::prelude::*;
use vstd::string::*;
use crate::ballots::Lookup;
use crate::json::Json;
use crate::text::{blank, is_blank};

verus! {

/// Why an organization request fails.
pub enum ApiError {
    BadRequest(String),
    NotFound(String),
    Database(String),
}

impl ApiError {
    /// The HTTP status of the failure.
    pub fn status_code(&self) -> (out: u16)
        ensures
            out == match *self {
                ApiError::BadRequest(_) => 400u16,
                ApiError::NotFound(_) => 404u16,
                ApiError::Database(_) => 500u16,
            },
    {
        match self {
            ApiError::BadRequest(_) => 400,
            ApiError::NotFound(_) => 404,
            ApiError::Database(_) => 500,
        }
    }

    /// The text of the `error` member of the reply body.
    pub fn message(&self) -> (out: String)
        ensures
            out@ == match *self {
                ApiError::BadRequest(m) => m@,
                ApiError::NotFound(m) => m@,
                ApiError::Database(m) => "database error: "@ + m@,
            },
    {
        match self {
            ApiError::BadRequest(m) => m.clone(),
            ApiError::NotFound(m) => m.clone(),
            ApiError::Database(m) => {
                let mut out = "database error: ".to_owned();
                out.append(m.as_str());
                out
            },
        }
    }
}

/// A request to create an organization.
pub struct CreateRequest {
    pub name: String,
    pub data: Option<Json>,
}

/// A request to delete an organization.
pub struct DeleteRequest {
    pub id: i32,
}

/// An organization row to insert.
pub struct NewOrganization {
    pub name: String,
    pub data: Json,
}

/// An organization as answered.
pub struct CreateResponse {
    pub id: i32,
    pub name: String,
    pub data: Json,
}

/// The answer to a removal.
pub struct DeleteResponse {
    pub id: i32,
    pub deleted: bool,
}

/// The answer to removing a row that was there.
pub fn deleted(id: i32) -> (out: DeleteResponse)
    ensures
        out.id == id && out.deleted,
{
    DeleteResponse { id, deleted: true }
}

/// A bad request with this message.
pub open spec fn is_bad_request(e: ApiError, m: Seq<char>) -> bool {
    e matches ApiError::BadRequest(s) && s@ == m
}

/// The row a lookup found; a missing row is not found with `message`, a
/// storage failure keeps its message.
pub fn found_or_not_found<T>(lookup: Lookup<T>, message: &str) -> (out: Result<T, ApiError>)
    ensures
        match lookup {
            Lookup::Found(row) => out == Ok::<T, ApiError>(row),
            Lookup::Missing => out matches Err(e) && e matches ApiError::NotFound(s) && s@ == message@,
            Lookup::Failed(m) => out matches Err(e) && e matches ApiError::Database(s) && s@ == m@,
        },
{
    match lookup {
        Lookup::Found(row) => Ok(row),
        Lookup::Missing => Err(ApiError::NotFound(message.to_owned())),
        Lookup::Failed(m) => Err(ApiError::Database(m)),
    }
}

/// A new organization: a name that is not blank, its data or an empty object.
pub fn plan_new_organization(req: CreateRequest) -> (out: Result<NewOrganization, ApiError>)
    ensures
        blank(req.name@) ==> (out matches Err(e) && is_bad_request(
            e,
            "name is required and cannot be empty"@,
        )),
        !blank(req.name@) ==> (out matches Ok(o) && o.name == req.name && match req.data {
            Some(d) => o.data == d,
            None => o.data matches Json::Object(m) && m@.len() == 0,
        }),
{
    if is_blank(req.name.as_str()) {
        return Err(ApiError::BadRequest("name is required and cannot be empty".to_owned()));
    }
    let data = match req.data {
        Some(d) => d,
        None => Json::empty_object(),
    };
    Ok(NewOrganization { name: req.name, data })
}

} // verus!
