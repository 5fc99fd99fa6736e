//! Catalog records without fractional amounts, the authentication messages,
//! and the error type that request handlers report.

use vstd::prelude::*;
use vstd::string::StringExecFns;

use crate::auth::AuthError;

verus! {

/// A menu category.
#[derive(Debug)]
pub struct Category {
    pub category_id: String,
    pub name: String,
    pub sort_order: i32,
}

/// A group of options attached to an item.
#[derive(Debug)]
pub struct Modifier {
    pub modifier_id: String,
    pub item_id: String,
    pub name: String,
    pub single_selection: bool,
    pub sort_order: i32,
}

/// A PIN sign-in attempt.
#[derive(Debug)]
pub struct AuthRequest {
    pub pin: String,
}

/// Who signed in, and whether they may administer the catalog.
#[derive(Debug)]
pub struct AuthResponse {
    pub staff_id: String,
    pub is_admin: bool,
}

/// What a request handler reports instead of a result.
#[derive(Debug)]
pub enum ApiError {
    DatabaseError(String),
    NotFound(String),
    ValidationError(String),
    Unauthorized(String),
    BadRequest(String),
}

impl ApiError {
    /// The HTTP status for this error.
    pub open spec fn status_view(&self) -> u16 {
        match self {
            ApiError::DatabaseError(_) => 500,
            ApiError::NotFound(_) => 404,
            ApiError::ValidationError(_) => 400,
            ApiError::Unauthorized(_) => 401,
            ApiError::BadRequest(_) => 400,
        }
    }

    pub fn status_code(&self) -> (r: u16)
        ensures
            r == self.status_view(),
    {
        match self {
            ApiError::DatabaseError(_) => 500,
            ApiError::NotFound(_) => 404,
            ApiError::ValidationError(_) => 400,
            ApiError::Unauthorized(_) => 401,
            ApiError::BadRequest(_) => 400,
        }
    }

    /// The response to a request the admin check denied; both kinds of denial are
    /// reported as unauthorized, and an unreachable store says so.
    pub fn from_auth_error(e: AuthError) -> (r: ApiError)
        ensures
            r is Unauthorized,
            e == AuthError::Unauthorized ==> r.parts().1 == "Admin access required"@,
            e == AuthError::Unavailable ==> r.parts().1 == "Credential store unavailable"@,
    {
        match e {
            AuthError::Unauthorized => ApiError::Unauthorized(String::from_str("Admin access required")),
            AuthError::Unavailable => ApiError::Unauthorized(String::from_str("Credential store unavailable")),
        }
    }

    /// The label that opens this error's message, and its detail.
    pub open spec fn parts(&self) -> (Seq<char>, Seq<char>) {
        match self {
            ApiError::DatabaseError(m) => ("Database error: "@, m@),
            ApiError::NotFound(m) => ("Not found: "@, m@),
            ApiError::ValidationError(m) => ("Validation error: "@, m@),
            ApiError::Unauthorized(m) => ("Unauthorized: "@, m@),
            ApiError::BadRequest(m) => ("Bad request: "@, m@),
        }
    }

    /// The detail that the response body carries.
    pub fn detail(&self) -> (r: &String)
        ensures
            r@ == self.parts().1,
    {
        match self {
            ApiError::DatabaseError(m) => m,
            ApiError::NotFound(m) => m,
            ApiError::ValidationError(m) => m,
            ApiError::Unauthorized(m) => m,
            ApiError::BadRequest(m) => m,
        }
    }

    /// The full message: the label, then the detail.
    pub fn message(&self) -> (r: String)
        ensures
            r@ == self.parts().0 + self.parts().1,
    {
        let label = match self {
            ApiError::DatabaseError(_) => "Database error: ",
            ApiError::NotFound(_) => "Not found: ",
            ApiError::ValidationError(_) => "Validation error: ",
            ApiError::Unauthorized(_) => "Unauthorized: ",
            ApiError::BadRequest(_) => "Bad request: ",
        };
        let mut r = String::from_str(label);
        r.append(self.detail().as_str());
        r
    }
}

/// Whether a category may be stored: a name, and no negative position.
pub open spec fn category_valid(c: &Category) -> bool {
    c.name@.len() >= 1 && c.sort_order >= 0
}

/// Whether a modifier may be stored: a name, and no negative position.
pub open spec fn modifier_valid(m: &Modifier) -> bool {
    m.name@.len() >= 1 && m.sort_order >= 0
}

impl Category {
    /// Accepts a category that may be stored, or names the first rule it breaks.
    pub fn validate(&self) -> (r: Result<(), ApiError>)
        ensures
            r is Ok <==> category_valid(self),
            r is Err ==> r->Err_0 is ValidationError,
    {
        if self.name.as_str().unicode_len() < 1 {
            return Err(ApiError::ValidationError(String::from_str("Name cannot be empty")));
        }
        if self.sort_order < 0 {
            return Err(ApiError::ValidationError(String::from_str("Sort order must be non-negative")));
        }
        Ok(())
    }
}

impl Modifier {
    /// Accepts a modifier that may be stored, or names the first rule it breaks.
    pub fn validate(&self) -> (r: Result<(), ApiError>)
        ensures
            r is Ok <==> modifier_valid(self),
            r is Err ==> r->Err_0 is ValidationError,
    {
        if self.name.as_str().unicode_len() < 1 {
            return Err(ApiError::ValidationError(String::from_str("Name cannot be empty")));
        }
        if self.sort_order < 0 {
            return Err(ApiError::ValidationError(String::from_str("Sort order must be non-negative")));
        }
        Ok(())
    }
}

} // verus!
