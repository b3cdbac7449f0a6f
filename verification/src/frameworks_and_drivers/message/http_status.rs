use vstd::prelude::*;

verus! {

/// The statuses the dictionary answers with.
#[derive(Debug, Clone, Copy, PartialEq, Eq, Structural)]
pub enum HttpStatus {
    Success,
    Created,
    NoContent,
    BadRequest,
    NotFound,
    Conflict,
    InternalServerError,
}

pub open spec fn status_code(s: HttpStatus) -> u16 {
    match s {
        HttpStatus::Success => 200,
        HttpStatus::Created => 201,
        HttpStatus::NoContent => 204,
        HttpStatus::BadRequest => 400,
        HttpStatus::NotFound => 404,
        HttpStatus::Conflict => 409,
        HttpStatus::InternalServerError => 500,
    }
}

pub open spec fn status_text(s: HttpStatus) -> Seq<char> {
    match s {
        HttpStatus::Success => "OK"@,
        HttpStatus::Created => "Created"@,
        HttpStatus::NoContent => "No Content"@,
        HttpStatus::BadRequest => "Bad Request"@,
        HttpStatus::NotFound => "Not Found"@,
        HttpStatus::Conflict => "Conflict"@,
        HttpStatus::InternalServerError => "Internal Server Error"@,
    }
}

impl HttpStatus {
    pub fn get_code(&self) -> (r: u16)
        ensures
            r == status_code(*self),
    {
        match self {
            HttpStatus::Success => 200,
            HttpStatus::Created => 201,
            HttpStatus::NoContent => 204,
            HttpStatus::BadRequest => 400,
            HttpStatus::NotFound => 404,
            HttpStatus::Conflict => 409,
            HttpStatus::InternalServerError => 500,
        }
    }

    /// The reason phrase of the status.
    pub fn get_description(&self) -> (r: &'static str)
        ensures
            r@ == status_text(*self),
    {
        match self {
            HttpStatus::Success => "OK",
            HttpStatus::Created => "Created",
            HttpStatus::NoContent => "No Content",
            HttpStatus::BadRequest => "Bad Request",
            HttpStatus::NotFound => "Not Found",
            HttpStatus::Conflict => "Conflict",
            HttpStatus::InternalServerError => "Internal Server Error",
        }
    }
}

} // verus!
