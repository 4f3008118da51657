//! Plain reply bodies.

use vstd::prelude::*;

verus! {

/// A reply that is one text.
#[derive(Debug)]
pub struct StringResponse {
    pub value: String,
}

/// A reply without content.
#[derive(Debug, Clone, Copy)]
pub struct UnitResponse {
    pub _placeholder: Option<bool>,
}

/// The envelope of a reply: whether the call went well, a message, and what
/// the call returned.
#[derive(Debug)]
pub struct ApiResponse<T> {
    pub status: String,
    pub message: String,
    pub data: Option<T>,
}

impl<T> ApiResponse<T> {
    /// The envelope of a call that went well.
    pub fn success(data: T) -> (r: Self)
        ensures
            r.status@ == "success"@,
            r.message@ == "Operation completed successfully"@,
            r.data == Some(data),
    {
        ApiResponse {
            status: "success".to_owned(),
            message: "Operation completed successfully".to_owned(),
            data: Some(data),
        }
    }

    /// The envelope of a call that failed, with the message of the failure.
    pub fn error(message: &str) -> (r: Self)
        ensures
            r.status@ == "error"@,
            r.message@ == message@,
            r.data is None,
    {
        ApiResponse { status: "error".to_owned(), message: message.to_owned(), data: None }
    }
}

} // verus!
