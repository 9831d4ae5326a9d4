use vstd::prelude::*;

use vstd::string::StringExecFns;

verus! {

/// The body of a successful API response: a flag, a human-readable
/// message, and optionally the data being returned.
#[derive(Clone, Debug)]
pub struct ApiSuccess<T> {
    pub success: bool,
    pub message: String,
    pub data: Option<T>,
}

impl<T> ApiSuccess<T> {
    /// A success response carrying data.
    pub fn new(message: String, data: T) -> (r: ApiSuccess<T>)
        ensures
            r.success == true,
            r.message == message,
            r.data == Some(data),
    {
        ApiSuccess { success: true, message, data: Some(data) }
    }

    /// A success response with a message only.
    pub fn new_without_data(message: String) -> (r: ApiSuccess<()>)
        ensures
            r.success == true,
            r.message == message,
            r.data is None,
    {
        ApiSuccess { success: true, message, data: None }
    }

    /// A success response around data, with the stock message.
    pub fn from_data(data: T) -> (r: ApiSuccess<T>)
        ensures
            r.success == true,
            r.message@ == "Success"@,
            r.data == Some(data),
    {
        ApiSuccess { success: true, message: String::from_str("Success"), data: Some(data) }
    }
}

} // verus!
