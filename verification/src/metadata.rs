//! What accompanies the messages of a call.
use vstd::prelude::*;

use crate::status::{canonical, Code, Status};

verus! {

/// The metadata of a call: names and values, in order.
#[derive(Debug)]
pub struct MetadataMap {
    pub entries: Vec<(String, Vec<u8>)>,
}

impl Default for MetadataMap {
    /// No metadata.
    fn default() -> (r: Self)
        ensures
            r.entries@.len() == 0,
    {
        MetadataMap { entries: Vec::new() }
    }
}

/// What starts a call: the method that is called, and metadata.
#[derive(Debug)]
pub struct RequestHeaders {
    pub method_name: String,
    pub metadata: MetadataMap,
}

impl Default for RequestHeaders {
    /// No method name and no metadata.
    fn default() -> (r: Self)
        ensures
            r.method_name@.len() == 0,
            r.metadata.entries@.len() == 0,
    {
        RequestHeaders { method_name: String::new(), metadata: MetadataMap::default() }
    }
}

impl RequestHeaders {
    /// No method name and no metadata.
    pub fn new() -> (r: Self)
        ensures
            r.method_name@.len() == 0,
            r.metadata.entries@.len() == 0,
    {
        RequestHeaders::default()
    }

    /// These headers, with the given method name.
    pub fn with_method_name(self, method_name: String) -> (r: Self)
        ensures
            r == (RequestHeaders { method_name, metadata: self.metadata }),
    {
        RequestHeaders { method_name, metadata: self.metadata }
    }

    /// These headers, with the given metadata.
    pub fn with_metadata(self, metadata: MetadataMap) -> (r: Self)
        ensures
            r == (RequestHeaders { method_name: self.method_name, metadata }),
    {
        RequestHeaders { method_name: self.method_name, metadata }
    }
}

/// What starts a response: metadata.
#[derive(Debug)]
pub struct ResponseHeaders {
    pub metadata: MetadataMap,
}

/// Why a call failed, as the transport reports it: the number of a status code, and a message.
#[derive(Debug)]
pub struct StatusError {
    pub code: i32,
    pub message: String,
}

impl StatusError {
    /// Whether `status` reports this error: it has the code with the error's number, and the error's
    /// message.
    pub open spec fn reported_by(self, status: Status) -> bool {
        status.code.number() == canonical(self.code) && status.message == self.message
    }

    /// The status that reports this error.
    pub fn into_status(self) -> (r: Status)
        ensures
            self.reported_by(r),
    {
        Status::new(Code::from_i32(self.code), self.message)
    }
}

/// What ends a response: metadata, and how the call went.
#[derive(Debug)]
pub struct Trailers {
    pub metadata: MetadataMap,
    pub status: Result<(), StatusError>,
}

/// What a call's response stream delivers, one at a time. The bytes of a message are delivered
/// beside it.
#[derive(Debug)]
pub enum ResponseStreamItem {
    Headers(ResponseHeaders),
    Message,
    Trailers(Trailers),
    StreamClosed,
}

/// The status that reports an error says what the error says: its message, and the code with its
/// number. Only where no code has that number, the code is `Unknown`.
pub proof fn errors_are_reported_as_they_are(error: StatusError, status: Status)
    requires
        error.reported_by(status),
    ensures
        status.message@ == error.message@,
        0 <= error.code <= 16 ==> status.code.number() == error.code,
        !(0 <= error.code <= 16) ==> status.code == Code::Unknown,
        error.code == 5 ==> status.code == Code::NotFound,
        error.code == 12 ==> status.code == Code::Unimplemented,
        error.code == 13 ==> status.code == Code::Internal,
{
}

} // verus!
