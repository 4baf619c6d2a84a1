//! gRPC status codes and statuses.
use vstd::prelude::*;

verus! {

/// The status codes of gRPC.
#[derive(Clone, Copy, Debug, PartialEq, Eq, Hash, Structural)]
pub enum Code {
    OK,
    Cancelled,
    Unknown,
    InvalidArgument,
    DeadlineExceeded,
    NotFound,
    AlreadyExists,
    PermissionDenied,
    ResourceExhausted,
    FailedPrecondition,
    Aborted,
    OutOfRange,
    Unimplemented,
    Internal,
    Unavailable,
    DataLoss,
    Unauthenticated,
}

/// What `tonic::Code` makes of a number: the number itself where a code has it, and the number of
/// `Unknown` for all others.
pub open spec fn canonical(i: i32) -> i32 {
    if 0 <= i <= 16 {
        i
    } else {
        2
    }
}

/// `tonic::Code::from_i32`, and `i32::from` of the code that it returns. The number comes back
/// where a code has it; any other number comes back as that of `Code::Unknown`.
#[verifier::external_body]
fn canonical_number(i: i32) -> (r: i32)
    ensures
        r == canonical(i),
{
    i32::from(tonic::Code::from_i32(i))
}

impl Code {
    /// The number of a code on the wire.
    pub open spec fn number(self) -> i32 {
        match self {
            Code::OK => 0,
            Code::Cancelled => 1,
            Code::Unknown => 2,
            Code::InvalidArgument => 3,
            Code::DeadlineExceeded => 4,
            Code::NotFound => 5,
            Code::AlreadyExists => 6,
            Code::PermissionDenied => 7,
            Code::ResourceExhausted => 8,
            Code::FailedPrecondition => 9,
            Code::Aborted => 10,
            Code::OutOfRange => 11,
            Code::Unimplemented => 12,
            Code::Internal => 13,
            Code::Unavailable => 14,
            Code::DataLoss => 15,
            Code::Unauthenticated => 16,
        }
    }

    /// The code with the given number; `Unknown` where no code has it.
    pub fn from_i32(i: i32) -> (r: Code)
        ensures
            r.number() == canonical(i),
    {
        match canonical_number(i) {
            0 => Code::OK,
            1 => Code::Cancelled,
            3 => Code::InvalidArgument,
            4 => Code::DeadlineExceeded,
            5 => Code::NotFound,
            6 => Code::AlreadyExists,
            7 => Code::PermissionDenied,
            8 => Code::ResourceExhausted,
            9 => Code::FailedPrecondition,
            10 => Code::Aborted,
            11 => Code::OutOfRange,
            12 => Code::Unimplemented,
            13 => Code::Internal,
            14 => Code::Unavailable,
            15 => Code::DataLoss,
            16 => Code::Unauthenticated,
            _ => Code::Unknown,
        }
    }
}

/// How a call failed: a code, and a message for people.
#[derive(Debug)]
pub struct Status {
    pub code: Code,
    pub message: String,
}

impl Status {
    /// Whether this status has the given code and message.
    pub open spec fn is_status(self, code: Code, message: Seq<char>) -> bool {
        self.code == code && self.message@ == message
    }

    /// A status with the given code and message.
    pub fn new(code: Code, message: String) -> (r: Status)
        ensures
            r == (Status { code, message }),
    {
        Status { code, message }
    }

    /// A status that says that an operation is not supported.
    pub fn unimplemented(message: &str) -> (r: Status)
        ensures
            r.is_status(Code::Unimplemented, message@),
    {
        Status { code: Code::Unimplemented, message: message.to_owned() }
    }

    /// A status that says that something was broken inside.
    pub fn internal(message: &str) -> (r: Status)
        ensures
            r.is_status(Code::Internal, message@),
    {
        Status { code: Code::Internal, message: message.to_owned() }
    }

    /// The code of this status.
    pub fn code(&self) -> (r: Code)
        ensures
            r == self.code,
    {
        self.code
    }

    /// The message of this status.
    pub fn message(&self) -> (r: &str)
        ensures
            r@ == self.message@,
    {
        self.message.as_str()
    }
}

/// Two codes with one number are one code.
pub proof fn code_numbers_are_distinct(a: Code, b: Code)
    requires
        a.number() == b.number(),
    ensures
        a == b,
{
}

/// A number between 0 and 16 is that of a code, which comes back under it; every other number is
/// taken for that of `Unknown`.
pub proof fn numbers_stay_themselves(i: i32, r: Code)
    requires
        r.number() == canonical(i),
    ensures
        0 <= i <= 16 ==> r.number() == i,
        !(0 <= i <= 16) ==> r == Code::Unknown,
        i == 0 <==> r == Code::OK,
        i == 1 <==> r == Code::Cancelled,
        i == 2 ==> r == Code::Unknown,
        i == 3 <==> r == Code::InvalidArgument,
        i == 4 <==> r == Code::DeadlineExceeded,
        i == 5 <==> r == Code::NotFound,
        i == 6 <==> r == Code::AlreadyExists,
        i == 7 <==> r == Code::PermissionDenied,
        i == 8 <==> r == Code::ResourceExhausted,
        i == 9 <==> r == Code::FailedPrecondition,
        i == 10 <==> r == Code::Aborted,
        i == 11 <==> r == Code::OutOfRange,
        i == 12 <==> r == Code::Unimplemented,
        i == 13 <==> r == Code::Internal,
        i == 14 <==> r == Code::Unavailable,
        i == 15 <==> r == Code::DataLoss,
        i == 16 <==> r == Code::Unauthenticated,
{
}

/// A status has the code and the message that are asked of it, and no other status has.
pub proof fn a_status_is_its_code_and_message(status: Status, code: Code, message: Seq<char>)
    ensures
        status.is_status(code, message) <==> status.code == code && status.message@ == message,
{
}

} // verus!
