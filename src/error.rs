use vstd::prelude::*;

verus! {

/// Error kinds reported by the library.
///
/// All kinds but `Utf8` correspond one to one to a status code of the
/// channel; `Utf8` reports bytes that were expected to be text and are not
/// well-formed UTF-8.
#[derive(Debug, Clone, Copy, PartialEq, Eq, Structural)]
pub enum Error {
    Failure,
    Retry,
    Busy,
    Fatal,
    Invalid,
    Unsupported,
    Parse,
    Range,
    OutOfMemory,
    NoConn,
    NoData,
    NoEntry,
    Config,
    Remote,
    Expected,
    Timeout,
    Utf8,
}

/// The status code that the channel uses for success.
pub const STATUS_OK: u32 = 0;

/// What a channel status code means: `0` is success, each known code is its
/// error kind, and a code the library does not know is a general failure.
pub open spec fn status_result(code: u32) -> Result<(), Error> {
    if code == 0 {
        Ok(())
    } else if code == 2 {
        Err(Error::Retry)
    } else if code == 3 {
        Err(Error::Busy)
    } else if code == 4 {
        Err(Error::Fatal)
    } else if code == 5 {
        Err(Error::Invalid)
    } else if code == 6 {
        Err(Error::Unsupported)
    } else if code == 7 {
        Err(Error::Parse)
    } else if code == 8 {
        Err(Error::Range)
    } else if code == 9 {
        Err(Error::OutOfMemory)
    } else if code == 10 {
        Err(Error::NoConn)
    } else if code == 11 {
        Err(Error::NoData)
    } else if code == 12 {
        Err(Error::NoEntry)
    } else if code == 13 {
        Err(Error::Config)
    } else if code == 14 {
        Err(Error::Remote)
    } else if code == 15 {
        Err(Error::Expected)
    } else if code == 16 {
        Err(Error::Timeout)
    } else {
        Err(Error::Failure)
    }
}

/// The status code that reports an error kind to the channel. Text that is
/// not UTF-8 is reported as a parse error.
pub open spec fn error_code(e: Error) -> u32 {
    match e {
        Error::Failure => 1,
        Error::Retry => 2,
        Error::Busy => 3,
        Error::Fatal => 4,
        Error::Invalid => 5,
        Error::Unsupported => 6,
        Error::Parse => 7,
        Error::Range => 8,
        Error::OutOfMemory => 9,
        Error::NoConn => 10,
        Error::NoData => 11,
        Error::NoEntry => 12,
        Error::Config => 13,
        Error::Remote => 14,
        Error::Expected => 15,
        Error::Timeout => 16,
        Error::Utf8 => 7,
    }
}

/// The status code for an outcome: `0` for success, else the error's code.
pub open spec fn status_code(r: Result<(), Error>) -> u32 {
    match r {
        Ok(()) => 0,
        Err(e) => error_code(e),
    }
}

/// Turns a status code of the channel into a result.
pub fn from_status(code: u32) -> (r: Result<(), Error>)
    ensures
        r == status_result(code),
{
    match code {
        0 => Ok(()),
        2 => Err(Error::Retry),
        3 => Err(Error::Busy),
        4 => Err(Error::Fatal),
        5 => Err(Error::Invalid),
        6 => Err(Error::Unsupported),
        7 => Err(Error::Parse),
        8 => Err(Error::Range),
        9 => Err(Error::OutOfMemory),
        10 => Err(Error::NoConn),
        11 => Err(Error::NoData),
        12 => Err(Error::NoEntry),
        13 => Err(Error::Config),
        14 => Err(Error::Remote),
        15 => Err(Error::Expected),
        16 => Err(Error::Timeout),
        _ => Err(Error::Failure),
    }
}

/// Turns an outcome into the status code handed back to the channel.
pub fn to_status(r: &Result<(), Error>) -> (code: u32)
    ensures
        code == status_code(*r),
{
    match r {
        Ok(()) => STATUS_OK,
        Err(e) => match e {
            Error::Failure => 1,
            Error::Retry => 2,
            Error::Busy => 3,
            Error::Fatal => 4,
            Error::Invalid => 5,
            Error::Unsupported => 6,
            Error::Parse => 7,
            Error::Range => 8,
            Error::OutOfMemory => 9,
            Error::NoConn => 10,
            Error::NoData => 11,
            Error::NoEntry => 12,
            Error::Config => 13,
            Error::Remote => 14,
            Error::Expected => 15,
            Error::Timeout => 16,
            Error::Utf8 => 7,
        },
    }
}

/// Every outcome but a UTF-8 error survives the trip to a status code and
/// back unchanged: the channel's error kinds map one to one.
pub proof fn lemma_status_round_trip(r: Result<(), Error>)
    requires
        r != Err::<(), Error>(Error::Utf8),
    ensures
        status_result(status_code(r)) == r,
{
    match r {
        Ok(u) => {
            assert(status_code(r) == 0);
            assert(r == Ok::<(), Error>(()));
        },
        Err(e) => {
            assert(status_result(error_code(e)) == Err::<(), Error>(e));
        },
    }
}

} // verus!
