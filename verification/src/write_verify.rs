//! The write-and-verify action: what a writer is asked to do, the events it reports
//! back, and the errors it can end with.

use std::path::PathBuf;
use vstd::prelude::*;

use crate::compression::CompressionFormat;
use crate::device::Type;
use crate::external::{io_error_is_permission_denied, io_error_kind_is_permission_denied, io_error_text};

verus! {

/// Write an image to a target, and verify it afterwards if asked to.
#[derive(Debug, Clone, PartialEq, Eq)]
pub struct WriteVerifyAction {
    pub dest: PathBuf,
    pub src: PathBuf,
    pub verify: bool,
    pub compression: CompressionFormat,
    pub target_type: Type,
    pub block_size: Option<u64>,
}

/// Information reported once a writer has started.
#[derive(Debug, Clone, Copy, PartialEq, Eq, Structural)]
pub struct WriteVerifyStart {
    pub input_file_bytes: u64,
}

/// An event reported by a writer.
#[derive(Debug, Clone, PartialEq, Eq)]
pub enum WriteVerifyEvent {
    InitSuccess(WriteVerifyStart),
    TotalBytes { src: u64, dest: u64 },
    FinishedWriting { verifying: bool },
    BlockSizeChanged(u64),
    BlockSizeSpeedInfo { blocks_written: usize, block_size: usize, duration_millis: u64 },
    Success,
    Error(LegacyWriteVerifyError),
}

impl WriteVerifyEvent {
    /// The start information, if this is the event that reports it; otherwise
    /// the event itself.
    pub fn downcast_as_initial_info(self) -> (r: Result<WriteVerifyStart, WriteVerifyEvent>)
        ensures
            match self {
                WriteVerifyEvent::InitSuccess(e) => r == Ok::<WriteVerifyStart, WriteVerifyEvent>(e),
                _ => r == Err::<WriteVerifyStart, WriteVerifyEvent>(self),
            },
    {
        match self {
            WriteVerifyEvent::InitSuccess(e) => Ok(e),
            other => Err(other),
        }
    }

    /// The failure, if this event reports one; otherwise the event itself.
    pub fn downcast_as_failure(self) -> (r: Result<LegacyWriteVerifyError, WriteVerifyEvent>)
        ensures
            match self {
                WriteVerifyEvent::Error(e) => r == Ok::<LegacyWriteVerifyError, WriteVerifyEvent>(e),
                _ => r == Err::<LegacyWriteVerifyError, WriteVerifyEvent>(self),
            },
    {
        match self {
            WriteVerifyEvent::Error(e) => Ok(e),
            other => Err(other),
        }
    }
}

/// The ways a write or a verification can fail.
#[derive(Debug, Clone, PartialEq, Eq)]
pub enum LegacyWriteVerifyError {
    EndOfOutput,
    PermissionDenied,
    VerificationFailed,
    UnexpectedTermination,
    UnknownChildProcError(String),
    FailedToUnmount { message: String, exit_code: i32 },
}

/// The decimal digits of `n`, most significant first.
pub open spec fn decimal_digits(n: nat) -> Seq<char>
    decreases n,
{
    let digit = (n % 10 + 48) as char;
    if n < 10 {
        seq![digit]
    } else {
        decimal_digits(n / 10).push(digit)
    }
}

/// How an `i32` is written in decimal, with a leading `-` when it is negative.
pub open spec fn decimal_text(n: i32) -> Seq<char> {
    if n < 0 {
        seq!['-'] + decimal_digits((-n) as nat)
    } else {
        decimal_digits(n as nat)
    }
}

/// The text of the decimal digit `d`.
fn digit_text(d: u64) -> (s: &'static str)
    requires
        d < 10,
    ensures
        s@ == seq![(d + 48) as char],
{
    match d {
        0 => {
            proof {
                reveal_strlit("0");
            }
            "0"
        },
        1 => {
            proof {
                reveal_strlit("1");
            }
            "1"
        },
        2 => {
            proof {
                reveal_strlit("2");
            }
            "2"
        },
        3 => {
            proof {
                reveal_strlit("3");
            }
            "3"
        },
        4 => {
            proof {
                reveal_strlit("4");
            }
            "4"
        },
        5 => {
            proof {
                reveal_strlit("5");
            }
            "5"
        },
        6 => {
            proof {
                reveal_strlit("6");
            }
            "6"
        },
        7 => {
            proof {
                reveal_strlit("7");
            }
            "7"
        },
        8 => {
            proof {
                reveal_strlit("8");
            }
            "8"
        },
        _ => {
            proof {
                reveal_strlit("9");
            }
            "9"
        },
    }
}

/// Appends the decimal digits of `n` to `out`.
fn push_decimal_digits(out: &mut String, n: u64)
    ensures
        final(out)@ == old(out)@ + decimal_digits(n as nat),
    decreases n,
{
    if n >= 10 {
        push_decimal_digits(out, n / 10);
    }
    out.append(digit_text(n % 10));
    proof {
        let digit = ((n % 10) + 48) as char;
        if n < 10 {
            assert(decimal_digits(n as nat) == seq![digit]);
        } else {
            assert(decimal_digits(n as nat) == decimal_digits((n / 10) as nat).push(digit));
        }
    }
}

/// The decimal form of an `i32`, as `Display` writes it.
fn i32_to_text(n: i32) -> (s: String)
    ensures
        s@ == decimal_text(n),
{
    let mut out = String::new();
    if n < 0 {
        proof {
            reveal_strlit("-");
        }
        out.append("-");
        let magnitude: i64 = -(n as i64);
        push_decimal_digits(&mut out, magnitude as u64);
    } else {
        push_decimal_digits(&mut out, n as u64);
    }
    out
}

/// The message shown for each error.
pub open spec fn error_message(e: LegacyWriteVerifyError) -> Seq<char> {
    match e {
        LegacyWriteVerifyError::EndOfOutput =>
            "Unexpected end of output file. Is your output file too small?"@,
        LegacyWriteVerifyError::PermissionDenied => "Permission denied while opening file"@,
        LegacyWriteVerifyError::VerificationFailed => "Disk verification failed!"@,
        LegacyWriteVerifyError::UnexpectedTermination =>
            "The child process unexpectedly terminated!"@,
        LegacyWriteVerifyError::UnknownChildProcError(s) =>
            "Unknown error occurred in child process: "@ + s@,
        LegacyWriteVerifyError::FailedToUnmount { message, exit_code } =>
            "Failed to unmount disk (exit code "@ + decimal_text(exit_code) + ")\n"@ + message@,
    }
}

impl LegacyWriteVerifyError {
    /// The message describing this error to a user.
    pub fn message(&self) -> (m: String)
        ensures
            m@ == error_message(*self),
    {
        match self {
            LegacyWriteVerifyError::EndOfOutput => String::from_str(
                "Unexpected end of output file. Is your output file too small?",
            ),
            LegacyWriteVerifyError::PermissionDenied => String::from_str(
                "Permission denied while opening file",
            ),
            LegacyWriteVerifyError::VerificationFailed => String::from_str(
                "Disk verification failed!",
            ),
            LegacyWriteVerifyError::UnexpectedTermination => String::from_str(
                "The child process unexpectedly terminated!",
            ),
            LegacyWriteVerifyError::UnknownChildProcError(s) => {
                let mut m = String::from_str("Unknown error occurred in child process: ");
                m.append(s.as_str());
                m
            },
            LegacyWriteVerifyError::FailedToUnmount { message, exit_code } => {
                let mut m = String::from_str("Failed to unmount disk (exit code ");
                let code = i32_to_text(*exit_code);
                m.append(code.as_str());
                m.append(")\n");
                m.append(message.as_str());
                m
            },
        }
    }

    /// The error for a failed I/O operation, given whether it failed for lack of
    /// permission and the text describing it.
    pub fn from_io_parts(permission_denied: bool, text: String) -> (e: LegacyWriteVerifyError)
        ensures
            permission_denied ==> e == LegacyWriteVerifyError::PermissionDenied,
            !permission_denied ==> e == LegacyWriteVerifyError::UnknownChildProcError(text),
    {
        if permission_denied {
            LegacyWriteVerifyError::PermissionDenied
        } else {
            LegacyWriteVerifyError::UnknownChildProcError(text)
        }
    }

    /// The error for a failed I/O operation: `PermissionDenied` for a permission
    /// failure, and otherwise an unknown child process error carrying the error's
    /// text.
    pub fn from(value: std::io::Error) -> (e: LegacyWriteVerifyError)
        ensures
            io_error_kind_is_permission_denied(value) <==> e == LegacyWriteVerifyError::PermissionDenied,
            !io_error_kind_is_permission_denied(value) ==> e is UnknownChildProcError,
    {
        let permission_denied = io_error_is_permission_denied(&value);
        if permission_denied {
            LegacyWriteVerifyError::from_io_parts(true, String::new())
        } else {
            LegacyWriteVerifyError::from_io_parts(false, io_error_text(&value))
        }
    }
}

} // verus!
