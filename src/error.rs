//! Error values shared by the readers and checklists.

use vstd::prelude::*;
use vstd::string::*;
use crate::text::{concat2, concat4};

verus! {

/// What went wrong, for structured error reporting.
#[derive(Clone, Copy, Debug, PartialEq, Eq, Structural)]
pub enum ErrorCode {
    /// The file does not exist.
    FileNotFound,
    /// The archive is malformed: bad magic, a header field that is not
    /// hexadecimal, text that must be strict UTF-8 and is not.
    InvalidFormat,
    /// A symlink whose target is missing.
    SymlinkBroken,
    /// A required item is missing.
    MissingRequired,
    /// The byte source could not be read.
    IoError,
    /// An external tool failed.
    ExternalToolFailed,
    /// Tool output could not be parsed.
    ParseError,
    /// A verification did not pass.
    VerificationFailed,
    /// The archive format is not supported.
    UnsupportedFormat,
    /// An argument was invalid.
    InvalidArgument,
    /// The stream ended before a header, name or content was complete.
    UnexpectedEndOfStream,
}

/// The short code that reports print for each kind of error.
pub open spec fn code_text(c: ErrorCode) -> Seq<char> {
    match c {
        ErrorCode::FileNotFound => "E001"@,
        ErrorCode::InvalidFormat => "E002"@,
        ErrorCode::SymlinkBroken => "E003"@,
        ErrorCode::MissingRequired => "E004"@,
        ErrorCode::IoError => "E005"@,
        ErrorCode::ExternalToolFailed => "E006"@,
        ErrorCode::ParseError => "E007"@,
        ErrorCode::VerificationFailed => "E008"@,
        ErrorCode::UnsupportedFormat => "E009"@,
        ErrorCode::InvalidArgument => "E010"@,
        ErrorCode::UnexpectedEndOfStream => "E011"@,
    }
}

impl ErrorCode {
    /// The short code printed in reports (`E001` ... `E011`).
    pub fn code_str(&self) -> (r: &'static str)
        ensures
            r@ == code_text(*self),
    {
        match self {
            ErrorCode::FileNotFound => "E001",
            ErrorCode::InvalidFormat => "E002",
            ErrorCode::SymlinkBroken => "E003",
            ErrorCode::MissingRequired => "E004",
            ErrorCode::IoError => "E005",
            ErrorCode::ExternalToolFailed => "E006",
            ErrorCode::ParseError => "E007",
            ErrorCode::VerificationFailed => "E008",
            ErrorCode::UnsupportedFormat => "E009",
            ErrorCode::InvalidArgument => "E010",
            ErrorCode::UnexpectedEndOfStream => "E011",
        }
    }
}

/// The error type of the library: a code, a message and, where one is
/// concerned, the path of the file.
#[derive(Debug)]
pub struct FsdbgError {
    pub code: ErrorCode,
    pub message: String,
    pub path: Option<String>,
}

impl FsdbgError {
    pub fn new(code: ErrorCode, message: &str) -> (r: Self)
        ensures
            r.code == code,
            r.message@ == message@,
            r.path.is_none(),
    {
        FsdbgError { code, message: String::from_str(message), path: None }
    }

    /// The same error, with the path of the file concerned.
    pub fn with_path(self, path: &str) -> (r: Self)
        ensures
            r.code == self.code,
            r.message@ == self.message@,
            r.path matches Some(p) && p@ == path@,
    {
        FsdbgError { code: self.code, message: self.message, path: Some(String::from_str(path)) }
    }

    pub fn file_not_found(path: &str) -> (r: Self)
        ensures
            r.code == ErrorCode::FileNotFound,
            r.message@ == "File not found: "@ + path@,
            r.path matches Some(p) && p@ == path@,
    {
        let message = concat2("File not found: ", path);
        FsdbgError::new(ErrorCode::FileNotFound, message.as_str()).with_path(path)
    }

    pub fn invalid_format(message: &str) -> (r: Self)
        ensures
            r.code == ErrorCode::InvalidFormat,
            r.message@ == message@,
            r.path.is_none(),
    {
        FsdbgError::new(ErrorCode::InvalidFormat, message)
    }

    pub fn symlink_broken(link: &str, target: &str) -> (r: Self)
        ensures
            r.code == ErrorCode::SymlinkBroken,
            r.message@ == "Broken symlink: "@ + link@ + " -> "@ + target@,
            r.path.is_none(),
    {
        let message = concat4("Broken symlink: ", link, " -> ", target);
        FsdbgError::new(ErrorCode::SymlinkBroken, message.as_str())
    }

    pub fn missing_required(item: &str) -> (r: Self)
        ensures
            r.code == ErrorCode::MissingRequired,
            r.message@ == "Missing required: "@ + item@,
            r.path.is_none(),
    {
        let message = concat2("Missing required: ", item);
        FsdbgError::new(ErrorCode::MissingRequired, message.as_str())
    }

    pub fn external_tool_failed(tool: &str, message: &str) -> (r: Self)
        ensures
            r.code == ErrorCode::ExternalToolFailed,
            r.message@ == tool@ + " failed: "@ + message@,
            r.path.is_none(),
    {
        let text = concat4(tool, " failed: ", message, "");
        proof {
            reveal_strlit("");
            assert(tool@ + " failed: "@ + message@ + ""@ =~= tool@ + " failed: "@ + message@);
        }
        FsdbgError::new(ErrorCode::ExternalToolFailed, text.as_str())
    }

    pub fn unsupported_format(format: &str) -> (r: Self)
        ensures
            r.code == ErrorCode::UnsupportedFormat,
            r.message@ == "Unsupported format: "@ + format@,
            r.path.is_none(),
    {
        let message = concat2("Unsupported format: ", format);
        FsdbgError::new(ErrorCode::UnsupportedFormat, message.as_str())
    }

    /// The error as one line of text: `[E002] message`, followed by
    /// ` (path)` where a path is recorded.
    pub fn describe(&self) -> (r: String)
        ensures
            r@ == "["@ + code_text(self.code) + "] "@ + self.message@ + match self.path {
                Some(p) => " ("@ + p@ + ")"@,
                None => ""@,
            },
    {
        let mut s = concat4("[", self.code.code_str(), "] ", self.message.as_str());
        match &self.path {
            Some(p) => {
                s.append(" (");
                s.append(p.as_str());
                s.append(")");
            },
            None => {
                proof {
                    reveal_strlit("");
                    assert(s@ + ""@ =~= s@);
                }
            },
        }
        s
    }
}

} // verus!
