//! The errors of the vault and the exit codes of the program.
//!
//! A wrong password and a damaged file give one and the same error, so that the
//! answer tells an attacker nothing about which check failed.
use crate::text::concat_str;
use vstd::prelude::*;

verus! {

#[verifier::external_type_specification]
#[verifier::external_body]
pub struct ExIoError(std::io::Error);

/// The one message of a wrong password or a damaged file.
pub const ERR_BAD_PASSWORD_OR_CORRUPTED: &'static str = "ERR_BAD_PASSWORD_OR_CORRUPTED";

/// What a vault operation can fail with.
#[derive(Debug)]
#[non_exhaustive]
pub enum VaultError {
    /// A wrong password or a damaged or changed file; the two are not told apart.
    BadPasswordOrCorrupted,
    /// A file that is not a valid vault, or a request that cannot be met, with the reason.
    InvalidStructure(String),
    /// An error of the operating system.
    Io(std::io::Error),
    /// A command that is not implemented yet.
    NotImplemented(&'static str),
}

/// A vault error as contracts see it: an I/O error is seen without its contents.
pub enum VaultErrorView {
    BadPasswordOrCorrupted,
    InvalidStructure(Seq<char>),
    Io,
    NotImplemented(Seq<char>),
}

impl View for VaultError {
    type V = VaultErrorView;

    open spec fn view(&self) -> VaultErrorView {
        match self {
            VaultError::BadPasswordOrCorrupted => VaultErrorView::BadPasswordOrCorrupted,
            VaultError::InvalidStructure(why) => VaultErrorView::InvalidStructure(why@),
            VaultError::Io(_) => VaultErrorView::Io,
            VaultError::NotImplemented(what) => VaultErrorView::NotImplemented(what@),
        }
    }
}

/// The exit code of the program for an error.
pub open spec fn exit_code_of(e: VaultErrorView) -> i32 {
    match e {
        VaultErrorView::BadPasswordOrCorrupted => 2,
        VaultErrorView::InvalidStructure(_) => 3,
        VaultErrorView::Io => 4,
        VaultErrorView::NotImplemented(_) => 64,
    }
}

/// The message of an error. That of an I/O error is `ERR_IO: ` followed by the
/// operating system's description, which `io_text` stands for.
pub open spec fn error_message(e: VaultErrorView, io_text: Seq<char>) -> Seq<char> {
    match e {
        VaultErrorView::BadPasswordOrCorrupted => "ERR_BAD_PASSWORD_OR_CORRUPTED"@,
        VaultErrorView::InvalidStructure(why) => "ERR_INVALID_STRUCTURE: "@ + why,
        VaultErrorView::Io => "ERR_IO: "@ + io_text,
        VaultErrorView::NotImplemented(what) => "ERR_NOT_IMPLEMENTED: "@ + what,
    }
}

/// The description of an I/O error, through its `Display` impl in std.
/// Nothing is said of the text: it comes from the operating system.
#[verifier::external_body]
fn io_error_text(e: &std::io::Error) -> String {
    e.to_string()
}

impl VaultError {
    /// The exit code: 2 for a wrong password or a damaged file, 3 for an invalid
    /// structure, 4 for an I/O error and 64 for what is not implemented.
    pub fn exit_code(&self) -> (r: i32)
        ensures
            r == exit_code_of(self@),
    {
        match self {
            VaultError::BadPasswordOrCorrupted => 2,
            VaultError::InvalidStructure(_) => 3,
            VaultError::Io(_) => 4,
            VaultError::NotImplemented(_) => 64,
        }
    }

    /// The message that the program prints for the error.
    pub fn message(&self) -> (r: String)
        ensures
            self@ is Io ==> exists|io_text: Seq<char>| r@ == error_message(self@, io_text),
            !(self@ is Io) ==> r@ == error_message(self@, Seq::empty()),
    {
        match self {
            VaultError::BadPasswordOrCorrupted => ERR_BAD_PASSWORD_OR_CORRUPTED.to_owned(),
            VaultError::InvalidStructure(why) => concat_str("ERR_INVALID_STRUCTURE: ", why.as_str()),
            VaultError::Io(e) => {
                let text = io_error_text(e);
                let r = concat_str("ERR_IO: ", text.as_str());
                assert(r@ == error_message(self@, text@));
                r
            },
            VaultError::NotImplemented(what) => concat_str("ERR_NOT_IMPLEMENTED: ", what),
        }
    }

    /// Whether the error wraps an underlying error (only an I/O error does).
    pub fn has_source(&self) -> (r: bool)
        ensures
            r == (self@ is Io),
    {
        match self {
            VaultError::Io(_) => true,
            _ => false,
        }
    }
}

impl From<std::io::Error> for VaultError {
    fn from(e: std::io::Error) -> (r: Self) {
        VaultError::Io(e)
    }
}

impl vstd::std_specs::convert::FromSpecImpl<std::io::Error> for VaultError {
    open spec fn obeys_from_spec() -> bool {
        true
    }

    open spec fn from_spec(v: std::io::Error) -> Self {
        VaultError::Io(v)
    }
}

} // verus!
