//! Errors of the identity code.

use vstd::prelude::*;
use vstd::string::StringExecFns;

verus! {

#[verifier::external_type_specification]
#[verifier::external_body]
pub struct ExIoError(std::io::Error);

#[derive(Debug)]
pub enum CryptoError {
    Io(std::io::Error),
    InvalidKey(String),
    SignatureError(String),
}

/// `ToString::to_string` of an I/O error; its text comes from the
/// operating system and is not claimed here.
#[verifier::external_body]
pub(crate) fn io_error_text(e: &std::io::Error) -> (text: String) {
    e.to_string()
}

impl CryptoError {
    /// The error's description: the kind, then the detail (for an I/O
    /// error, the error's own description).
    pub fn describe(&self) -> (text: String)
        ensures
            self matches CryptoError::InvalidKey(s) ==> text@ == "Invalid key: "@ + s@,
            self matches CryptoError::SignatureError(s) ==> text@ == "Signature error: "@ + s@,
            self is Io ==> "IO error: "@.is_prefix_of(text@),
    {
        match self {
            CryptoError::Io(e) => {
                let mut t = "IO error: ".to_owned();
                let ghost head = t@;
                t.append(io_error_text(e).as_str());
                assert(t@.subrange(0, head.len() as int) =~= head);
                t
            },
            CryptoError::InvalidKey(s) => {
                let mut t = "Invalid key: ".to_owned();
                t.append(s.as_str());
                t
            },
            CryptoError::SignatureError(s) => {
                let mut t = "Signature error: ".to_owned();
                t.append(s.as_str());
                t
            },
        }
    }
}

impl From<std::io::Error> for CryptoError {
    fn from(e: std::io::Error) -> (r: CryptoError) {
        CryptoError::Io(e)
    }
}

impl vstd::std_specs::convert::FromSpecImpl<std::io::Error> for CryptoError {
    open spec fn obeys_from_spec() -> bool {
        true
    }

    open spec fn from_spec(e: std::io::Error) -> CryptoError {
        CryptoError::Io(e)
    }
}

} // verus!
