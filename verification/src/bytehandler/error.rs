//! Errors of the byte reader and of every decoder built on it.

use vstd::prelude::*;
use vstd::string::StringExecFns;

use crate::text::{decimal_string, decimal_text, hex_byte_string, hex_byte_text};

verus! {

/// Why a byte buffer could not be decoded.
#[derive(Debug)]
pub enum PacketError {
    /// The buffer ended before a field was complete.
    UnexpectedEof {
        /// What was being read.
        reading: &'static str,
        /// How many bytes the field needed.
        needed: usize,
        /// How many bytes were left.
        remaining: usize,
    },
    /// A string field held bytes that are not UTF-8.
    InvalidUtf8 { field: &'static str, source: std::string::FromUtf8Error },
    UnknownPacketType(u8),
    UnknownEventType(u8),
    UnknownRequestType(u8),
    UnknownResponseType(u8),
    /// The version byte was not the one this protocol speaks.
    InvalidVersion { expected: u8, got: u8 },
}

/// A decoding error as a mathematical value: the UTF-8 error's source is
/// left out, the field names are their characters.
pub enum PacketErrorView {
    UnexpectedEof { reading: Seq<char>, needed: nat, remaining: nat },
    InvalidUtf8 { field: Seq<char> },
    UnknownPacketType(u8),
    UnknownEventType(u8),
    UnknownRequestType(u8),
    UnknownResponseType(u8),
    InvalidVersion { expected: u8, got: u8 },
}

impl View for PacketError {
    type V = PacketErrorView;

    open spec fn view(&self) -> PacketErrorView {
        match self {
            PacketError::UnexpectedEof { reading, needed, remaining } => PacketErrorView::UnexpectedEof {
                reading: reading@,
                needed: *needed as nat,
                remaining: *remaining as nat,
            },
            PacketError::InvalidUtf8 { field, source } => PacketErrorView::InvalidUtf8 { field: field@ },
            PacketError::UnknownPacketType(b) => PacketErrorView::UnknownPacketType(*b),
            PacketError::UnknownEventType(b) => PacketErrorView::UnknownEventType(*b),
            PacketError::UnknownRequestType(b) => PacketErrorView::UnknownRequestType(*b),
            PacketError::UnknownResponseType(b) => PacketErrorView::UnknownResponseType(*b),
            PacketError::InvalidVersion { expected, got } => PacketErrorView::InvalidVersion {
                expected: *expected,
                got: *got,
            },
        }
    }
}

/// The result type of the decoders.
pub type PacketResult<T> = Result<T, PacketError>;

/// `ToString::to_string` of a UTF-8 error, which describes where the
/// invalid sequence starts; its text is not claimed here.
#[verifier::external_body]
pub(crate) fn utf8_error_text(e: &std::string::FromUtf8Error) -> (text: String) {
    e.to_string()
}

/// The description of a decoding error, for every error but an invalid
/// UTF-8 one, whose description ends with the UTF-8 error's own.
pub open spec fn packet_error_text(e: PacketErrorView) -> Seq<char> {
    match e {
        PacketErrorView::UnexpectedEof { reading, needed, remaining } => "unexpected EOF while reading `"@
            + reading + "`: needed "@ + decimal_text(needed) + " bytes, had "@ + decimal_text(
            remaining,
        ),
        PacketErrorView::InvalidUtf8 { field } => "invalid UTF-8 in field `"@ + field + "`: "@,
        PacketErrorView::UnknownPacketType(b) => "unknown packet type byte: 0x"@ + hex_byte_text(b),
        PacketErrorView::UnknownEventType(b) => "unknown event subtype byte: 0x"@ + hex_byte_text(
            b,
        ),
        PacketErrorView::UnknownRequestType(b) => "unknown request subtype byte: 0x"@
            + hex_byte_text(b),
        PacketErrorView::UnknownResponseType(b) => "unknown response subtype byte: 0x"@
            + hex_byte_text(b),
        PacketErrorView::InvalidVersion { expected, got } => "protocol version mismatch: expected "@
            + decimal_text(expected as nat) + ", got "@ + decimal_text(got as nat),
    }
}

impl PacketError {
    /// The error's description: `packet_error_text`, followed for an
    /// invalid UTF-8 error by that error's own description.
    pub fn describe(&self) -> (text: String)
        ensures
            !(self@ is InvalidUtf8) ==> text@ == packet_error_text(self@),
            self@ is InvalidUtf8 ==> packet_error_text(self@).is_prefix_of(text@),
    {
        match self {
            PacketError::UnexpectedEof { reading, needed, remaining } => {
                let mut t = "unexpected EOF while reading `".to_owned();
                t.append(reading);
                t.append("`: needed ");
                t.append(decimal_string(*needed).as_str());
                t.append(" bytes, had ");
                t.append(decimal_string(*remaining).as_str());
                t
            },
            PacketError::InvalidUtf8 { field, source } => {
                let mut t = "invalid UTF-8 in field `".to_owned();
                t.append(field);
                t.append("`: ");
                let ghost head = t@;
                t.append(utf8_error_text(source).as_str());
                assert(t@.subrange(0, head.len() as int) =~= head);
                t
            },
            PacketError::UnknownPacketType(b) => {
                let mut t = "unknown packet type byte: 0x".to_owned();
                t.append(hex_byte_string(*b).as_str());
                t
            },
            PacketError::UnknownEventType(b) => {
                let mut t = "unknown event subtype byte: 0x".to_owned();
                t.append(hex_byte_string(*b).as_str());
                t
            },
            PacketError::UnknownRequestType(b) => {
                let mut t = "unknown request subtype byte: 0x".to_owned();
                t.append(hex_byte_string(*b).as_str());
                t
            },
            PacketError::UnknownResponseType(b) => {
                let mut t = "unknown response subtype byte: 0x".to_owned();
                t.append(hex_byte_string(*b).as_str());
                t
            },
            PacketError::InvalidVersion { expected, got } => {
                let mut t = "protocol version mismatch: expected ".to_owned();
                t.append(decimal_string(*expected as usize).as_str());
                t.append(", got ");
                t.append(decimal_string(*got as usize).as_str());
                t
            },
        }
    }
}

} // verus!
