//! The target resolver: from captured probe output to a target triple.
//!
//! [`resolve_target`] takes the bytes captured from the standard output
//! of `rustc -vV`, decodes them as UTF-8, and extracts the value of the
//! first `host: ` line. Each failure is reported with its kind: invalid
//! UTF-8 as a decode failure, a missing host line as a parse failure.
//! Spawning the probe process is the caller's business; a failure to
//! spawn is reported by building an [`Error`] of kind
//! [`ErrorKind::Spawn`] directly.

use vstd::prelude::*;
use vstd::utf8::{decode_utf8, valid_utf8};

use crate::errors::{Error, ErrorKind};
use crate::parse::{extract_host, find_host_value};

verus! {

/// The fixed message carried by a parse failure.
pub open spec fn parse_error_text() -> Seq<char> {
    "Failed to parse target from rustc output."@
}

/// The fixed message carried by a decode failure.
pub open spec fn decode_error_text() -> Seq<char> {
    "rustc output was not valid UTF-8."@
}

/// What resolution yields on given probe bytes: the host value of the
/// decoded text, a decode failure on invalid UTF-8 (whatever the bytes
/// would otherwise hold), or a parse failure when no host line exists.
pub open spec fn spec_resolve(bytes: Seq<u8>) -> Result<Seq<char>, ErrorKind> {
    if !valid_utf8(bytes) {
        Err(ErrorKind::Decode)
    } else {
        match extract_host(decode_utf8(bytes)) {
            Some(value) => Ok(value),
            None => Err(ErrorKind::Parse),
        }
    }
}

/// Invalid UTF-8 fails resolution with a decode error, whatever the
/// bytes would otherwise spell out.
pub proof fn lemma_resolve_decode_error_first(bytes: Seq<u8>)
    requires
        !valid_utf8(bytes),
    ensures
        spec_resolve(bytes) == Err::<Seq<char>, ErrorKind>(ErrorKind::Decode),
{
}

/// On decodable output, resolution succeeds exactly when some line of
/// the decoded text begins with `host: `; otherwise it fails with a
/// parse error.
pub proof fn lemma_resolve_success(bytes: Seq<u8>)
    requires
        valid_utf8(bytes),
    ensures
        spec_resolve(bytes) is Ok <==> crate::laws::has_host_line(decode_utf8(bytes)),
        !crate::laws::has_host_line(decode_utf8(bytes)) ==> spec_resolve(bytes)
            == Err::<Seq<char>, ErrorKind>(ErrorKind::Parse),
{
    crate::laws::lemma_extract_host_iff_host_line(decode_utf8(bytes));
}

/// Relies on `std::str::from_utf8`: it succeeds exactly on valid UTF-8
/// input, and the returned string slice views the input bytes, so its
/// characters are their UTF-8 decoding.
#[verifier::external_body]
fn decode_probe_output(bytes: &Vec<u8>) -> (r: Option<String>)
    ensures
        r is Some <==> valid_utf8(bytes@),
        r matches Some(text) ==> text@ == decode_utf8(bytes@),
{
    match std::str::from_utf8(bytes.as_slice()) {
        Ok(text) => Some(text.to_string()),
        Err(_) => None,
    }
}

/// Decodes the captured probe output and returns the default target
/// triple: the value of the first `host: ` line, exactly as it stands.
pub fn resolve_target(probe_output: &Vec<u8>) -> (r: Result<String, Error>)
    ensures
        r matches Ok(target) ==> spec_resolve(probe_output@) == Ok::<Seq<char>, ErrorKind>(
            target@,
        ),
        r matches Err(e) ==> {
            &&& spec_resolve(probe_output@) == Err::<Seq<char>, ErrorKind>(e.kind)
            &&& e.kind == ErrorKind::Decode ==> e.details@ == decode_error_text()
            &&& e.kind == ErrorKind::Parse ==> e.details@ == parse_error_text()
        },
{
    match decode_probe_output(probe_output) {
        None => Err(Error::new(ErrorKind::Decode, "rustc output was not valid UTF-8.")),
        Some(text) => match find_host_value(text.as_str()) {
            Some(value) => Ok(value),
            None => Err(Error::new(ErrorKind::Parse, "Failed to parse target from rustc output.")),
        },
    }
}

} // verus!
