//! The boundary to byte sources and sinks.
//!
//! A file's content comes from any `std::io::Read` and goes to any `std::io::Write`. Their
//! methods are called here, in functions whose bodies Verus does not read.
use std::io::{ErrorKind, Read, Write};

use vstd::prelude::*;

verus! {

/// `std::io::Error`, carried through as an opaque value.
#[verifier::external_type_specification]
#[verifier::external_body]
pub struct ExIoError(std::io::Error);

/// `std::io::ErrorKind`, carried through as an opaque value.
#[verifier::external_type_specification]
#[verifier::external_body]
pub struct ExErrorKind(std::io::ErrorKind);

/// The kind that `std::io::Error::kind` reports for an error.
pub uninterp spec fn kind_of(error: std::io::Error) -> ErrorKind;

/// Whether a kind is `ErrorKind::Interrupted`.
pub uninterp spec fn interrupted(kind: ErrorKind) -> bool;

/// The name that the `Debug` implementation of `ErrorKind` prints for a kind.
pub uninterp spec fn kind_name(kind: ErrorKind) -> Seq<char>;

/// `std::io::Error::kind`.
#[verifier::external_body]
pub(crate) fn error_kind(error: &std::io::Error) -> (kind: ErrorKind)
    ensures
        kind == kind_of(*error),
{
    error.kind()
}

/// Tells `ErrorKind::Interrupted` from the other kinds.
#[verifier::external_body]
pub(crate) fn is_interrupted(kind: ErrorKind) -> (yes: bool)
    ensures
        yes == interrupted(kind),
{
    matches!(kind, ErrorKind::Interrupted)
}

/// The `Debug` form of a kind, as `format!` renders it.
#[verifier::external_body]
pub(crate) fn debug_name(kind: ErrorKind) -> (name: String)
    ensures
        name@ == kind_name(kind),
{
    format!("{:?}", kind)
}

/// `Read::read` into the whole of `buffer`. The buffer keeps its length, and the
/// documentation of `Read::read` guarantees that a count it returns does not exceed the
/// length of the buffer it was given.
#[verifier::external_body]
pub(crate) fn read_into<R: Read>(source: &mut R, buffer: &mut Vec<u8>) -> (outcome: Result<
    usize,
    std::io::Error,
>)
    ensures
        final(buffer)@.len() == old(buffer)@.len(),
        outcome matches Ok(count) ==> count <= old(buffer)@.len(),
{
    source.read(buffer.as_mut_slice())
}

/// `Write::write_all`.
#[verifier::external_body]
pub(crate) fn write_all<W: Write>(sink: &mut W, data: &[u8]) -> Result<(), std::io::Error> {
    sink.write_all(data)
}

} // verus!
