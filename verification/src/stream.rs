//! Trusted boundary to the external record stream.
//!
//! The stream collaborator (a `csv::Reader`) is consumed only through the
//! wrappers below: one reads the header row, one advances the stream by one
//! record. Everything a record contains is handed onward as plain `String`
//! values, so all slicing and view-building logic can be verified.

use vstd::prelude::*;
use std::sync::Arc;

verus! {

#[verifier::external_type_specification]
#[verifier::external_body]
#[verifier::reject_recursive_types(R)]
pub struct ExReader<R>(csv::Reader<R>);

#[verifier::external_type_specification]
#[verifier::external_body]
pub struct ExCsvError(csv::Error);

/// What `str::trim` returns: the result depends on the characters alone.
pub uninterp spec fn trim_of(s: Seq<char>) -> Seq<char>;

/// Relies on str::trim: strips leading and trailing whitespace, a function of
/// the characters alone.
#[verifier::external_body]
pub(crate) fn trim_str(s: &String) -> (r: String)
    ensures
        r@ == trim_of(s@),
{
    s.trim().to_string()
}

/// Relies on alloc::sync::Arc::clone: returns a new handle to the same value.
#[verifier::external_body]
pub(crate) fn arc_clone(a: &Arc<String>) -> (r: Arc<String>)
    ensures
        r == *a,
{
    Arc::clone(a)
}

/// Relies on alloc::sync::Arc's Deref: a handle reads as the value it holds.
#[verifier::external_body]
pub(crate) fn arc_str(a: &Arc<String>) -> (r: &str)
    ensures
        r@ == a@,
{
    a.as_str()
}

/// Relies on csv::Reader::headers: returns the first row of the stream,
/// reading it from the underlying source if it has not been read yet. What it
/// holds depends on that source, so nothing is promised of the contents.
#[verifier::external_body]
pub(crate) fn read_headers<R: std::io::Read>(reader: &mut csv::Reader<R>) -> (r: Result<
    Vec<String>,
    csv::Error,
>) {
    match reader.headers() {
        Ok(rec) => Ok(rec.iter().map(|f| f.to_string()).collect()),
        Err(e) => Err(e),
    }
}

/// Relies on csv::Reader::read_record: advances the stream by one record;
/// `Ok(None)` signals a clean end of stream. What comes back depends on the
/// underlying source, so nothing is promised of the contents.
#[verifier::external_body]
pub(crate) fn read_one_record<R: std::io::Read>(reader: &mut csv::Reader<R>) -> (r: Result<
    Option<Vec<String>>,
    csv::Error,
>) {
    let mut buffer = csv::StringRecord::new();
    match reader.read_record(&mut buffer) {
        Ok(true) => Ok(Some(buffer.iter().map(|f| f.to_string()).collect())),
        Ok(false) => Ok(None),
        Err(e) => Err(e),
    }
}

} // verus!
