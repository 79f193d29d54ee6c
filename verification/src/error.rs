//! Errors of the benchmarking harness.
use vstd::prelude::*;
use libloading::Error as LibraryError;
use std::io::Error as IoError;
use std::str::Utf8Error;

verus! {

/// `libloading::Error`: the failure to load a benchmark library or one of its symbols.
#[verifier::external_type_specification]
#[verifier::external_body]
pub struct ExLibraryError(LibraryError);

/// `std::str::Utf8Error`: a byte string that is not UTF-8.
#[verifier::external_type_specification]
#[verifier::external_body]
pub struct ExUtf8Error(Utf8Error);

/// `std::io::Error`: a failed input or output operation.
#[verifier::external_type_specification]
#[verifier::external_body]
pub struct ExIoError(IoError);

/// Errors of the benchmarking harness.
#[derive(Debug)]
pub enum Error {
    /// No measurements given
    NoMeasurements,
    /// Invalid string pointer from FFI
    InvalidFFIString(Utf8Error),
    /// Spi::self() was already called
    SpiSelfWasMoved,
    /// Unable to load library symbol
    UnableToLoadSymbol(LibraryError),
    /// IO Error
    IOError(IoError),
}

} // verus!
