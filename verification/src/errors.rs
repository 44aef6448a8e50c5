use vstd::prelude::*;

verus! {

/// The library's error type. Variants carry no payload so that values can be
/// compared structurally in contracts; the cause of an error is fixed by the
/// contract of the function that returns it.
#[derive(Clone, Copy, Debug, PartialEq, Eq, Structural)]
pub enum GLErr {
    /// A statement against the relational database failed.
    SqliteErr,
    /// A file read or write failed.
    IOErr,
    /// The system clock gave an unusable answer.
    TimeErr,
    /// A required environment value is missing.
    MissingEnvVar,
    /// The archive download failed.
    NetworkErr,
    /// The downloaded archive is corrupt.
    ZipErr,
    /// The CSV reader failed on the source file.
    CSVErr,
    /// The JSON lookup file did not parse.
    SerdeJSONErr,
    /// Archive extraction left no top-level directory behind.
    ZipExtractErr,
    /// A CSV row does not match the expected shape of its dataset.
    DecodeErr,
    /// A file rename or delete failed during promotion.
    FsErr,
}

} // verus!
