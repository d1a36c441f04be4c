use vstd::prelude::*;
use vstd::string::*;

verus! {

/// The categories in which a failed retrieval is reported.
#[derive(Debug, Clone, Copy, PartialEq, Eq, Structural)]
pub enum GetError {
    /// The token does not decode as a ticket.
    TicketDecode,
    /// The connection or an I/O operation with the peer failed.
    Transport,
    /// The peer no longer has the root object.
    NotFound,
    /// The peer no longer has a referenced chunk.
    PartialData,
    /// Received bytes do not hash to the declared value.
    IntegrityMismatch,
    /// The manifest or the collection is malformed, or too large.
    Manifest,
    /// A target path already exists.
    ExportConflict,
    /// An entry name is unsafe as a path.
    PathViolation,
}

/// What the transfer layer reported when a fetch stopped.
#[derive(Debug, PartialEq, Eq)]
pub enum FetchFailure {
    /// The peer does not have the requested object.
    NotFound,
    /// The peer does not have a leaf of the object's hash tree.
    LeafNotFound,
    /// The peer does not have an inner node of the object's hash tree.
    ParentNotFound,
    /// A leaf did not match its hash.
    LeafHashMismatch,
    /// An inner node did not match its hash.
    ParentHashMismatch,
    /// A generic network error, with its text.
    Io(String),
    /// Reading from the stream failed, with its text.
    Read(String),
    /// Anything else, with its text.
    Other(String),
}

/// The category of a fetch failure.
pub open spec fn category(f: FetchFailure) -> GetError {
    match f {
        FetchFailure::NotFound => GetError::NotFound,
        FetchFailure::LeafNotFound | FetchFailure::ParentNotFound => GetError::PartialData,
        FetchFailure::LeafHashMismatch | FetchFailure::ParentHashMismatch => GetError::IntegrityMismatch,
        FetchFailure::Io(_) | FetchFailure::Read(_) | FetchFailure::Other(_) => GetError::Transport,
    }
}

/// Maps a fetch failure to its reporting category.
pub fn classify(f: &FetchFailure) -> (r: GetError)
    ensures
        r == category(*f),
{
    match f {
        FetchFailure::NotFound => GetError::NotFound,
        FetchFailure::LeafNotFound | FetchFailure::ParentNotFound => GetError::PartialData,
        FetchFailure::LeafHashMismatch | FetchFailure::ParentHashMismatch => GetError::IntegrityMismatch,
        FetchFailure::Io(_) | FetchFailure::Read(_) | FetchFailure::Other(_) => GetError::Transport,
    }
}

/// The category of a failure while fetching the manifest: a failure that is not the
/// peer's (a refused size, a malformed sequence) is a manifest error.
pub open spec fn manifest_category(f: FetchFailure) -> GetError {
    match f {
        FetchFailure::Other(_) => GetError::Manifest,
        _ => category(f),
    }
}

/// Maps a failure of the manifest fetch to its reporting category.
pub fn classify_manifest(f: &FetchFailure) -> (r: GetError)
    ensures
        r == manifest_category(*f),
{
    match f {
        FetchFailure::Other(_) => GetError::Manifest,
        _ => classify(f),
    }
}

/// The diagnostic line for a fetch failure.
pub open spec fn diagnostic(f: FetchFailure) -> Seq<char> {
    match f {
        FetchFailure::NotFound => "send side no longer has a file"@,
        FetchFailure::LeafNotFound | FetchFailure::ParentNotFound => "send side no longer has part of a file"@,
        FetchFailure::LeafHashMismatch | FetchFailure::ParentHashMismatch => "send side sent wrong data"@,
        FetchFailure::Io(t) => "generic network error: "@ + t@,
        FetchFailure::Read(t) => "error reading data from quinn: "@ + t@,
        FetchFailure::Other(t) => "generic error: "@ + t@,
    }
}

/// A short diagnostic that names what went wrong; it does not change the failure.
pub fn show_get_error(f: &FetchFailure) -> (r: String)
    ensures
        r@ == diagnostic(*f),
{
    match f {
        FetchFailure::NotFound => String::from_str("send side no longer has a file"),
        FetchFailure::LeafNotFound | FetchFailure::ParentNotFound => String::from_str(
            "send side no longer has part of a file",
        ),
        FetchFailure::LeafHashMismatch | FetchFailure::ParentHashMismatch => String::from_str(
            "send side sent wrong data",
        ),
        FetchFailure::Io(t) => String::from_str("generic network error: ").concat(t.as_str()),
        FetchFailure::Read(t) => String::from_str("error reading data from quinn: ").concat(
            t.as_str(),
        ),
        FetchFailure::Other(t) => String::from_str("generic error: ").concat(t.as_str()),
    }
}

/// The name of a category, as shown to the user.
pub fn error_name(e: GetError) -> (r: &'static str)
    ensures
        r@ == error_name_spec(e),
{
    match e {
        GetError::TicketDecode => "ticket decode error",
        GetError::Transport => "transport error",
        GetError::NotFound => "not found",
        GetError::PartialData => "partial data",
        GetError::IntegrityMismatch => "integrity mismatch",
        GetError::Manifest => "manifest error",
        GetError::ExportConflict => "export conflict",
        GetError::PathViolation => "path violation",
    }
}

/// The name of a category.
pub open spec fn error_name_spec(e: GetError) -> Seq<char> {
    match e {
        GetError::TicketDecode => "ticket decode error"@,
        GetError::Transport => "transport error"@,
        GetError::NotFound => "not found"@,
        GetError::PartialData => "partial data"@,
        GetError::IntegrityMismatch => "integrity mismatch"@,
        GetError::Manifest => "manifest error"@,
        GetError::ExportConflict => "export conflict"@,
        GetError::PathViolation => "path violation"@,
    }
}

} // verus!
