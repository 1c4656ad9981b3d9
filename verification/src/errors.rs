//! Error taxonomy of the pipeline.
//!
//! Per-row extraction failures during discovery are not errors: a
//! malformed listing row is skipped and scraping continues.  The kinds
//! below are the failures that are surfaced to a caller.

use vstd::prelude::*;

verus! {

/// Failure of the discovery step as a whole: the listing page could not
/// be fetched (transport error or non-success status).
#[derive(Clone, Copy, Debug, PartialEq, Eq, Structural)]
pub enum ScrapeError {
    FetchFailed,
}

/// Failure of resolving one candidate's detail page.
#[derive(Clone, Copy, Debug, PartialEq, Eq, Structural)]
pub enum ResolveError {
    /// The detail page could not be fetched.
    FetchFailed,
    /// The detail page holds no anchor with the transfer-scheme prefix.
    /// This is a hard error: the caller asked for one specific candidate
    /// and has no fallback.
    IdentifierNotFound,
}

/// Failure of the synchronous part of starting a transfer.
#[derive(Clone, Copy, Debug, PartialEq, Eq, Structural)]
pub enum SessionError {
    /// The transfer engine rejected the identifier.
    EngineAddFailed,
}

/// Failure of the durable ledger that records started transfers.
#[derive(Clone, Copy, Debug, PartialEq, Eq, Structural)]
pub enum StorageError {
    LedgerUnavailable,
}

impl ScrapeError {
    /// A short human-readable message for the command surface.
    pub fn describe(&self) -> (msg: String)
        ensures
            msg@ == "could not fetch the listing page"@,
    {
        String::from_str("could not fetch the listing page")
    }
}

impl ResolveError {
    /// A short human-readable message for the command surface.
    pub fn describe(&self) -> (msg: String)
        ensures
            *self is FetchFailed ==> msg@ == "could not fetch the detail page"@,
            *self is IdentifierNotFound ==> msg@ == "no transfer identifier on the detail page"@,
    {
        match self {
            ResolveError::FetchFailed => String::from_str("could not fetch the detail page"),
            ResolveError::IdentifierNotFound => String::from_str(
                "no transfer identifier on the detail page",
            ),
        }
    }
}

impl SessionError {
    /// A short human-readable message for the command surface.
    pub fn describe(&self) -> (msg: String)
        ensures
            msg@ == "the transfer engine rejected the identifier"@,
    {
        String::from_str("the transfer engine rejected the identifier")
    }
}

impl StorageError {
    /// A short human-readable message for the command surface.
    pub fn describe(&self) -> (msg: String)
        ensures
            msg@ == "the ledger could not be reached"@,
    {
        String::from_str("the ledger could not be reached")
    }
}

} // verus!
