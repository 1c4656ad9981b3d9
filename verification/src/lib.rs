//! A verified core for a torrent discovery and transfer pipeline.
//!
//! The library turns a free-text title query into a filtered list of
//! candidates scraped from a listing site, resolves a chosen candidate's
//! detail page to a magnet-style transfer identifier, and keeps the
//! registry of running transfers that drives idempotent starts, status
//! reporting, and resume-after-restart.  Network fetches, the torrent
//! engine, and the on-disk ledger live outside the library; it consumes
//! their results as plain values.

pub mod errors;
pub mod text;
pub mod sources;
pub mod discovery;
pub mod resolution;
pub mod registry;
pub mod records;

pub use errors::ResolveError;
pub use errors::ScrapeError;
pub use errors::SessionError;
pub use errors::StorageError;
pub use discovery::Candidate;
pub use discovery::ListingRow;
pub use records::DownloadRecord;
pub use registry::EngineAddOutcome;
pub use registry::Registry;
pub use registry::RegisterOutcome;
pub use registry::StatusSnapshot;
pub use registry::TransferState;
pub use resolution::TransferIdentifier;
pub use sources::TrustedSourceSet;
