//! Search across torrent-indexing backends: the provider capability, the
//! normalisation of a backend's answer into torrent records, and the merge of
//! several providers' outcomes into one result.

pub mod aggregator;
pub mod error;
pub mod json;
pub mod search_providers;
pub mod torrent;
