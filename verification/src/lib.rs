//! An administrator-curated registry that maps a campaign and a district to
//! one recommended candidate, with the reference tables around it.
//!
//! One account, the master account, may write; anybody may read. Every
//! writing call names the account that makes it and is turned down with
//! [`Error::Unauthorized`] unless that is the master account. The tables keep
//! their entries in the order in which the identifiers first arrived, and the
//! list calls read them through a window of indices.

pub mod collections;
pub mod entities;
pub mod pagination;
pub mod registry;
pub mod storage;

pub use collections::{ExactClone, MapKey, UnorderedMap};
pub use entities::{Candidate, District, Party, Recommendation, RecommendationIndex, Region};
pub use pagination::unordered_map_pagination;
pub use registry::{Error, VoteSmart};
pub use storage::StorageKey;
