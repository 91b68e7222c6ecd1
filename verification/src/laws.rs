//! What the operations come to, said of their inputs and their results: each
//! proof function here relates what goes into an operation to what comes out of
//! it, for all inputs of a kind.

pub mod addresses;
pub mod browsing;
pub mod exports;
pub mod infra;
pub mod keys;
pub mod listings;
pub mod live;
pub mod locks;
pub mod lookups;
pub mod machine;
pub mod packages;
pub mod projects;
pub mod rendering;
pub mod replay;
pub mod results;
pub mod runs;
pub mod scanning;
pub mod sessions;
pub mod settings;
pub mod texts;
pub mod values;
pub mod verdicts;
pub mod view;
pub mod vulns;
