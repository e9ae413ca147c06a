//! Declarative vendoring of protocol buffer schemas: the manifest, the store
//! layout, the working-copy update machine and the synchronisation plan.

pub mod deploy;
pub mod git;
pub mod manifest;
pub mod store;
pub mod sync;
pub mod text;

pub use sync::SyncOptions;
