//! Named installation paths and the rewriting of the persistent environment
//! that makes one of them the active one.

pub mod activation;
pub mod dispatch;
pub mod profile;
pub mod registry;
pub mod search_path;
pub mod text;
