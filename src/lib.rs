//! Package inventory and process orchestration for local JavaScript projects:
//! project discovery, inventory construction and update classification, audit
//! report reading, version-change checks, history and the single watch slot.

pub mod json;
pub mod models;
pub mod inventory;
pub mod audit;
pub mod scan;
pub mod history;
pub mod watch;
pub mod install;
