//! Job orchestration core: the data model, the admission policy, the
//! destination adapters' decisions and the scheduler's state machine.

pub mod api;
pub mod base64;
pub mod client;
pub mod config;
pub mod counting;
pub mod io;
pub mod janitor;
pub mod job;
pub mod jobd;
pub mod json;
pub mod path;
pub mod payload;
pub mod queue;
pub mod status;
pub mod tasks;
pub mod text;
pub mod transfer;
