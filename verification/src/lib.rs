pub mod app_server;
pub mod approvals;
pub mod dup;
pub mod events;
pub mod json;
pub mod laws;
pub mod login;
pub mod models;
pub mod process;
pub mod requests;
pub mod rpc;
pub mod sessions;
pub mod text;
