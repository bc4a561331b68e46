//! Settings, request body, install decisions and stage order of a tool that fetches an API
//! description, has a remote service generate code from it, and unpacks the archive it returns.
pub mod config;
pub mod request;
pub mod install;
pub mod laws;
pub mod pipeline;
