//! The decisions of a worker that executes calls for a remote controller: how it is paired and
//! configured, which calls it takes on and what it runs for them, what it answers, and how it
//! replaces itself by a newer release.
pub mod archive;
pub mod browser;
pub mod calls;
pub mod command;
pub mod config;
pub mod delivery;
pub mod encoding;
pub mod install;
pub mod json;
pub mod numbers;
pub mod pairing;
pub mod paths;
pub mod process;
pub mod self_update;
pub mod session;
pub mod setup;
pub mod text;
pub mod tools;
