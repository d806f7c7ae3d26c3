//! Core logic of the Applejuice bootstrapper.
pub mod text;
pub mod argparse;
pub mod args;
pub mod json;
pub mod json_text;
pub mod configuration;
pub mod steamos;
pub mod installation;
pub mod install;
pub mod launch;
pub mod rpc;
pub mod setup;
pub mod proton;
pub mod purge;
pub mod command;
pub mod initialise;
pub mod terminal;
