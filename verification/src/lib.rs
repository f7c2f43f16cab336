//! Commands that build up and check the machines of a PKI lab.
//!
//! A command never touches a machine itself. For given parameters its handler
//! says what to run ([`registry::CommandHandler::prepare`]), and for what the
//! shell then answered it says how the command ends
//! ([`registry::CommandHandler::execute`]). Running the shell is left to the
//! program around this library.

pub mod authz;
pub mod commands;
pub mod dispatch;
pub mod ipv4;
pub mod json;
pub mod laws;
pub mod number;
pub mod powershell;
pub mod registry;
pub mod split;
pub mod text;
