//! The command handlers.

pub mod certsecure;
pub mod dns;
pub mod hosts;
pub mod linux;
pub mod paths;
pub mod pki_verify;
pub mod util;
