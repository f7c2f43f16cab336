//! What the commands are for, stated over what goes in and what comes out.
//!
//! The words these laws are written in ([`terms`]) are their own: codes of
//! characters, labels, addresses and numbers. What a command accepts, hands to the
//! shell and reports is stated in those words here, and proved of what the
//! handlers do.

pub mod catalog;
pub mod certsecure;
pub mod dns;
pub mod linux;
pub mod names;
pub mod pki_verify;
pub mod scripts;
pub mod terms;
pub mod text;
