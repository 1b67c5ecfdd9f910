//! A gateway library that exposes a social-network timeline as a POP3
//! mailbox and accepts outgoing posts over SMTP.
//!
//! The protocol engines are pure step functions from session state and an
//! input line to the next state and the exact reply bytes; the content
//! converter turns a post into a well-formed RFC822 message.  Network and
//! socket handling live outside this crate.

pub mod config;
pub mod convert;
pub mod error;
pub mod links;
pub mod mailmsg;
pub mod models;
pub mod numfmt;
pub mod pop3;
pub mod smtp;
pub mod strutil;
pub mod text;
pub mod timefmt;

pub use error::AppError;
pub use error::AppResult;
