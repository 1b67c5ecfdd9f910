use vstd::prelude::*;

use crate::error::{AppError, AppResult};

verus! {

/// Which social network the gateway talks to.  Selected once at startup and
/// injected into both protocol engines.
#[derive(Debug, Clone, Copy, PartialEq, Eq, Structural)]
pub enum ApiMode {
    Mastodon,
    Bluesky,
}

/// Process-wide configuration, read-only for the lifetime of the process.
#[derive(Debug, Clone)]
pub struct Config {
    /// Account handle (user@example.com); overrides the POP3 username.
    pub account: Option<String>,
    /// API token; overrides the POP3 password.  Required when SMTP is on.
    pub token: Option<String>,
    /// Address both listeners bind to.
    pub address: String,
    /// POP3 listener port.
    pub pop3port: u16,
    /// SMTP listener port.
    pub smtp_port: u16,
    /// Which network implementation to use.
    pub api_mode: ApiMode,
    /// Disable the SMTP listener.
    pub nosmtp: bool,
    /// Transliterate non-ASCII characters to their closest ASCII equivalent.
    pub ascii: bool,
    /// Download referenced media and add it with `attachment` disposition.
    pub attachment: bool,
    /// Download referenced media and add it with `inline` disposition.
    /// Mutually exclusive with `attachment`.
    pub inline: bool,
    /// Keep the post body as HTML instead of stripping markup.
    pub html: bool,
    /// Verbose upstream logging.
    pub debug: bool,
    /// Append a footer with the original post's URL.
    pub url: bool,
    /// Prefix prepended to every http(s) link in a converted body.
    pub proxy: Option<String>,
}

impl Config {
    /// A consistent configuration: SMTP enabled requires a token, and media
    /// cannot be both attached and inlined.
    pub open spec fn spec_valid(&self) -> bool {
        &&& self.nosmtp || self.token is Some
        &&& !(self.attachment && self.inline)
    }

    /// Validates the configuration before any connection is accepted.
    pub fn validate(&self) -> (r: AppResult<()>)
        ensures
            r is Ok <==> self.spec_valid(),
            !self.nosmtp && self.token is None ==> (r matches Err(e)
                && e matches AppError::Config(m)
                && m@ == "SMTP requires a token: provide one or disable SMTP"@),
            (self.nosmtp || self.token is Some) && self.attachment && self.inline ==> (
            r matches Err(e) && e matches AppError::Config(m)
                && m@ == "attached and inline media are mutually exclusive"@),
    {
        if !self.nosmtp && self.token.is_none() {
            return Err(AppError::Config(
                "SMTP requires a token: provide one or disable SMTP".to_owned(),
            ));
        }

        if self.attachment && self.inline {
            return Err(AppError::Config(
                "attached and inline media are mutually exclusive".to_owned(),
            ));
        }

        Ok(())
    }
}

} // verus!
