use vstd::prelude::*;

verus! {

/// Error taxonomy of the gateway.
///
/// Failures that affect a single post or attachment are recovered locally;
/// failures that affect authentication or a whole fetch surface as one of
/// these, and the protocol engines turn them into a negative status line.
#[derive(Debug, Clone)]
pub enum AppError {
    /// The configuration is inconsistent and the process must not start.
    Config(String),
    /// The upstream service answered, but with something malformed or
    /// unexpected.
    ApiError(String),
    /// The transport to the upstream service failed.
    NetworkError(String),
    /// A local I/O operation failed.
    IoError(String),
    /// An upstream response could not be decoded.
    JsonError(String),
    /// The upstream service rejected the supplied credentials.
    InvalidCredentials,
    /// The upstream service did not answer in time.
    Timeout,
    /// A submitted message could not be handled as mail.
    InvalidEmail(String),
    /// The peer broke the protocol in a way that ends the session.
    ServerError(String),
    /// Any other failure, described by its message.
    Custom(String),
}

pub type AppResult<T> = Result<T, AppError>;

impl AppError {
    /// A short label for the error, for status lines and logs.
    pub fn message(&self) -> (r: String)
        ensures
            r@ == self.spec_message(),
    {
        match self {
            AppError::Config(s) => s.clone(),
            AppError::ApiError(s) => s.clone(),
            AppError::NetworkError(s) => s.clone(),
            AppError::IoError(s) => s.clone(),
            AppError::JsonError(s) => s.clone(),
            AppError::InvalidCredentials => "Invalid credentials".to_owned(),
            AppError::Timeout => "Timeout waiting for server response".to_owned(),
            AppError::InvalidEmail(s) => s.clone(),
            AppError::ServerError(s) => s.clone(),
            AppError::Custom(s) => s.clone(),
        }
    }

    /// What `message` returns, by variant.
    pub open spec fn spec_message(&self) -> Seq<char> {
        match self {
            AppError::Config(s) => s@,
            AppError::ApiError(s) => s@,
            AppError::NetworkError(s) => s@,
            AppError::IoError(s) => s@,
            AppError::JsonError(s) => s@,
            AppError::InvalidCredentials => "Invalid credentials"@,
            AppError::Timeout => "Timeout waiting for server response"@,
            AppError::InvalidEmail(s) => s@,
            AppError::ServerError(s) => s@,
            AppError::Custom(s) => s@,
        }
    }
}

impl From<String> for AppError {
    fn from(s: String) -> (r: AppError) {
        AppError::Custom(s)
    }
}

impl vstd::std_specs::convert::FromSpecImpl<String> for AppError {
    open spec fn obeys_from_spec() -> bool {
        true
    }

    open spec fn from_spec(s: String) -> AppError {
        AppError::Custom(s)
    }
}

} // verus!
