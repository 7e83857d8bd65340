//! The errors of the upstream API, of the configuration and of the backend.
use vstd::prelude::*;

verus! {

/// What kind of failure an upstream call met.
#[derive(Debug, Clone, Copy, PartialEq, Eq, Structural)]
pub enum ErrorClass {
    RateLimited,
    AuthFailed,
    ContextLimit,
    BadRequest,
    Server,
    Network,
    Malformed,
}

/// A failure of an upstream call.
#[derive(Debug)]
pub enum ProviderError {
    /// The upstream asks for fewer requests.
    RateLimited { message: String },
    /// The upstream refuses the credentials.
    AuthFailed { message: String },
    /// The request does not fit the model's context window.
    ContextLimit { message: String },
    /// The request is at fault.
    BadRequest { message: String },
    /// The upstream is at fault.
    Server { message: String },
    /// The exchange did not complete.
    Network { message: String },
    /// The reply is not what the API promises.
    Malformed { message: String },
}

/// What a [`ProviderError`] says.
pub struct ProviderFailure {
    pub class: ErrorClass,
    pub message: Seq<char>,
}

/// The failure of the given class with the given message.
pub open spec fn failure(class: ErrorClass, message: Seq<char>) -> ProviderFailure {
    ProviderFailure { class, message }
}

impl View for ProviderError {
    type V = ProviderFailure;

    open spec fn view(&self) -> ProviderFailure {
        match self {
            ProviderError::RateLimited { message } => failure(ErrorClass::RateLimited, message@),
            ProviderError::AuthFailed { message } => failure(ErrorClass::AuthFailed, message@),
            ProviderError::ContextLimit { message } => failure(ErrorClass::ContextLimit, message@),
            ProviderError::BadRequest { message } => failure(ErrorClass::BadRequest, message@),
            ProviderError::Server { message } => failure(ErrorClass::Server, message@),
            ProviderError::Network { message } => failure(ErrorClass::Network, message@),
            ProviderError::Malformed { message } => failure(ErrorClass::Malformed, message@),
        }
    }
}

impl ErrorClass {
    /// Whether the same request may succeed later: after a rate limit, a fault
    /// of the upstream or of the network.
    pub open spec fn retryable(self) -> bool {
        self is RateLimited || self is Server || self is Network
    }
}

impl ProviderError {
    /// A reply that is not what the API promises.
    pub fn malformed(message: &str) -> (r: ProviderError)
        ensures
            r@ == failure(ErrorClass::Malformed, message@),
    {
        ProviderError::Malformed { message: message.to_owned() }
    }

    /// The error of the given class with the given message.
    pub fn of_class(class: ErrorClass, message: String) -> (r: ProviderError)
        ensures
            r@ == failure(class, message@),
    {
        match class {
            ErrorClass::RateLimited => ProviderError::RateLimited { message },
            ErrorClass::AuthFailed => ProviderError::AuthFailed { message },
            ErrorClass::ContextLimit => ProviderError::ContextLimit { message },
            ErrorClass::BadRequest => ProviderError::BadRequest { message },
            ErrorClass::Server => ProviderError::Server { message },
            ErrorClass::Network => ProviderError::Network { message },
            ErrorClass::Malformed => ProviderError::Malformed { message },
        }
    }

    /// The message.
    pub fn message(&self) -> (r: &str)
        ensures
            r@ == self@.message,
    {
        match self {
            ProviderError::RateLimited { message } => message.as_str(),
            ProviderError::AuthFailed { message } => message.as_str(),
            ProviderError::ContextLimit { message } => message.as_str(),
            ProviderError::BadRequest { message } => message.as_str(),
            ProviderError::Server { message } => message.as_str(),
            ProviderError::Network { message } => message.as_str(),
            ProviderError::Malformed { message } => message.as_str(),
        }
    }

    /// Whether the same request may succeed later.
    pub fn is_retryable(&self) -> (r: bool)
        ensures
            r == self@.class.retryable(),
    {
        match self {
            ProviderError::RateLimited { .. } => true,
            ProviderError::Server { .. } => true,
            ProviderError::Network { .. } => true,
            _ => false,
        }
    }
}

/// A configuration that cannot be used.
#[derive(Debug)]
pub enum ConfigError {
    InvalidSpec(String),
}

impl View for ConfigError {
    type V = Seq<char>;

    open spec fn view(&self) -> Seq<char> {
        match self {
            ConfigError::InvalidSpec(message) => message@,
        }
    }
}

impl Clone for ConfigError {
    fn clone(&self) -> (r: ConfigError)
        ensures
            r@ == self@,
    {
        match self {
            ConfigError::InvalidSpec(message) => ConfigError::InvalidSpec(message.clone()),
        }
    }
}

/// A failure that a backend reports to the gateway.
#[derive(Debug)]
pub enum BackendError {
    ProfileNotFound { backend_name: String },
    InvalidSpec { message: String },
    Timeout { timeout_ms: u64 },
    Transport { message: String },
}

/// What a [`BackendError`] says.
pub enum BackendFailure {
    ProfileNotFound { backend_name: Seq<char> },
    InvalidSpec { message: Seq<char> },
    Timeout { timeout_ms: u64 },
    Transport { message: Seq<char> },
}

impl View for BackendError {
    type V = BackendFailure;

    open spec fn view(&self) -> BackendFailure {
        match self {
            BackendError::ProfileNotFound { backend_name } => BackendFailure::ProfileNotFound {
                backend_name: backend_name@,
            },
            BackendError::InvalidSpec { message } => BackendFailure::InvalidSpec {
                message: message@,
            },
            BackendError::Timeout { timeout_ms } => BackendFailure::Timeout {
                timeout_ms: *timeout_ms,
            },
            BackendError::Transport { message } => BackendFailure::Transport { message: message@ },
        }
    }
}

/// The specification is refused with `message`.
pub open spec fn invalid_spec(message: Seq<char>) -> BackendFailure {
    BackendFailure::InvalidSpec { message }
}

/// The same error once more.
pub fn clone_backend_error(err: &BackendError) -> (r: BackendError)
    ensures
        r@ == err@,
{
    match err {
        BackendError::ProfileNotFound { backend_name } => BackendError::ProfileNotFound {
            backend_name: backend_name.clone(),
        },
        BackendError::InvalidSpec { message } => BackendError::InvalidSpec {
            message: message.clone(),
        },
        BackendError::Timeout { timeout_ms } => BackendError::Timeout { timeout_ms: *timeout_ms },
        BackendError::Transport { message } => BackendError::Transport { message: message.clone() },
    }
}

} // verus!
