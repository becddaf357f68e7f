use vstd::prelude::*;

verus! {

/// Why a reconciliation pass or a command failed. Each variant carries a
/// human-readable message.
#[derive(Clone, Debug)]
pub enum DomainError {
    /// The current address could not be resolved.
    Resolution(String),
    /// The DNS provider refused the write or could not be reached.
    Provider(String),
    /// Persisted state could not be read or written.
    State(String),
    /// A malformed identity or configuration reached the engine.
    Validation(String),
    /// A command matched no running service.
    NotFound(String),
}

impl DomainError {
    /// HTTP status under which an API reports the error.
    pub open spec fn http_status_spec(&self) -> u16 {
        match self {
            DomainError::Resolution(_) => 503,
            DomainError::Provider(_) => 502,
            DomainError::State(_) => 500,
            DomainError::Validation(_) => 400,
            DomainError::NotFound(_) => 404,
        }
    }

    pub open spec fn message_spec(&self) -> Seq<char> {
        match self {
            DomainError::Resolution(m) => m@,
            DomainError::Provider(m) => m@,
            DomainError::State(m) => m@,
            DomainError::Validation(m) => m@,
            DomainError::NotFound(m) => m@,
        }
    }

    pub fn http_status(&self) -> (r: u16)
        ensures
            r == self.http_status_spec(),
    {
        match self {
            DomainError::Resolution(_) => 503,
            DomainError::Provider(_) => 502,
            DomainError::State(_) => 500,
            DomainError::Validation(_) => 400,
            DomainError::NotFound(_) => 404,
        }
    }

    /// Short machine-readable name of the error kind.
    pub fn error_code(&self) -> (r: &'static str)
        ensures
            self is Resolution ==> r@ == "ip_service_error"@,
            self is Provider ==> r@ == "dns_service_error"@,
            self is State ==> r@ == "state_error"@,
            self is Validation ==> r@ == "validation_error"@,
            self is NotFound ==> r@ == "not_found"@,
    {
        match self {
            DomainError::Resolution(_) => "ip_service_error",
            DomainError::Provider(_) => "dns_service_error",
            DomainError::State(_) => "state_error",
            DomainError::Validation(_) => "validation_error",
            DomainError::NotFound(_) => "not_found",
        }
    }

    pub fn message(&self) -> (r: &String)
        ensures
            r@ == self.message_spec(),
    {
        match self {
            DomainError::Resolution(m) => m,
            DomainError::Provider(m) => m,
            DomainError::State(m) => m,
            DomainError::Validation(m) => m,
            DomainError::NotFound(m) => m,
        }
    }
}

} // verus!
