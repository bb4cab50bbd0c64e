use vstd::prelude::*;

verus! {

/// Machine-readable error codes carried by every error response.
#[derive(Debug, Clone, Copy, PartialEq, Eq, Structural)]
pub enum ErrorCode {
    InvalidQuery,
    CardNotFound,
    RateLimitExceeded,
    DatabaseError,
    ScryfallApiError,
    InvalidApiKey,
    ValidationError,
    InternalError,
}

impl ErrorCode {
    /// The HTTP status that accompanies this code.
    pub open spec fn spec_status(self) -> u16 {
        match self {
            ErrorCode::InvalidQuery => 400,
            ErrorCode::CardNotFound => 404,
            ErrorCode::RateLimitExceeded => 429,
            ErrorCode::DatabaseError => 503,
            ErrorCode::ScryfallApiError => 502,
            ErrorCode::InvalidApiKey => 401,
            ErrorCode::ValidationError => 400,
            ErrorCode::InternalError => 500,
        }
    }

    /// Get HTTP status code for this error.
    pub fn status_code(&self) -> (r: u16)
        ensures
            r == self.spec_status(),
    {
        match self {
            ErrorCode::InvalidQuery => 400,
            ErrorCode::CardNotFound => 404,
            ErrorCode::RateLimitExceeded => 429,
            ErrorCode::DatabaseError => 503,
            ErrorCode::ScryfallApiError => 502,
            ErrorCode::InvalidApiKey => 401,
            ErrorCode::ValidationError => 400,
            ErrorCode::InternalError => 500,
        }
    }

    pub open spec fn spec_str(self) -> Seq<char> {
        match self {
            ErrorCode::InvalidQuery => "INVALID_QUERY"@,
            ErrorCode::CardNotFound => "CARD_NOT_FOUND"@,
            ErrorCode::RateLimitExceeded => "RATE_LIMIT_EXCEEDED"@,
            ErrorCode::DatabaseError => "DATABASE_ERROR"@,
            ErrorCode::ScryfallApiError => "SCRYFALL_API_ERROR"@,
            ErrorCode::InvalidApiKey => "INVALID_API_KEY"@,
            ErrorCode::ValidationError => "VALIDATION_ERROR"@,
            ErrorCode::InternalError => "INTERNAL_ERROR"@,
        }
    }

    /// The code as it appears in an error response.
    pub fn as_str(&self) -> (r: &'static str)
        ensures
            r@ == self.spec_str(),
    {
        match self {
            ErrorCode::InvalidQuery => "INVALID_QUERY",
            ErrorCode::CardNotFound => "CARD_NOT_FOUND",
            ErrorCode::RateLimitExceeded => "RATE_LIMIT_EXCEEDED",
            ErrorCode::DatabaseError => "DATABASE_ERROR",
            ErrorCode::ScryfallApiError => "SCRYFALL_API_ERROR",
            ErrorCode::InvalidApiKey => "INVALID_API_KEY",
            ErrorCode::ValidationError => "VALIDATION_ERROR",
            ErrorCode::InternalError => "INTERNAL_ERROR",
        }
    }
}

/// The body of an error response.
#[derive(Debug, Clone)]
pub struct ErrorDetail {
    pub code: ErrorCode,
    pub message: String,
    /// A fresh identifier of the request (a UUID in text form).
    pub request_id: String,
}

/// An error response: `success` is false and `error` says why.
#[derive(Debug, Clone)]
pub struct ErrorResponse {
    pub success: bool,
    pub error: ErrorDetail,
}

impl ErrorResponse {
    pub open spec fn is(self, code: ErrorCode, message: Seq<char>, request_id: Seq<char>) -> bool {
        &&& !self.success
        &&& self.error.code == code
        &&& self.error.message@ == message
        &&& self.error.request_id@ == request_id
    }

    /// An error response with the given code, message and request identifier.
    pub fn with_request_id(code: ErrorCode, message: &str, request_id: &str) -> (r: Self)
        ensures
            r.is(code, message@, request_id@),
    {
        ErrorResponse {
            success: false,
            error: ErrorDetail { code, message: message.to_owned(), request_id: request_id.to_owned() },
        }
    }

    /// A malformed query.
    pub fn invalid_query(message: &str, request_id: &str) -> (r: Self)
        ensures
            r.is(ErrorCode::InvalidQuery, message@, request_id@),
    {
        Self::with_request_id(ErrorCode::InvalidQuery, message, request_id)
    }

    /// No card of that id or name: the message names it.
    pub fn card_not_found(card_id: &str, request_id: &str) -> (r: Self)
        ensures
            r.is(ErrorCode::CardNotFound, "Card not found: "@ + card_id@, request_id@),
    {
        let mut message = String::new();
        crate::text::push_str(&mut message, "Card not found: ");
        crate::text::push_str(&mut message, card_id);
        Self::with_request_id(ErrorCode::CardNotFound, message.as_str(), request_id)
    }

    /// The store failed.
    pub fn database_error(message: &str, request_id: &str) -> (r: Self)
        ensures
            r.is(ErrorCode::DatabaseError, message@, request_id@),
    {
        Self::with_request_id(ErrorCode::DatabaseError, message, request_id)
    }

    /// The input broke a limit or a rule.
    pub fn validation_error(message: &str, request_id: &str) -> (r: Self)
        ensures
            r.is(ErrorCode::ValidationError, message@, request_id@),
    {
        Self::with_request_id(ErrorCode::ValidationError, message, request_id)
    }

    /// Something failed that should not have.
    pub fn internal_error(message: &str, request_id: &str) -> (r: Self)
        ensures
            r.is(ErrorCode::InternalError, message@, request_id@),
    {
        Self::with_request_id(ErrorCode::InternalError, message, request_id)
    }

    /// The HTTP status of this response.
    pub fn status_code(&self) -> (r: u16)
        ensures
            r == self.error.code.spec_status(),
    {
        self.error.code.status_code()
    }
}

} // verus!
