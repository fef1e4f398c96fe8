use vstd::prelude::*;
use vstd::string::StringExecFns;

use crate::json::{is_single_text_member, single_text_member, JsonValue};

verus! {

/// An HTTP error answer: a status code and a JSON body.
#[derive(Debug)]
pub struct ErrorResponse {
    pub status: u16,
    pub body: JsonValue,
}

/// Errors of the actix endpoints.  Each variant carries the text of the
/// error that caused it.
#[derive(Debug)]
pub enum ApiError {
    /// A data-frame operation failed.
    DataFrame(String),
    /// JSON (de)serialisation failed.
    Json(String),
}

/// The HTTP status of an `ApiError`: 422 for a data-frame failure, 400 for a
/// JSON failure.
pub open spec fn api_error_status(e: ApiError) -> u16 {
    match e {
        ApiError::DataFrame(_) => 422,
        ApiError::Json(_) => 400,
    }
}

/// The text of an `ApiError`: a fixed prefix per variant, then the text of
/// the cause.
pub open spec fn api_error_message(e: ApiError) -> Seq<char> {
    match e {
        ApiError::DataFrame(cause) => "Erro na operação com DataFrame: "@ + cause@,
        ApiError::Json(cause) => "Falha ao (de)serializar JSON: "@ + cause@,
    }
}

impl ApiError {
    /// The HTTP status code of the error.
    pub fn status_code(&self) -> (r: u16)
        ensures
            r == api_error_status(*self),
    {
        match self {
            ApiError::DataFrame(_) => 422,
            ApiError::Json(_) => 400,
        }
    }

    /// The text of the error, as shown to users.
    pub fn message(&self) -> (r: String)
        ensures
            r@ == api_error_message(*self),
    {
        match self {
            ApiError::DataFrame(cause) => {
                let mut s = String::from_str("Erro na operação com DataFrame: ");
                s.append(cause.as_str());
                s
            },
            ApiError::Json(cause) => {
                let mut s = String::from_str("Falha ao (de)serializar JSON: ");
                s.append(cause.as_str());
                s
            },
        }
    }

    /// The HTTP answer for the error: its status code, and the JSON body
    /// `{"error": <text of the error>}`.
    pub fn error_response(&self) -> (r: ErrorResponse)
        ensures
            r.status == api_error_status(*self),
            is_single_text_member(r.body, "error"@, api_error_message(*self)),
    {
        let status = self.status_code();
        let body = single_text_member(String::from_str("error"), self.message());
        ErrorResponse { status, body }
    }
}

/// Every `ApiError` is answered with a client-error status (4xx).
pub proof fn lemma_api_error_is_client_error(e: ApiError)
    ensures
        400 <= api_error_status(e) < 500,
{
}

/// Errors of the axum endpoints.  Each variant carries the text of the error
/// that caused it.
#[derive(Debug)]
pub enum AppError {
    /// A polars operation failed.
    Polars(String),
    /// JSON (de)serialisation failed.
    Json(String),
    /// Building the HTTP answer failed.
    Http(String),
    /// The Oracle database reported an error.
    Oracle(String),
    /// Any other error.
    Generic(String),
}

/// The HTTP status that an `AppError` is answered with: 400 for a JSON
/// failure, 502 for an Oracle failure, 500 for everything else.
pub open spec fn app_error_status(e: AppError) -> u16 {
    match e {
        AppError::Polars(_) => 500,
        AppError::Json(_) => 400,
        AppError::Http(_) => 500,
        AppError::Oracle(_) => 502,
        AppError::Generic(_) => 500,
    }
}

/// Every `AppError` is answered with an error status: 400 for a malformed
/// JSON payload, 5xx for every failure on the server's side.
pub proof fn lemma_app_error_is_error_status(e: AppError)
    ensures
        e is Json <==> app_error_status(e) == 400,
        !(e is Json) ==> 500 <= app_error_status(e) < 600,
{
}

/// The text of the cause of an `AppError`.
pub open spec fn app_error_cause(e: AppError) -> Seq<char> {
    match e {
        AppError::Polars(c) => c@,
        AppError::Json(c) => c@,
        AppError::Http(c) => c@,
        AppError::Oracle(c) => c@,
        AppError::Generic(c) => c@,
    }
}

/// The text of an `AppError`: a fixed prefix per variant, then the text of
/// the cause.
pub open spec fn app_error_message(e: AppError) -> Seq<char> {
    match e {
        AppError::Polars(c) => "Erro na operação Polars: "@ + c@,
        AppError::Json(c) => "Falha ao (de)serializar JSON: "@ + c@,
        AppError::Http(c) => "Falha ao construir resposta HTTP: "@ + c@,
        AppError::Oracle(c) => "Erro no Oracle: "@ + c@,
        AppError::Generic(c) => "Erro genérico: "@ + c@,
    }
}

fn prefixed(prefix: &str, cause: &String) -> (r: String)
    ensures
        r@ == prefix@ + cause@,
{
    let mut s = String::from_str(prefix);
    s.append(cause.as_str());
    s
}

impl AppError {
    /// The text of the error.
    pub fn message(&self) -> (r: String)
        ensures
            r@ == app_error_message(*self),
    {
        match self {
            AppError::Polars(c) => prefixed("Erro na operação Polars: ", c),
            AppError::Json(c) => prefixed("Falha ao (de)serializar JSON: ", c),
            AppError::Http(c) => prefixed("Falha ao construir resposta HTTP: ", c),
            AppError::Oracle(c) => prefixed("Erro no Oracle: ", c),
            AppError::Generic(c) => prefixed("Erro genérico: ", c),
        }
    }

    /// The HTTP answer for the error: its status, and the JSON body
    /// `{"error": <text of the cause>}`.
    pub fn into_response(self) -> (r: ErrorResponse)
        ensures
            r.status == app_error_status(self),
            is_single_text_member(r.body, "error"@, app_error_cause(self)),
    {
        let (status, cause): (u16, String) = match self {
            AppError::Polars(c) => (500, c),
            AppError::Json(c) => (400, c),
            AppError::Http(c) => (500, c),
            AppError::Oracle(c) => (502, c),
            AppError::Generic(c) => (500, c),
        };
        let body = single_text_member(String::from_str("error"), cause);
        ErrorResponse { status, body }
    }
}

} // verus!
