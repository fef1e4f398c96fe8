use dataframe_api::api_errors::{ApiError, AppError};
use dataframe_api::json::JsonValue;

fn error_member(body: &JsonValue) -> String {
    match body {
        JsonValue::Object(entries) => {
            assert_eq!(entries.len(), 1);
            assert_eq!(entries[0].0, "error");
            match &entries[0].1 {
                JsonValue::Str(s) => s.clone(),
                _ => panic!("expected a string"),
            }
        },
        _ => panic!("expected an object"),
    }
}

#[test]
fn api_error_dataframe_is_unprocessable() {
    let e = ApiError::DataFrame("not found: x".to_string());
    assert_eq!(e.status_code(), 422);
    assert_eq!(e.message(), "Erro na operação com DataFrame: not found: x");
    let r = e.error_response();
    assert_eq!(r.status, 422);
    assert_eq!(error_member(&r.body), "Erro na operação com DataFrame: not found: x");
}

#[test]
fn api_error_json_is_bad_request() {
    let e = ApiError::Json("EOF while parsing".to_string());
    assert_eq!(e.status_code(), 400);
    assert_eq!(e.message(), "Falha ao (de)serializar JSON: EOF while parsing");
    let r = e.error_response();
    assert_eq!(r.status, 400);
    assert_eq!(error_member(&r.body), "Falha ao (de)serializar JSON: EOF while parsing");
}

#[test]
fn app_error_statuses_and_bodies() {
    let cases = vec![
        (AppError::Polars("p".to_string()), 500, "Erro na operação Polars: p"),
        (AppError::Json("j".to_string()), 400, "Falha ao (de)serializar JSON: j"),
        (AppError::Http("h".to_string()), 500, "Falha ao construir resposta HTTP: h"),
        (AppError::Oracle("o".to_string()), 502, "Erro no Oracle: o"),
        (AppError::Generic("g".to_string()), 500, "Erro genérico: g"),
    ];
    for (e, status, message) in cases {
        assert_eq!(e.message(), message);
        let cause = message.rsplit(' ').next().unwrap().to_string();
        let r = e.into_response();
        assert_eq!(r.status, status);
        assert_eq!(error_member(&r.body), cause);
    }
}
