use agentim::error::AppError;

#[test]
fn not_found_returns_404() {
    let err = AppError::NotFound("agent not found".into());
    assert_eq!(err.status_code(), 404);
}

#[test]
fn unauthorized_returns_401() {
    let err = AppError::Unauthorized("invalid token".into());
    assert_eq!(err.status_code(), 401);
}

#[test]
fn forbidden_returns_403() {
    let err = AppError::Forbidden("not admin".into());
    assert_eq!(err.status_code(), 403);
}

#[test]
fn conflict_returns_409() {
    let err = AppError::Conflict("already exists".into());
    assert_eq!(err.status_code(), 409);
}

#[test]
fn validation_returns_422() {
    let err = AppError::Validation("bad input".into());
    assert_eq!(err.status_code(), 422);
}

#[test]
fn internal_returns_500() {
    let err = AppError::Internal("something broke".into());
    assert_eq!(err.status_code(), 500);
}

#[test]
fn error_codes_and_messages() {
    let err = AppError::Validation("bad input".into());
    assert_eq!(err.error_code(), "validation_error");
    assert_eq!(err.message(), "validation: bad input");
    let err = AppError::Db("disk full".into());
    assert_eq!(err.status_code(), 500);
    assert_eq!(err.error_code(), "database_error");
    assert_eq!(err.message(), "database error: disk full");
    assert_eq!(AppError::NotFound("x".into()).error_code(), "not_found");
}
