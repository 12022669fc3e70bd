use model_compressor::error::AppError;

fn all() -> Vec<AppError> {
    vec![
        AppError::FileTooLarge("x".into()),
        AppError::UnsupportedFormat("x".into()),
        AppError::InvalidMultipart("x".into()),
        AppError::TaskNotFound("x".into()),
        AppError::Io("x".into()),
        AppError::Serde("x".into()),
        AppError::Compression("x".into()),
        AppError::ModelLoad("x".into()),
        AppError::BadRequest("x".into()),
        AppError::Internal("x".into()),
    ]
}

#[test]
fn error_status_codes() {
    let codes: Vec<u16> = all().iter().map(|e| e.status_code()).collect();
    assert_eq!(codes, vec![413, 400, 400, 404, 500, 500, 500, 500, 400, 500]);
}

#[test]
fn error_kinds() {
    let kinds: Vec<String> = all().iter().map(|e| e.error_type()).collect();
    assert_eq!(
        kinds,
        vec![
            "file_too_large",
            "unsupported_format",
            "invalid_multipart",
            "task_not_found",
            "internal_error",
            "internal_error",
            "internal_error",
            "internal_error",
            "bad_request",
            "internal_error"
        ]
    );
}

#[test]
fn error_messages() {
    let msgs: Vec<String> = all().iter().map(|e| e.message()).collect();
    assert_eq!(
        msgs,
        vec![
            "File too large: x",
            "Unsupported file format: x",
            "Invalid multipart request: x",
            "Task not found: x",
            "IO error: x",
            "Serialization error: x",
            "Compression error: x",
            "Model loading error: x",
            "Bad request: x",
            "Internal server error: x"
        ]
    );
}

#[test]
fn client_errors_are_4xx() {
    for e in all() {
        let client = matches!(
            e,
            AppError::FileTooLarge(_)
                | AppError::UnsupportedFormat(_)
                | AppError::InvalidMultipart(_)
                | AppError::TaskNotFound(_)
                | AppError::BadRequest(_)
        );
        let code = e.status_code();
        assert_eq!(client, (400..500).contains(&code));
        if !client {
            assert_eq!(code, 500);
        }
    }
}
