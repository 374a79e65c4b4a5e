use immich_describer::{
    processing_error_message, validate_args, validate_immich_directory, ImageAnalysisError,
    Message,
};

fn args(m: &Message) -> Vec<(String, String)> {
    m.args.iter().map(|a| (a.name.clone(), a.value.clone())).collect()
}

fn pair(a: &str, b: &str) -> (String, String) {
    (a.to_string(), b.to_string())
}

#[test]
fn empty_file_message() {
    let e = ImageAnalysisError::EmptyFile { filename: "a.jpg".to_string() };
    let m = processing_error_message(&e, "other.jpg");
    assert_eq!(m.key, "error.empty_file");
    assert_eq!(args(&m), vec![pair("filename", "a.jpg")]);
}

#[test]
fn http_error_message() {
    let e = ImageAnalysisError::HttpError {
        filename: "a.jpg".to_string(),
        status: 503,
        response: "busy".to_string(),
    };
    let m = processing_error_message(&e, "a.jpg");
    assert_eq!(m.key, "error.http_error_with_details");
    assert_eq!(
        args(&m),
        vec![pair("filename", "a.jpg"), pair("status", "503"), pair("response", "busy")]
    );
}

#[test]
fn empty_response_message() {
    let e = ImageAnalysisError::EmptyResponse { filename: "b.png".to_string() };
    let m = processing_error_message(&e, "x");
    assert_eq!(m.key, "error.empty_response");
    assert_eq!(args(&m), vec![pair("filename", "b.png")]);
}

#[test]
fn json_parsing_message() {
    let e = ImageAnalysisError::JsonParsing {
        filename: "c.png".to_string(),
        error: "eof".to_string(),
    };
    let m = processing_error_message(&e, "x");
    assert_eq!(m.key, "error.json_parsing_with_details");
    assert_eq!(args(&m), vec![pair("filename", "c.png"), pair("error", "eof")]);
}

#[test]
fn file_write_timeout_message() {
    let e = ImageAnalysisError::FileWriteTimeout { filename: "d.png".to_string(), timeout: 0 };
    let m = processing_error_message(&e, "x");
    assert_eq!(m.key, "error.file_write_timeout_with_details");
    assert_eq!(args(&m), vec![pair("filename", "d.png"), pair("timeout", "0")]);
    let e = ImageAnalysisError::FileWriteTimeout {
        filename: "d.png".to_string(),
        timeout: u64::MAX,
    };
    let m = processing_error_message(&e, "x");
    assert_eq!(args(&m)[1], pair("timeout", "18446744073709551615"));
}

#[test]
fn hosts_unavailable_message() {
    let m = processing_error_message(&ImageAnalysisError::AllHostsUnavailable, "x");
    assert_eq!(m.key, "error.all_ollama_hosts_unavailable");
    assert!(m.args.is_empty());
}

#[test]
fn request_timeout_message() {
    let m = processing_error_message(&ImageAnalysisError::OllamaRequestTimeout, "x");
    assert_eq!(m.key, "error.ollama_request_timeout");
    assert!(m.args.is_empty());
}

#[test]
fn other_errors_are_critical_for_the_given_file() {
    let e = ImageAnalysisError::DatabaseError { error: "down".to_string() };
    let m = processing_error_message(&e, "e.jpg");
    assert_eq!(m.key, "error.critical_processing_error");
    assert_eq!(args(&m), vec![pair("filename", "e.jpg")]);
    let e = ImageAnalysisError::InvalidUuid { filename: "f.jpg".to_string() };
    let m = processing_error_message(&e, "g.jpg");
    assert_eq!(args(&m), vec![pair("filename", "g.jpg")]);
}

#[test]
fn combined_and_monitor_conflict() {
    match validate_args(true, true) {
        Err(ms) => {
            let keys: Vec<&str> = ms.iter().map(|m| m.key.as_str()).collect();
            assert_eq!(
                keys,
                vec![
                    "error.incompatible_flags",
                    "error.combined_monitor_conflict",
                    "error.use_combined_or_monitor"
                ]
            );
        }
        Ok(()) => panic!("expected a conflict"),
    }
}

#[test]
fn single_mode_is_fine() {
    assert!(validate_args(true, false).is_ok());
    assert!(validate_args(false, true).is_ok());
    assert!(validate_args(false, false).is_ok());
}

#[test]
fn missing_directory() {
    match validate_immich_directory("/srv/immich", false, false) {
        Err(m) => {
            assert_eq!(m.key, "error.directory_not_found");
            assert_eq!(args(&m), vec![pair("path", "/srv/immich")]);
        }
        Ok(()) => panic!("expected an error"),
    }
}

#[test]
fn file_instead_of_directory() {
    match validate_immich_directory("/srv/file", true, false) {
        Err(m) => {
            assert_eq!(m.key, "error.not_a_directory");
            assert_eq!(args(&m), vec![pair("path", "/srv/file")]);
        }
        Ok(()) => panic!("expected an error"),
    }
}

#[test]
fn existing_directory() {
    assert!(validate_immich_directory("/srv/immich", true, true).is_ok());
}
