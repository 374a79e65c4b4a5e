//! The errors of image analysis, and the message the user is shown for each.

use vstd::prelude::*;

use crate::report::{message0, message1, message2, message3, message_is, Message};
use crate::text::{decimal, decimal_string};

verus! {

/// What can go wrong while analysing an image or storing its description.
pub enum ImageAnalysisError {
    EmptyFile { filename: String },
    HttpError { filename: String, status: u16, response: String },
    EmptyResponse { filename: String },
    JsonParsing { filename: String, error: String },
    FileWriteTimeout { filename: String, timeout: u64 },
    AllHostsUnavailable,
    OllamaRequestTimeout,
    InvalidUuid { filename: String },
    DatabaseError { error: String },
}

/// The message that reports `error` for the file `filename`: the variants
/// that name a file report the file they name; every other variant without
/// a message of its own is reported as a critical error for `filename`.
pub open spec fn processing_error_message_is(
    m: Message,
    error: ImageAnalysisError,
    filename: Seq<char>,
) -> bool {
    match error {
        ImageAnalysisError::EmptyFile { filename: f } => message_is(
            m,
            "error.empty_file"@,
            seq![("filename"@, f@)],
        ),
        ImageAnalysisError::HttpError { filename: f, status, response } => message_is(
            m,
            "error.http_error_with_details"@,
            seq![("filename"@, f@), ("status"@, decimal(status as nat)), ("response"@, response@)],
        ),
        ImageAnalysisError::EmptyResponse { filename: f } => message_is(
            m,
            "error.empty_response"@,
            seq![("filename"@, f@)],
        ),
        ImageAnalysisError::JsonParsing { filename: f, error: e } => message_is(
            m,
            "error.json_parsing_with_details"@,
            seq![("filename"@, f@), ("error"@, e@)],
        ),
        ImageAnalysisError::FileWriteTimeout { filename: f, timeout } => message_is(
            m,
            "error.file_write_timeout_with_details"@,
            seq![("filename"@, f@), ("timeout"@, decimal(timeout as nat))],
        ),
        ImageAnalysisError::AllHostsUnavailable => message_is(
            m,
            "error.all_ollama_hosts_unavailable"@,
            seq![],
        ),
        ImageAnalysisError::OllamaRequestTimeout => message_is(
            m,
            "error.ollama_request_timeout"@,
            seq![],
        ),
        _ => message_is(m, "error.critical_processing_error"@, seq![("filename"@, filename)]),
    }
}

/// The message to print when processing `filename` failed with `error`.
pub fn processing_error_message(error: &ImageAnalysisError, filename: &str) -> (m: Message)
    ensures
        processing_error_message_is(m, *error, filename@),
{
    match error {
        ImageAnalysisError::EmptyFile { filename } => message1(
            "error.empty_file",
            "filename",
            filename.clone(),
        ),
        ImageAnalysisError::HttpError { filename, status, response } => message3(
            "error.http_error_with_details",
            "filename",
            filename.clone(),
            "status",
            decimal_string(*status as u64),
            "response",
            response.clone(),
        ),
        ImageAnalysisError::EmptyResponse { filename } => message1(
            "error.empty_response",
            "filename",
            filename.clone(),
        ),
        ImageAnalysisError::JsonParsing { filename, error } => message2(
            "error.json_parsing_with_details",
            "filename",
            filename.clone(),
            "error",
            error.clone(),
        ),
        ImageAnalysisError::FileWriteTimeout { filename, timeout } => message2(
            "error.file_write_timeout_with_details",
            "filename",
            filename.clone(),
            "timeout",
            decimal_string(*timeout),
        ),
        ImageAnalysisError::AllHostsUnavailable => message0("error.all_ollama_hosts_unavailable"),
        ImageAnalysisError::OllamaRequestTimeout => message0("error.ollama_request_timeout"),
        _ => message1("error.critical_processing_error", "filename", filename.to_owned()),
    }
}

} // verus!
