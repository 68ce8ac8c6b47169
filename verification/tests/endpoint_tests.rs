use rs_build::cargo_build::{build_answer, build_target, missing_path_message, query_error_message, Build, BuildError, BuildOutcome};
use rs_build::errors::{CIError, LoggerError};
use rs_build::post::{list_payloads, post_payload, Failure, PostError};

#[test]
fn build_record_trims_error_output() {
    let b = Build::from_outcome(&BuildOutcome::Ran(b"  Compiling x\n   Finished\n".to_vec()));
    assert_eq!(b.to_string(), "Compiling x\n   Finished");
}

#[test]
fn build_record_replaces_invalid_bytes() {
    let b = Build::from_outcome(&BuildOutcome::Ran(vec![b'o', b'k', 0xff]));
    assert_eq!(b.to_string(), "ok\u{fffd}");
}

#[test]
fn build_record_of_a_command_that_did_not_run() {
    let b = Build::from_outcome(&BuildOutcome::Failed("No such file or directory".to_string()));
    assert_eq!(b.to_string(), "'cargo build' failed! Error: No such file or directory");
}

#[test]
fn build_target_takes_first_path() {
    let v = vec!["/a".to_string(), "/b".to_string()];
    assert_eq!(build_target(Some(&v)), Some("/a".to_string()));
    assert_eq!(build_target(Some(&vec![])), None);
    assert_eq!(build_target(None), None);
}

#[test]
fn build_answer_texts() {
    assert_eq!(
        build_answer("/repo", &BuildOutcome::Ran(b" done \n".to_vec())),
        "\nRunning 'cargo build'...\nTarget Directory: /repo\n\nSuccess! output:  done \n"
    );
    assert_eq!(
        build_answer("/repo", &BuildOutcome::Failed("boom".to_string())),
        "\nRunning 'cargo build'...\nTarget Directory: /repo\n\n'cargo build' failed! Reason: boom"
    );
    assert_eq!(
        missing_path_message(),
        "\nProblem unpacking urlencoded HashMap: No value(s) exist for given key!\n"
    );
    assert_eq!(
        query_error_message("Expected query, found empty string"),
        "\nCould not extract HashMap from url...\nError: Expected query, found empty string\n"
    );
}

#[test]
fn build_error_texts() {
    assert_eq!(BuildError::NotFound.description(), "Location error!");
    assert_eq!(BuildError::NotFound.to_string(), "No src or directory to build from!");
    let e = BuildError::IO(std::io::Error::new(std::io::ErrorKind::Other, "x"));
    assert_eq!(e.description(), "I/O Error!");
    assert!(e.to_string().contains("\"x\""));
}

#[test]
fn ci_error_texts() {
    let e = CIError::Unknown("strange".to_string());
    assert_eq!(e.description(), "strange");
    assert_eq!(e.to_string(), "strange");
    let q: CIError = urlencoded::UrlDecodingError::EmptyQuery.into();
    assert_eq!(q.description(), "Expected query, found empty string");
    assert_eq!(q.to_string(), q.description());
    let u: CIError = String::from_utf8(vec![0xff]).unwrap_err().into();
    assert!(matches!(u, CIError::Utf8(_)));
    let i: CIError = std::io::Error::new(std::io::ErrorKind::NotFound, "gone").into();
    assert!(matches!(i, CIError::CmdIo(_)));
    assert!(matches!(LoggerError::NoLogger, LoggerError::NoLogger));
}

#[test]
fn post_then_list_payloads() {
    let mut board = Vec::new();
    assert_eq!(post_payload(&mut board, "one".to_string()), "one");
    assert_eq!(post_payload(&mut board, "two".to_string()), "one ;\ntwo");
    assert_eq!(list_payloads(&board), "one;\ntwo");
    assert_eq!(list_payloads(&Vec::new()), "");
}

#[test]
fn post_error_texts() {
    assert_eq!(PostError::ParseError.to_string(), "An error occurred.");
    assert_eq!(PostError::MutexError.to_string(), "An error occurred.");
    assert_eq!(PostError::ParseError.description(), "Request could not be understood.");
    assert_eq!(PostError::MutexError.description(), "Internal server error.");
    assert_eq!(PostError::ParseError.status_code(), 400);
    assert_eq!(PostError::MutexError.status_code(), 500);
    assert_eq!(PostError::ParseError.answer_text(), "I didn't understand your request.");
    assert_eq!(PostError::MutexError.answer_text(), "There was a problem.");
    let bad = serde_json::from_str::<serde_json::Value>("{").unwrap_err();
    assert_eq!(PostError::from(bad), PostError::ParseError);
}

#[test]
fn failure_answers() {
    assert_eq!(Failure::PostBodyUnreadable.status_code(), 400);
    assert_eq!(Failure::PostBodyUnreadable.error(), Some(PostError::ParseError));
    assert_eq!(Failure::PostBodyUnreadable.message(), "Failed reading POST request body to 'data' buffer.");
    assert_eq!(Failure::PostLockFailed.message(), "Couldn't get payload from PostH");
    assert_eq!(Failure::DataLockFailed.message(), "Couldn't get payload from DataH");
    assert_eq!(Failure::DataLockFailed.error(), Some(PostError::MutexError));
    assert_eq!(Failure::HookTokenMissing.status_code(), 500);
    assert_eq!(Failure::HookTokenMissing.error(), None);
    assert_eq!(Failure::HookTokenMissing.message(), "Something went wrong");
    assert_eq!(Failure::HookBodyUnreadable.message(), "Failed reading POST request to buffer!");
    assert_eq!(Failure::HookPayloadInvalid.message(), "Failed deserializing payload!");
    assert_eq!(Failure::HookPayloadInvalid.status_code(), 400);
    assert_eq!(Failure::HookLockFailed.message(), "Mutex Error: couldn't get lock!");
    assert_eq!(Failure::ReportLockFailed.status_code(), 500);
}
