use diff_gitignore_filter::config::ConfigError;
use diff_gitignore_filter::error::{Error, IoFailure, ResultExt};
use std::sync::{Arc, Mutex};

fn io_failure(message: &str) -> IoFailure {
    IoFailure { broken_pipe: false, message: message.to_string() }
}

#[test]
fn test_error_display() {
    let io_error = Error::Io(io_failure("file not found"));
    assert!(io_error.message().contains("IO error"));
    assert!(io_error.message().contains("file not found"));

    let processing_error = Error::processing_error("custom message".to_string());
    assert!(processing_error.message().contains("Processing error"));
    assert!(processing_error.message().contains("custom message"));

    let config_error = Error::Config(ConfigError::IoError { source: "test error".to_string() });
    assert!(config_error.message().contains("Configuration error"));
}

#[test]
fn test_error_from_io() {
    let io_err = io_failure("access denied");
    let error = Error::from(io_err);

    match error {
        Error::Io(_) => (),
        _ => panic!("Expected IO error"),
    }
}

#[test]
fn test_error_from_config() {
    let config_err = ConfigError::IoError { source: "test".to_string() };
    let error = Error::from(config_err);

    match error {
        Error::Config(_) => (),
        _ => panic!("Expected Config error"),
    }
}

#[test]
fn test_processing_error() {
    let error = Error::processing_error("test message".to_string());

    match error {
        Error::Processing(msg) => assert_eq!(msg, "test message"),
        _ => panic!("Expected Processing error"),
    }
}

#[test]
fn test_error_source() {
    let error = Error::Io(io_failure("not found"));

    assert!(error.has_source());

    let processing_error = Error::processing_error("test".to_string());
    assert!(!processing_error.has_source());
}

#[test]
fn test_error_chain() {
    let error = Error::processing_error("initial".to_string());
    let result = error.chain(|e| -> Result<String, Error> {
        Err(Error::processing_error(format!("chained: {}", e.message())))
    });

    match result {
        Err(Error::Processing(msg)) => {
            assert!(msg.contains("chained: Processing error: initial"))
        }
        _ => panic!("Expected chained processing error"),
    }
}

#[test]
fn test_error_map_context() {
    let error = Error::processing_error("original".to_string());
    let mapped = error.map_context(|msg| format!("mapped: {msg}"));

    match mapped {
        Error::Processing(msg) => assert_eq!(msg, "mapped: original"),
        _ => panic!("Expected processing error"),
    }

    let io_error = Error::Io(io_failure("test"));
    let mapped_io = io_error.map_context(|msg| format!("mapped: {msg}"));

    match mapped_io {
        Error::Io(_) => (),
        _ => panic!("Expected IO error to remain unchanged"),
    }
}

#[test]
fn test_error_combine_errors() {
    let errors = vec![
        Error::processing_error("first".to_string()),
        Error::processing_error("second".to_string()),
        Error::processing_error("third".to_string()),
    ];

    let combined = Error::combine_errors(errors);
    match combined {
        Error::Processing(msg) => {
            assert!(msg.contains("Multiple errors occurred"));
            assert!(msg.contains("Error 1: Processing error: first"));
            assert!(msg.contains("Error 2: Processing error: second"));
            assert!(msg.contains("Error 3: Processing error: third"));
        }
        _ => panic!("Expected combined processing error"),
    }

    let single_error = vec![Error::processing_error("single".to_string())];
    let result = Error::combine_errors(single_error);
    match result {
        Error::Processing(msg) => assert_eq!(msg, "single"),
        _ => panic!("Expected single processing error"),
    }

    let empty_result = Error::combine_errors(vec![]);
    match empty_result {
        Error::Processing(msg) => assert_eq!(msg, "No errors to combine"),
        _ => panic!("Expected empty processing error"),
    }
}

#[test]
fn test_error_collect_errors() {
    let successful_results: Vec<Result<i32, Error>> = vec![Ok(1), Ok(2), Ok(3)];
    let collected = Error::collect_errors(successful_results).unwrap();
    assert_eq!(collected, vec![1, 2, 3]);

    let mixed_results: Vec<Result<i32, Error>> =
        vec![Ok(1), Err(Error::processing_error("error".to_string())), Ok(3)];
    let result = Error::collect_errors(mixed_results);
    assert!(result.is_err());
}

#[test]
fn test_error_first_error() {
    let successful_results: Vec<Result<i32, Error>> = vec![Ok(1), Ok(2), Ok(3)];
    let first_error = Error::first_error(successful_results);
    assert!(first_error.is_none());

    let mixed_results: Vec<Result<i32, Error>> = vec![
        Ok(1),
        Err(Error::processing_error("first_error".to_string())),
        Err(Error::processing_error("second_error".to_string())),
    ];
    let first_error = Error::first_error(mixed_results).unwrap();
    match first_error {
        Error::Processing(msg) => assert_eq!(msg, "first_error"),
        _ => panic!("Expected first processing error"),
    }
}

#[test]
fn test_result_ext_with_context() {
    let result: Result<i32, Error> = Err(Error::processing_error("original".to_string()));
    let with_context = result.with_context(|| "additional context".to_string());

    match with_context {
        Err(Error::Processing(msg)) => {
            assert!(msg.contains("additional context"));
            assert!(msg.contains("original"));
        }
        _ => panic!("Expected processing error with context"),
    }

    let success: Result<i32, Error> = Ok(42);
    let success_with_context = success.with_context(|| "context".to_string());
    assert_eq!(success_with_context.unwrap(), 42);
}

#[test]
fn test_result_ext_map_error() {
    let result: Result<i32, Error> = Err(Error::processing_error("original".to_string()));
    let mapped =
        result.map_error(|e| Error::processing_error(format!("mapped: {}", e.message())));

    match mapped {
        Err(Error::Processing(msg)) => {
            assert!(msg.contains("mapped: Processing error: original"))
        }
        _ => panic!("Expected mapped processing error"),
    }

    let success: Result<i32, Error> = Ok(42);
    let success_mapped =
        success.map_error(|e| Error::processing_error(format!("mapped: {}", e.message())));
    assert_eq!(success_mapped.unwrap(), 42);
}

#[test]
fn test_result_ext_inspect_error() {
    let inspected = Arc::new(Mutex::new(String::new()));
    let inspected_clone = Arc::clone(&inspected);

    let result: Result<i32, Error> = Err(Error::processing_error("test".to_string()));
    let inspected_result = result.inspect_error(|e| {
        *inspected_clone.lock().unwrap() = format!("inspected: {}", e.message());
    });

    match inspected_result {
        Err(Error::Processing(msg)) => assert_eq!(msg, "test"),
        _ => panic!("Expected unchanged processing error"),
    }

    assert_eq!(*inspected.lock().unwrap(), "inspected: Processing error: test");

    let success_tracker = Arc::new(Mutex::new(String::new()));
    let success_tracker_clone = Arc::clone(&success_tracker);

    let success: Result<i32, Error> = Ok(42);
    let success_result = success.inspect_error(|e| {
        *success_tracker_clone.lock().unwrap() = format!("should not happen: {}", e.message());
    });

    assert_eq!(success_result.unwrap(), 42);
    assert_eq!(*success_tracker.lock().unwrap(), "");
}

#[test]
fn error_messages_are_exact() {
    assert_eq!(Error::Io(io_failure("gone")).message(), "IO error: gone");
    assert_eq!(Error::Processing("p".to_string()).message(), "Processing error: p");
    assert_eq!(
        Error::Config(ConfigError::IoError { source: "s".to_string() }).message(),
        "Configuration error: IO error during configuration: s"
    );
    assert_eq!(
        Error::DownstreamSpawnFailed("x".to_string()).message(),
        "DownstreamSpawnFailed: x"
    );
    assert_eq!(
        Error::DownstreamProcessFailed("y".to_string()).message(),
        "DownstreamProcessFailed: y"
    );
    assert!(Error::Config(ConfigError::IoError { source: "s".to_string() }).has_source());
    assert!(!Error::DownstreamSpawnFailed("x".to_string()).has_source());
}

#[test]
fn combined_message_is_exact() {
    let mut errors = Vec::new();
    for i in 0..11 {
        errors.push(Error::processing_error(format!("e{i}")));
    }
    match Error::combine_errors(errors) {
        Error::Processing(msg) => assert_eq!(
            msg,
            "Multiple errors occurred: Error 1: Processing error: e0; Error 2: Processing error: e1; Error 3: Processing error: e2; Error 4: Processing error: e3; Error 5: Processing error: e4; Error 6: Processing error: e5; Error 7: Processing error: e6; Error 8: Processing error: e7; Error 9: Processing error: e8; Error 10: Processing error: e9; Error 11: Processing error: e10"
        ),
        _ => panic!("processing error expected"),
    }
    match Error::combine_errors(vec![Error::Io(io_failure("only"))]) {
        Error::Io(f) => assert_eq!(f.message, "only"),
        _ => panic!("the one error expected"),
    }
}

#[test]
fn context_reaches_only_errors_with_a_message() {
    let spawn: Result<(), Error> = Err(Error::DownstreamSpawnFailed("no sh".to_string()));
    match spawn.with_context(|| "ctx".to_string()) {
        Err(Error::DownstreamSpawnFailed(msg)) => assert_eq!(msg, "ctx: no sh"),
        _ => panic!("spawn failure expected"),
    }
    let failed: Result<(), Error> = Err(Error::DownstreamProcessFailed("1".to_string()));
    match failed.with_context(|| "ctx".to_string()) {
        Err(Error::DownstreamProcessFailed(msg)) => assert_eq!(msg, "ctx: 1"),
        _ => panic!("process failure expected"),
    }
    let io: Result<(), Error> = Err(Error::Io(io_failure("raw")));
    match io.with_context(|| panic!("not asked")) {
        Err(Error::Io(f)) => assert_eq!(f.message, "raw"),
        _ => panic!("io error expected"),
    }
    let ok: Result<i32, Error> = Ok(1);
    assert_eq!(ok.chain_error(|v| Ok::<i32, Error>(v + 1)).unwrap(), 2);
    let err: Result<i32, Error> = Err(Error::processing_error("x".to_string()));
    assert!(err.chain_error(|v| Ok::<i32, Error>(v + 1)).is_err());
    let replaced = Error::processing_error("a".to_string())
        .or_else(|_| Error::DownstreamSpawnFailed("b".to_string()));
    assert!(matches!(replaced, Error::DownstreamSpawnFailed(_)));
}

#[test]
fn first_failure_is_the_one_reported() {
    let results: Vec<Result<i32, Error>> = vec![
        Ok(1),
        Err(Error::processing_error("one".to_string())),
        Ok(2),
        Err(Error::processing_error("two".to_string())),
    ];
    match Error::collect_errors(results) {
        Err(Error::Processing(msg)) => assert_eq!(msg, "one"),
        _ => panic!("first error expected"),
    }
    let none: Vec<Result<i32, Error>> = Vec::new();
    assert_eq!(Error::collect_errors(none).unwrap(), Vec::<i32>::new());
}

#[test]
fn errors_without_a_message_pass_unasked() {
    let io = Error::Io(io_failure("raw")).map_context(|_| panic!("not asked"));
    assert!(matches!(io, Error::Io(_)));
    let config = Error::Config(ConfigError::IoError { source: "s".to_string() })
        .map_context(|_| panic!("not asked"));
    assert!(matches!(config, Error::Config(_)));
    let ok: Result<i32, Error> = Ok(3);
    assert_eq!(ok.with_context(|| panic!("not asked")).unwrap(), 3);
}
