use moneywright_desktop::readiness::{classify_log, is_ready_line, LogCategory};

#[test]
fn ready_phrases_are_detected() {
    assert!(is_ready_line("Server is running on port 17777"));
    assert!(is_ready_line("Listening on http://localhost:17777"));
    assert!(is_ready_line("[api] Server running"));
}

#[test]
fn other_lines_are_not_ready() {
    assert!(!is_ready_line("connecting to database..."));
    assert!(!is_ready_line(""));
    assert!(!is_ready_line("server is running"));
}

#[test]
fn zero_failed_summary_is_success() {
    assert_eq!(classify_log("Migration: 12 success, 0 failed"), LogCategory::Success);
}

#[test]
fn completed_summary_with_failures_is_success() {
    assert_eq!(classify_log("Migrations complete: 3 success, 2 failed"), LogCategory::Success);
}

#[test]
fn summary_with_failures_is_error() {
    assert_eq!(classify_log("Migration: 3 success, 2 failed"), LogCategory::Error);
}

#[test]
fn explicit_markers_come_first() {
    assert_eq!(classify_log("[ERROR] Server is running"), LogCategory::Error);
    assert_eq!(classify_log("[moneywright:err] boom"), LogCategory::Error);
    assert_eq!(classify_log("[Warn] 12 success complete"), LogCategory::Warning);
    assert_eq!(classify_log("[warning] disk"), LogCategory::Warning);
}

#[test]
fn success_phrases() {
    assert_eq!(classify_log("[moneywright] Server is running on port 17777"), LogCategory::Success);
    assert_eq!(classify_log("Migrations completed"), LogCategory::Success);
    assert_eq!(classify_log("Sync STARTED SUCCESSFULLY"), LogCategory::Success);
    assert_eq!(classify_log("job succeeded, 1 failed earlier"), LogCategory::Success);
}

#[test]
fn failure_and_error_phrases() {
    assert_eq!(classify_log("Request FAILED"), LogCategory::Error);
    assert_eq!(classify_log("Error: no such table"), LogCategory::Error);
    assert_eq!(classify_log("unhandled exception"), LogCategory::Error);
    assert_eq!(classify_log("worker crashed"), LogCategory::Error);
    assert_eq!(classify_log("10 failed"), LogCategory::Error);
}

#[test]
fn error_colon_needs_a_word_start() {
    assert_eq!(classify_log("[moneywright] myerror: nothing"), LogCategory::Server);
    assert_eq!(classify_log("(error: x)"), LogCategory::Error);
}

#[test]
fn warning_phrases() {
    assert_eq!(classify_log("Warning: slow query"), LogCategory::Warning);
    assert_eq!(classify_log("this API is deprecated"), LogCategory::Warning);
}

#[test]
fn server_lines_and_default() {
    assert_eq!(classify_log("[moneywright] GET /api 200"), LogCategory::Server);
    assert_eq!(classify_log("[Moneywright] GET /api 200"), LogCategory::Info);
    assert_eq!(classify_log("Using SQLite database"), LogCategory::Info);
    assert_eq!(classify_log(""), LogCategory::Info);
}

#[test]
fn zero_failed_must_stand_as_words() {
    assert_eq!(classify_log("10 failed"), LogCategory::Error);
    assert_eq!(classify_log("0 failedx"), LogCategory::Error);
    assert_eq!(classify_log("0failed"), LogCategory::Error);
    assert_eq!(classify_log("0  failed"), LogCategory::Info);
}

#[test]
fn category_names() {
    assert_eq!(LogCategory::Info.as_str(), "info");
    assert_eq!(LogCategory::Success.as_str(), "success");
    assert_eq!(LogCategory::Warning.as_str(), "warning");
    assert_eq!(LogCategory::Error.as_str(), "error");
    assert_eq!(LogCategory::Server.as_str(), "server");
}
