use php_sapi::executor::check_script_path;
use php_sapi::executor::conclude_execution;
use php_sapi::ExecError;
use php_sapi::InitError;
use php_sapi::PhpSapi;
use php_sapi::ScriptSource;

#[test]
fn initialization_success_flow() {
    let mut sapi = PhpSapi::new();
    assert!(!sapi.is_available());

    // Only the first caller is told to run the engine's initializer.
    assert!(sapi.begin_initialize());
    assert!(!sapi.begin_initialize());

    sapi.finish_initialize(0);
    assert!(sapi.is_available());
    assert_eq!(sapi.init_outcome(), Ok(()));

    // Later callers are still not told to initialize again.
    assert!(!sapi.begin_initialize());
}

#[test]
fn initialization_failure_is_terminal_and_verbatim() {
    let mut sapi = PhpSapi::new();
    assert!(sapi.begin_initialize());
    sapi.finish_initialize(-7);

    assert!(!sapi.is_available());
    assert_eq!(sapi.init_outcome(), Err(InitError::StartupFailed { code: -7 }));

    // A failed start is never retried.
    assert!(!sapi.begin_initialize());
    assert!(matches!(sapi.begin_request(), Err(ExecError::NotInitialized)));
}

#[test]
fn requests_are_counted_only_when_ready() {
    let mut sapi = PhpSapi::new();
    assert!(matches!(sapi.begin_request(), Err(ExecError::NotInitialized)));
    assert_eq!(sapi.request_count(), 0);

    assert!(sapi.begin_initialize());
    sapi.finish_initialize(0);

    assert!(sapi.begin_request().is_ok());
    assert!(sapi.begin_request().is_ok());
    assert_eq!(sapi.request_count(), 2);

    let stats = sapi.stats();
    assert!(stats.initialized);
    assert_eq!(stats.request_count, 2);
}

#[test]
fn shutdown_runs_once_and_only_after_success() {
    let mut sapi = PhpSapi::new();

    // Nothing to tear down before a successful start.
    assert!(!sapi.begin_shutdown());

    assert!(sapi.begin_initialize());
    sapi.finish_initialize(0);

    // The teardown is ordered exactly once.
    assert!(sapi.begin_shutdown());
    assert!(!sapi.begin_shutdown());
}

#[test]
fn execution_after_shutdown_fails_fast() {
    let mut sapi = PhpSapi::new();
    assert!(sapi.begin_initialize());
    sapi.finish_initialize(0);
    assert!(sapi.begin_shutdown());

    assert!(!sapi.is_available());
    assert!(matches!(sapi.begin_request(), Err(ExecError::NotInitialized)));
    assert_eq!(sapi.request_count(), 0);
}

#[test]
fn script_path_with_embedded_nul_is_rejected() {
    assert!(check_script_path("/srv/site/index.php").is_ok());
    assert!(matches!(
        check_script_path("/srv/site/bad\0name.php"),
        Err(ExecError::InvalidScriptPath)
    ));
}

#[test]
fn successful_execution_returns_parsed_output() {
    let script = ScriptSource::File { path: "/srv/site/index.php".to_string() };
    let captured = b"Status: 201 Created\r\nX-From: engine\r\n\r\ncreated";
    let result = conclude_execution(&script, true, captured);
    let response = result.expect("engine success must parse");
    assert_eq!(response.status_code, 201);
    assert_eq!(response.headers.get("X-From"), Some(&"engine".to_string()));
    assert_eq!(response.body, b"created");
}

#[test]
fn failed_script_keeps_its_partial_output() {
    let script = ScriptSource::File { path: "/srv/site/broken.php".to_string() };
    let captured = b"Status: 500 Oops\r\n\r\nhalf a diagnostic page";
    let result = conclude_execution(&script, false, captured);
    match result {
        Err(ExecError::ExecutionFailed { response }) => {
            assert_eq!(response.status_code, 500);
            assert_eq!(response.body, b"half a diagnostic page");
        },
        other => panic!("expected ExecutionFailed, got {:?}", other),
    }
}

#[test]
fn failed_eval_keeps_its_partial_output() {
    let script = ScriptSource::Inline { code: "echo 1;".to_string() };
    let result = conclude_execution(&script, false, b"partial");
    match result {
        Err(ExecError::EvalFailed { response }) => {
            assert_eq!(response.body, b"partial");
            assert_eq!(response.status_code, 200);
        },
        other => panic!("expected EvalFailed, got {:?}", other),
    }
}
