use ngenrs::outcome::{
    call_result, deliver, exception_message, load_result, BridgeError, EngineOutcome,
};

#[test]
fn identity_function_returns_its_argument() {
    let r = call_result("f", Some(EngineOutcome::Returned(Some("hello".to_string()))));
    assert!(matches!(r, Ok(ref s) if s == "hello"));
}

#[test]
fn undefined_function_fails_as_not_found() {
    let r = call_result("missing", None);
    match r {
        Err(e) => {
            assert!(matches!(e, BridgeError::FunctionNotFound(ref n) if n == "missing"));
            assert_eq!(e.message(), "Function missing not found");
        }
        Ok(_) => panic!("expected failure"),
    }
    let again = call_result("f", Some(EngineOutcome::Returned(Some("x".to_string()))));
    assert!(again.is_ok());
}

#[test]
fn thrown_call_reports_exception_text() {
    let r = call_result("f", Some(EngineOutcome::Threw(Some("boom".to_string()))));
    match r {
        Err(e) => assert_eq!(e.message(), "Function call error: boom"),
        Ok(_) => panic!("expected failure"),
    }
}

#[test]
fn value_without_string_form_is_empty() {
    let r = call_result("f", Some(EngineOutcome::Returned(None)));
    assert!(matches!(r, Ok(ref s) if s.is_empty()));
}

#[test]
fn script_load_failure_reports_script_error() {
    assert!(load_result(EngineOutcome::Returned(None)).is_ok());
    match load_result(EngineOutcome::Threw(None)) {
        Err(e) => assert_eq!(e.message(), "Script error: Unknown error"),
        Ok(_) => panic!("expected failure"),
    }
    assert_eq!(exception_message(Some("SyntaxError".to_string())), "SyntaxError");
}

#[test]
fn delivery_fills_exactly_one_out_parameter() {
    let d = deliver(Ok("v".to_string()));
    assert!(d.ok);
    assert_eq!(d.result.as_deref(), Some("v"));
    assert!(d.error.is_none());
    let d = deliver(Err(BridgeError::FunctionNotFound("g".to_string())));
    assert!(!d.ok);
    assert!(d.result.is_none());
    assert_eq!(d.error.as_deref(), Some("Function g not found"));
}
