use executor::context::{ContextError, Executor};

#[test]
fn missing_key_comes_first() {
    let r = Executor::assemble(None, Some(reqwest::Client::new()), None);
    assert!(matches!(r, Err(ContextError::MissingKey)));
    let r = Executor::assemble(None, None, None);
    assert!(matches!(r, Err(ContextError::MissingKey)));
}

#[test]
fn missing_http_client_fails() {
    let r = Executor::assemble(Some("k".to_string()), None, Some(reqwest::Client::new()));
    assert!(matches!(r, Err(ContextError::HttpClient)));
    let r = Executor::assemble(Some("k".to_string()), Some(reqwest::Client::new()), None);
    assert!(matches!(r, Err(ContextError::HttpClient)));
}

#[test]
fn all_parts_build_a_context() {
    let r = Executor::assemble(
        Some("k".to_string()),
        Some(reqwest::Client::new()),
        Some(reqwest::Client::new()),
    );
    let ex = match r {
        Ok(ex) => ex,
        Err(e) => panic!("unexpected error {:?}", e),
    };
    let handle = ex.clone();
    let _ = handle.ai();
    let _ = handle.http();
}
