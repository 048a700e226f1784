use protolaunch::diagnostics::UnwrapExt;

#[test]
fn present_value_is_unwrapped() {
    assert_eq!(Some(5).unwrap_or_error("No number."), Ok(5));
    let given: Result<&str, String> = Ok("value");
    assert_eq!(given.unwrap_or_error("Failed"), Ok("value"));
}

#[test]
fn missing_value_is_reported_by_the_heading() {
    let url: Option<String> = None;
    assert_eq!(
        url.unwrap_or_error("Didn't receive url argument."),
        Err("Didn't receive url argument.".to_string())
    );
}

#[test]
fn error_is_reported_under_the_heading() {
    let parsed: Result<u32, String> = Err("relative URL without a base".to_string());
    assert_eq!(
        parsed.unwrap_or_error("Error parsing URL"),
        Err("Error parsing URL: relative URL without a base".to_string())
    );
    let empty: Result<(), String> = Err(String::new());
    assert_eq!(empty.unwrap_or_error(""), Err(": ".to_string()));
}
