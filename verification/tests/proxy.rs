use host_telemetry::inference::build_inference_request;
use host_telemetry::inference::escape_json;
use host_telemetry::inference::inference_endpoint;
use host_telemetry::inference::inference_outcome;
use host_telemetry::inference::parse_inference_response;

#[test]
fn request_body_exact() {
    assert_eq!(
        build_inference_request("hi"),
        "{\"model\":\"deepseek-coder-v2:16b\",\"prompt\":\"hi\",\"stream\":false}"
    );
}

#[test]
fn request_body_escapes_quotes_and_newlines() {
    assert_eq!(
        build_inference_request("a\"b\nc\\d"),
        "{\"model\":\"deepseek-coder-v2:16b\",\"prompt\":\"a\\\"b\\nc\\\\d\",\"stream\":false}"
    );
}

#[test]
fn escape_handles_control_characters() {
    assert_eq!(escape_json("\u{1}\u{8}\t\u{1f}"), "\\u0001\\b\\t\\u001f");
}

#[test]
fn escape_leaves_plain_text_alone() {
    assert_eq!(escape_json("plain text, even with Ümläute"), "plain text, even with Ümläute");
}

#[test]
fn request_body_is_valid_json_and_round_trips_the_prompt() {
    let prompt = "line one\nline \"two\" \\ \u{7}";
    let body = build_inference_request(prompt);
    let v: serde_json::Value = serde_json::from_str(&body).unwrap();
    assert_eq!(v.get("model").unwrap().as_str().unwrap(), "deepseek-coder-v2:16b");
    assert_eq!(v.get("prompt").unwrap().as_str().unwrap(), prompt);
    assert_eq!(v.get("stream").unwrap().as_bool().unwrap(), false);
}

#[test]
fn endpoint_is_the_local_generate_address() {
    assert_eq!(inference_endpoint(), "http://localhost:11434/api/generate");
}

#[test]
fn response_field_is_returned_unchanged() {
    let r = parse_inference_response("{\"response\": \"hello\"}");
    assert_eq!(r, Ok(String::from("hello")));
}

#[test]
fn malformed_json_gives_an_error_and_no_partial_result() {
    let r = parse_inference_response("{\"response\": \"hel");
    assert_eq!(r, Err(String::from("invalid inference response")));
}

#[test]
fn missing_field_gives_an_error() {
    let r = parse_inference_response("{\"other\": \"hello\"}");
    assert_eq!(r, Err(String::from("invalid inference response")));
}

#[test]
fn non_string_field_gives_an_error() {
    let r = parse_inference_response("{\"response\": 5}");
    assert_eq!(r, Err(String::from("invalid inference response")));
}

#[test]
fn non_object_body_gives_an_error() {
    let r = parse_inference_response("[1, 2, 3]");
    assert_eq!(r, Err(String::from("invalid inference response")));
}

#[test]
fn transport_error_is_surfaced_verbatim() {
    let r = inference_outcome(Err(String::from("connection refused")));
    assert_eq!(r, Err(String::from("connection refused")));
}

#[test]
fn delivered_body_is_parsed() {
    let r = inference_outcome(Ok(String::from("{\"response\": \"hello\"}")));
    assert_eq!(r, Ok(String::from("hello")));
    let r = inference_outcome(Ok(String::from("not json")));
    assert_eq!(r, Err(String::from("invalid inference response")));
}
