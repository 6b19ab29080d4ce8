//! Token extraction: each known marker yields its literal value; a body with
//! no marker fails, never with a guessed value.

use syres::errors::SessionError;
use syres::token::extract_token;

#[test]
fn extracts_hidden_input_token() {
    let html = r#"<html><body><form>
        <input name="__RequestVerificationToken" type="hidden" value="CfDJ8AbC123" />
    </form></body></html>"#;
    assert_eq!(extract_token(html.as_bytes()), Ok(b"CfDJ8AbC123".to_vec()));
}

#[test]
fn extracts_hidden_input_token_single_quotes() {
    let html = "<input name='__RequestVerificationToken' type='hidden' value='tok-sq' />";
    assert_eq!(extract_token(html.as_bytes()), Ok(b"tok-sq".to_vec()));
}

#[test]
fn extracts_header_named_input_token() {
    let html = r#"<input name="X-Skedda-RequestVerificationToken" value="hdrtok" />"#;
    assert_eq!(extract_token(html.as_bytes()), Ok(b"hdrtok".to_vec()));
}

#[test]
fn extracts_meta_csrf_token() {
    let html = r#"<head><meta name="csrf-token" value="meta-tok"></head>"#;
    assert_eq!(extract_token(html.as_bytes()), Ok(b"meta-tok".to_vec()));
}

#[test]
fn markup_takes_precedence_over_substring_scan() {
    // Both a bare header-name mention (fallback territory) and a proper
    // hidden input are present; the markup value must win.
    let html = r#"<script>var h = "X-Skedda-RequestVerificationToken"; var v = "wrong";</script><input name="__RequestVerificationToken" value="right" />"#;
    assert_eq!(extract_token(html.as_bytes()), Ok(b"right".to_vec()));
}

#[test]
fn falls_back_to_quoted_literal_after_header_name() {
    let html = r#"<script>headers["X-Skedda-RequestVerificationToken"] = "fb-tok";</script>"#;
    // No name attribute anywhere, so the markup scan fails; the fallback takes
    // the next quoted literal after the marker: here the closing bracket text.
    assert_eq!(extract_token(html.as_bytes()), Ok(b"] = ".to_vec()));
}

#[test]
fn falls_back_after_plain_header_mention() {
    let html = r#"send X-Skedda-RequestVerificationToken then "abc123" ok"#;
    assert_eq!(extract_token(html.as_bytes()), Ok(b"abc123".to_vec()));
}

#[test]
fn extracts_value_attribute_written_before_the_name() {
    // The value attribute may stand on either side of the name attribute
    // within the marker's tag.
    let html = r#"<input type="hidden" value="early-tok" name="__RequestVerificationToken" />"#;
    assert_eq!(extract_token(html.as_bytes()), Ok(b"early-tok".to_vec()));
}

#[test]
fn value_in_a_later_tag_does_not_count() {
    // The marker's tag closes before any value attribute; the markup attempt
    // must fail, and the fallback then reads the next quoted literal.
    let html = r#"<input name="__RequestVerificationToken"><input value="other">"#;
    assert_eq!(extract_token(html.as_bytes()), Ok(b"><input value=".to_vec()));
}

#[test]
fn fails_without_any_marker() {
    let html = r#"<html><body><input name="user" value="nobody"></body></html>"#;
    assert_eq!(extract_token(html.as_bytes()), Err(SessionError::TokenNotFound));
}

#[test]
fn fails_on_empty_body() {
    assert_eq!(extract_token(b""), Err(SessionError::TokenNotFound));
}

#[test]
fn extracts_empty_value_when_marker_says_so() {
    // An empty value attribute is the marker's literal value, not a failure.
    let html = r#"<input name="__RequestVerificationToken" value="" />"#;
    assert_eq!(extract_token(html.as_bytes()), Ok(Vec::new()));
}
