//! Exact-text and edge-case tests: response bodies character for
//! character, JSON corner cases, and route resolution details.

use mock_api::handle_request;
use mock_api::model::user_from_json;

fn body_text(method: &str, path: &str, body: &str) -> String {
    let r = handle_request(method, path, body);
    assert_eq!(r.status, 200);
    r.body.expect("a 200 response carries a body")
}

#[test]
fn test_health_exact_body() {
    assert_eq!(body_text("GET", "/health", ""), r#"{"status":"ok","version":"0.1.0"}"#);
}

#[test]
fn test_ready_exact_body() {
    assert_eq!(body_text("GET", "/health/ready", ""), r#"{"status":"ready","version":"0.1.0"}"#);
}

#[test]
fn test_create_user_exact_body() {
    let body = body_text(
        "POST",
        "/users",
        r#"{"id":0,"name":"Charlie","email":"charlie@example.com"}"#,
    );
    assert_eq!(body, r#"{"id":1,"name":"Charlie","email":"charlie@example.com"}"#);
}

#[test]
fn test_get_user_exact_body_negative_id() {
    assert_eq!(
        body_text("GET", "/users/-5", ""),
        r#"{"id":-5,"name":"Sample User","email":"user@example.com"}"#
    );
}

#[test]
fn test_get_post_exact_body() {
    assert_eq!(
        body_text("GET", "/posts/7", ""),
        r#"{"id":7,"user_id":1,"title":"Sample Post","body":"Post body"}"#
    );
}

#[test]
fn test_list_users_exact_body() {
    assert_eq!(
        body_text("GET", "/users", ""),
        r#"[{"id":1,"name":"Alice","email":"alice@example.com"},{"id":2,"name":"Bob","email":"bob@example.com"}]"#
    );
}

#[test]
fn test_user_posts_exact_body() {
    assert_eq!(
        body_text("GET", "/users/3/posts", ""),
        r#"[{"id":1,"user_id":3,"title":"User Post","body":"Content"}]"#
    );
}

#[test]
fn test_plus_sign_id_parses() {
    let r = handle_request("GET", "/users/+12", "");
    assert_eq!(r.status, 200);
    assert!(r.body.unwrap().contains(r#""id":12"#));
}

#[test]
fn test_id_at_i32_bounds() {
    assert_eq!(handle_request("GET", "/users/2147483647", "").status, 200);
    assert_eq!(handle_request("GET", "/users/-2147483648", "").status, 200);
}

#[test]
fn test_id_beyond_i32_range_fails_coercion() {
    assert_eq!(handle_request("GET", "/users/2147483648", "").status, 422);
    assert_eq!(handle_request("GET", "/users/-2147483649", "").status, 422);
    assert_eq!(handle_request("GET", "/users/99999999999999999999", "").status, 422);
}

#[test]
fn test_empty_id_segment_fails_coercion() {
    assert_eq!(handle_request("GET", "/users/", "").status, 422);
}

#[test]
fn test_unknown_method_is_not_found() {
    assert_eq!(handle_request("PATCH", "/users/1", "").status, 404);
}

#[test]
fn test_path_without_leading_slash_is_not_found() {
    assert_eq!(handle_request("GET", "users", "").status, 404);
}

#[test]
fn test_root_path_is_not_found() {
    assert_eq!(handle_request("GET", "/", "").status, 404);
}

#[test]
fn test_duplicate_field_is_unprocessable() {
    let r = handle_request(
        "POST",
        "/users",
        r#"{"id":1,"id":2,"name":"N","email":"e@example.com"}"#,
    );
    assert_eq!(r.status, 422);
}

#[test]
fn test_unknown_fields_are_ignored() {
    let r = handle_request(
        "POST",
        "/users",
        r#"{"id":0,"name":"N","email":"e@example.com","extra":{"a":[1,true,null],"b":"x"}}"#,
    );
    assert_eq!(r.status, 200);
}

#[test]
fn test_whitespace_between_tokens_is_accepted() {
    let r = handle_request(
        "POST",
        "/users",
        " {\n\t\"id\" :\r 0 , \"name\" : \"N\" , \"email\" : \"e\" } \n",
    );
    assert_eq!(r.status, 200);
}

#[test]
fn test_wrong_field_type_is_unprocessable() {
    let r = handle_request("POST", "/users", r#"{"id":"1","name":"N","email":"e"}"#);
    assert_eq!(r.status, 422);
    let r = handle_request("POST", "/users", r#"{"id":1,"name":2,"email":"e"}"#);
    assert_eq!(r.status, 422);
}

#[test]
fn test_fractional_or_exponent_id_is_unprocessable() {
    assert_eq!(
        handle_request("POST", "/users", r#"{"id":1.5,"name":"N","email":"e"}"#).status,
        422
    );
    assert_eq!(
        handle_request("POST", "/users", r#"{"id":1e2,"name":"N","email":"e"}"#).status,
        422
    );
}

#[test]
fn test_id_out_of_i32_range_in_body_is_unprocessable() {
    assert_eq!(
        handle_request("POST", "/users", r#"{"id":2147483648,"name":"N","email":"e"}"#).status,
        422
    );
    assert_eq!(
        handle_request("POST", "/users", r#"{"id":99999999999999999999,"name":"N","email":"e"}"#)
            .status,
        422
    );
}

#[test]
fn test_non_object_json_body_is_unprocessable() {
    assert_eq!(handle_request("POST", "/users", "null").status, 422);
    assert_eq!(handle_request("POST", "/users", "[1,2]").status, 422);
    assert_eq!(handle_request("POST", "/users", "\"text\"").status, 422);
    assert_eq!(handle_request("POST", "/users", "true").status, 422);
    assert_eq!(handle_request("POST", "/users", "-7").status, 422);
}

#[test]
fn test_leading_zero_number_is_bad_request() {
    assert_eq!(
        handle_request("POST", "/users", r#"{"id":01,"name":"N","email":"e"}"#).status,
        400
    );
}

#[test]
fn test_trailing_text_after_value_is_bad_request() {
    assert_eq!(handle_request("POST", "/users", r#"{"id":1} trailing"#).status, 400);
}

#[test]
fn test_string_escapes_round_trip() {
    let r = handle_request(
        "POST",
        "/users",
        r#"{"id":0,"name":"a\"b\\c\/d\n","email":"e@example.com"}"#,
    );
    assert_eq!(r.status, 200);
    let chars: Vec<char> = r.body.as_ref().unwrap().chars().collect();
    let v = mock_api::json::parse_json(&chars).unwrap();
    let u = user_from_json(&v).unwrap();
    assert_eq!(u.name, "a\"b\\c/d\n");
}

#[test]
fn test_control_character_is_escaped_in_output() {
    let body = body_text("POST", "/users", r#"{"id":0,"name":"a\tb","email":"e"}"#);
    assert_eq!(body, "{\"id\":1,\"name\":\"a\\u0009b\",\"email\":\"e\"}");
}

#[test]
fn test_unicode_escapes_decode() {
    let body = body_text("POST", "/users", r#"{"id":0,"name":"\u0041","email":"e"}"#);
    assert_eq!(body, "{\"id\":1,\"name\":\"A\",\"email\":\"e\"}");
}

#[test]
fn test_surrogate_pair_decodes() {
    let r = handle_request(
        "POST",
        "/users",
        r#"{"id":0,"name":"\uD83D\uDE00","email":"e"}"#,
    );
    assert_eq!(r.status, 200);
    let chars: Vec<char> = r.body.as_ref().unwrap().chars().collect();
    let v = mock_api::json::parse_json(&chars).unwrap();
    let u = user_from_json(&v).unwrap();
    assert_eq!(u.name, "\u{1F600}");
}

#[test]
fn test_lone_surrogate_is_bad_request() {
    let r = handle_request("POST", "/users", r#"{"id":0,"name":"\uD800","email":"e"}"#);
    assert_eq!(r.status, 400);
}

#[test]
fn test_raw_control_character_in_string_is_bad_request() {
    let r = handle_request("POST", "/users", "{\"id\":0,\"name\":\"a\tb\",\"email\":\"e\"}");
    assert_eq!(r.status, 400);
}

#[test]
fn test_unterminated_string_is_bad_request() {
    let r = handle_request("POST", "/users", r#"{"id":0,"name":"unterminated"#);
    assert_eq!(r.status, 400);
}

#[test]
fn test_update_post_at_threshold_succeeds() {
    let body = r#"{"id":0,"user_id":3,"title":"T","body":"B"}"#;
    assert_eq!(handle_request("PUT", "/posts/100", body).status, 200);
    assert_eq!(handle_request("DELETE", "/posts/100", "").status, 204);
}

#[test]
fn test_update_user_has_no_threshold() {
    let body = r#"{"id":0,"name":"N","email":"e"}"#;
    assert_eq!(handle_request("PUT", "/users/101", body).status, 200);
    assert_eq!(handle_request("PUT", "/users/2147483647", body).status, 200);
    assert_eq!(handle_request("DELETE", "/users/2147483647", "").status, 204);
}

#[test]
fn test_update_post_body_errors_take_precedence_over_threshold() {
    // the body is decoded before the id guard runs
    assert_eq!(handle_request("PUT", "/posts/101", "{bad").status, 400);
    assert_eq!(handle_request("PUT", "/posts/101", "{}").status, 422);
}

#[test]
fn test_repeating_a_request_gives_the_same_answer() {
    let first = handle_request("GET", "/users/9", "");
    let second = handle_request("GET", "/users/9", "");
    assert_eq!(first.status, second.status);
    assert_eq!(first.body, second.body);
    let del1 = handle_request("DELETE", "/posts/101", "");
    let del2 = handle_request("DELETE", "/posts/101", "");
    assert_eq!(del1.status, del2.status);
    assert!(del1.body.is_none() && del2.body.is_none());
}

#[test]
fn test_deep_nesting_in_ignored_field_parses() {
    let r = handle_request(
        "POST",
        "/users",
        r#"{"id":0,"name":"N","email":"e","x":[[[{"y":[false,-2,"z"]}]]]}"#,
    );
    assert_eq!(r.status, 200);
}

#[test]
fn test_route_table_has_thirteen_routes() {
    let routes = mock_api::router::rocket();
    assert_eq!(routes.len(), 13);
}
