//! End-to-end tests of the request handler: each sends one request and
//! checks the status and the decoded JSON body.

use mock_api::handle_request;
use mock_api::json::JsonValue;
use mock_api::model::{post_from_json, user_from_json, HealthStatus, Post, User};
use mock_api::Response;

/// Parses a JSON response body with the crate's own parser.
fn parse_body(r: &Response) -> JsonValue {
    let body = r.body.as_ref().expect("response should carry a JSON body");
    let chars: Vec<char> = body.chars().collect();
    mock_api::json::parse_json(&chars).expect("response body should be valid JSON")
}

fn health_of(r: &Response) -> HealthStatus {
    let v = parse_body(r);
    match &v {
        JsonValue::Obj(fields) => {
            let mut status = None;
            let mut version = None;
            for (k, val) in fields {
                if let JsonValue::Str(s) = val {
                    if k == "status" {
                        status = Some(s.clone());
                    }
                    if k == "version" {
                        version = Some(s.clone());
                    }
                }
            }
            HealthStatus { status: status.expect("status"), version: version.expect("version") }
        }
        _ => panic!("health body should be an object"),
    }
}

fn user_of(r: &Response) -> User {
    user_from_json(&parse_body(r)).expect("body should decode as a user")
}

fn post_of(r: &Response) -> Post {
    post_from_json(&parse_body(r)).expect("body should decode as a post")
}

fn users_of(r: &Response) -> Vec<User> {
    match parse_body(r) {
        JsonValue::Arr(items) => items
            .iter()
            .map(|v| user_from_json(v).expect("array item should decode as a user"))
            .collect(),
        _ => panic!("body should be an array"),
    }
}

fn posts_of(r: &Response) -> Vec<Post> {
    match parse_body(r) {
        JsonValue::Arr(items) => items
            .iter()
            .map(|v| post_from_json(v).expect("array item should decode as a post"))
            .collect(),
        _ => panic!("body should be an array"),
    }
}

#[test]
fn test_health_endpoint_returns_ok() {
    let response = handle_request("GET", "/health", "");
    assert_eq!(response.status, 200);
    assert!(response.body.is_some());
    let health = health_of(&response);
    assert_eq!(health.status, "ok");
    assert_eq!(health.version, "0.1.0");
}

#[test]
fn test_health_ready_endpoint_returns_ready() {
    let response = handle_request("GET", "/health/ready", "");
    assert_eq!(response.status, 200);
    assert!(response.body.is_some());
    let health = health_of(&response);
    assert_eq!(health.status, "ready");
    assert_eq!(health.version, "0.1.0");
}

#[test]
fn test_list_users_returns_users() {
    let response = handle_request("GET", "/users", "");
    assert_eq!(response.status, 200);
    assert!(response.body.is_some());
    let users = users_of(&response);
    assert_eq!(users.len(), 2);
    assert_eq!(users[0].name, "Alice");
    assert_eq!(users[0].email, "alice@example.com");
    assert_eq!(users[1].name, "Bob");
    assert_eq!(users[1].email, "bob@example.com");
}

#[test]
fn test_get_user_by_id_returns_user() {
    let response = handle_request("GET", "/users/42", "");
    assert_eq!(response.status, 200);
    assert!(response.body.is_some());
    let user = user_of(&response);
    assert_eq!(user.id, 42);
    assert_eq!(user.name, "Sample User");
    assert_eq!(user.email, "user@example.com");
}

#[test]
fn test_create_user_returns_created_user() {
    let response = handle_request(
        "POST",
        "/users",
        r#"{"id": 0, "name": "Charlie", "email": "charlie@example.com"}"#,
    );
    assert_eq!(response.status, 200);
    assert!(response.body.is_some());
    let user = user_of(&response);
    assert_eq!(user.id, 1); // ID is set by server
    assert_eq!(user.name, "Charlie");
    assert_eq!(user.email, "charlie@example.com");
}

#[test]
fn test_create_user_with_invalid_json_returns_bad_request() {
    let response = handle_request("POST", "/users", r#"{"invalid": json"#);
    assert_eq!(response.status, 400);
}

#[test]
fn test_create_user_with_malformed_json_returns_bad_request() {
    let response = handle_request("POST", "/users", r#"{not valid json at all"#);
    assert_eq!(response.status, 400);
}

#[test]
fn test_create_user_with_missing_fields_returns_unprocessable() {
    let response = handle_request("POST", "/users", r#"{"name": "NoEmail"}"#);
    assert_eq!(response.status, 422);
}

#[test]
fn test_update_user_returns_updated_user() {
    let response = handle_request(
        "PUT",
        "/users/5",
        r#"{"id": 0, "name": "Updated Name", "email": "updated@example.com"}"#,
    );
    assert_eq!(response.status, 200);
    assert!(response.body.is_some());
    let user = user_of(&response);
    assert_eq!(user.id, 5); // ID from path
    assert_eq!(user.name, "Updated Name");
    assert_eq!(user.email, "updated@example.com");
}

#[test]
fn test_update_user_with_invalid_json_returns_bad_request() {
    let response = handle_request("PUT", "/users/5", r#"not valid json"#);
    assert_eq!(response.status, 400);
}

#[test]
fn test_update_user_with_empty_body_returns_bad_request() {
    let response = handle_request("PUT", "/users/5", "");
    assert_eq!(response.status, 400);
}

#[test]
fn test_delete_user_returns_no_content() {
    let response = handle_request("DELETE", "/users/10", "");
    assert_eq!(response.status, 204);
}

#[test]
fn test_get_user_posts_returns_posts() {
    let response = handle_request("GET", "/users/7/posts", "");
    assert_eq!(response.status, 200);
    assert!(response.body.is_some());
    let posts = posts_of(&response);
    assert_eq!(posts.len(), 1);
    assert_eq!(posts[0].user_id, 7);
    assert_eq!(posts[0].title, "User Post");
}

#[test]
fn test_list_posts_returns_posts() {
    let response = handle_request("GET", "/posts", "");
    assert_eq!(response.status, 200);
    assert!(response.body.is_some());
    let posts = posts_of(&response);
    assert_eq!(posts.len(), 2);
    assert_eq!(posts[0].title, "First Post");
    assert_eq!(posts[0].body, "Hello world");
    assert_eq!(posts[1].title, "Second Post");
    assert_eq!(posts[1].body, "Another post");
}

#[test]
fn test_get_post_by_id_returns_post() {
    let response = handle_request("GET", "/posts/99", "");
    assert_eq!(response.status, 200);
    assert!(response.body.is_some());
    let post = post_of(&response);
    assert_eq!(post.id, 99);
    assert_eq!(post.title, "Sample Post");
    assert_eq!(post.body, "Post body");
}

#[test]
fn test_create_post_returns_created_post() {
    let response = handle_request(
        "POST",
        "/posts",
        r#"{"id": 0, "user_id": 5, "title": "New Post", "body": "Post content"}"#,
    );
    assert_eq!(response.status, 200);
    assert!(response.body.is_some());
    let post = post_of(&response);
    assert_eq!(post.id, 1); // ID is set by server
    assert_eq!(post.user_id, 5);
    assert_eq!(post.title, "New Post");
    assert_eq!(post.body, "Post content");
}

#[test]
fn test_create_post_with_invalid_json_returns_bad_request() {
    let response = handle_request("POST", "/posts", r#"{"broken"#);
    assert_eq!(response.status, 400);
}

#[test]
fn test_create_post_with_malformed_json_returns_bad_request() {
    let response = handle_request("POST", "/posts", r#"{not valid json"#);
    assert_eq!(response.status, 400);
}

#[test]
fn test_create_post_with_missing_fields_returns_unprocessable() {
    let response = handle_request("POST", "/posts", r#"{"title": "Missing user_id and body"}"#);
    assert_eq!(response.status, 422);
}

#[test]
fn test_update_post_returns_updated_post() {
    let response = handle_request(
        "PUT",
        "/posts/5",
        r#"{"id": 0, "user_id": 3, "title": "Updated Title", "body": "Updated body"}"#,
    );
    assert_eq!(response.status, 200);
    assert!(response.body.is_some());
    let post = post_of(&response);
    assert_eq!(post.id, 5); // ID from path
    assert_eq!(post.user_id, 3);
    assert_eq!(post.title, "Updated Title");
    assert_eq!(post.body, "Updated body");
}

#[test]
fn test_update_post_with_invalid_json_returns_bad_request() {
    let response = handle_request("PUT", "/posts/5", r#"not valid json"#);
    assert_eq!(response.status, 400);
}

#[test]
fn test_update_post_with_id_over_100_returns_not_found() {
    let response = handle_request(
        "PUT",
        "/posts/101",
        r#"{"id": 0, "user_id": 3, "title": "Test", "body": "Test body"}"#,
    );
    assert_eq!(response.status, 404);
}

#[test]
fn test_delete_post_returns_no_content() {
    let response = handle_request("DELETE", "/posts/10", "");
    assert_eq!(response.status, 204);
}

#[test]
fn test_delete_post_with_id_over_100_returns_not_found() {
    let response = handle_request("DELETE", "/posts/101", "");
    assert_eq!(response.status, 404);
}

#[test]
fn test_nonexistent_route_returns_not_found() {
    let response = handle_request("GET", "/nonexistent", "");
    assert_eq!(response.status, 404);
}

#[test]
fn test_invalid_user_id_type_returns_unprocessable_entity() {
    // a typed parameter that fails to parse gives 422, not 404
    let response = handle_request("GET", "/users/not-a-number", "");
    assert_eq!(response.status, 422);
}

#[test]
fn test_get_user_with_uuid_format_returns_unprocessable_entity() {
    // a UUID is not an integer id
    let response = handle_request("GET", "/users/550e8400-e29b-41d4-a716-446655440000", "");
    assert_eq!(response.status, 422);
}

#[test]
fn test_invalid_post_id_type_returns_unprocessable_entity() {
    let response = handle_request("GET", "/posts/abc", "");
    assert_eq!(response.status, 422);
}

#[test]
fn test_get_post_with_uuid_format_returns_unprocessable_entity() {
    let response = handle_request("GET", "/posts/550e8400-e29b-41d4-a716-446655440000", "");
    assert_eq!(response.status, 422);
}

#[test]
fn test_delete_user_with_invalid_id_returns_unprocessable_entity() {
    let response = handle_request("DELETE", "/users/invalid", "");
    assert_eq!(response.status, 422);
}

#[test]
fn test_post_to_users_without_content_type_still_works() {
    // the body is parsed as JSON whether or not a content type was named
    let response =
        handle_request("POST", "/users", r#"{"id": 0, "name": "Test", "email": "test@example.com"}"#);
    assert_eq!(response.status, 200);
    assert!(response.body.is_some());
    let user = user_of(&response);
    assert_eq!(user.name, "Test");
}

#[test]
fn test_method_not_allowed_on_health() {
    // no POST route exists on /health, so no route matches
    let response = handle_request("POST", "/health", "");
    assert_eq!(response.status, 404);
}
