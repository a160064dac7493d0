use taskserver::response::ResponseBuilder;

fn json_object(key: &str, value: &str) -> String {
    let mut m = serde_json::Map::new();
    m.insert(key.to_string(), serde_json::Value::String(value.to_string()));
    serde_json::Value::Object(m).to_string()
}

#[test]
fn test_response_builder_json() {
    let response = ResponseBuilder::json(json_object("status", "ok")).build();
    assert_eq!(response, "HTTP/1.1 200 OK\r\nContent-Type: application/json\r\n\r\n{\"status\":\"ok\"}");
}

#[test]
fn test_response_builder_not_found() {
    let response = ResponseBuilder::not_found().build();
    assert_eq!(response, "HTTP/1.1 404 NOT FOUND\r\nContent-Type: application/json\r\n\r\n{\"error\": \"Not Found\"}");
}

#[test]
fn test_response_builder_unauthorized() {
    let response = ResponseBuilder::unauthorized().build();
    assert_eq!(response, "HTTP/1.1 401 UNAUTHORIZED\r\nContent-Type: application/json\r\n\r\n{\"error\": \"Unauthorized\"}");
}

#[test]
fn test_response_builder_bad_request() {
    let response = ResponseBuilder::bad_request(json_object("error", "Bad Request")).build();
    assert_eq!(response, "HTTP/1.1 400 BAD REQUEST\r\nContent-Type: application/json\r\n\r\n{\"error\":\"Bad Request\"}");
}

#[test]
fn test_response_builder_conflict() {
    let response = ResponseBuilder::conflict(json_object("error", "Conflict")).build();
    assert_eq!(response, "HTTP/1.1 409 CONFLICT\r\nContent-Type: application/json\r\n\r\n{\"error\":\"Conflict\"}");
}

#[test]
fn test_response_builder_build() {
    let response = ResponseBuilder::new("200 OK", "text/plain", "Hello, World!".to_string()).build();
    assert_eq!(response, "HTTP/1.1 200 OK\r\nContent-Type: text/plain\r\n\r\nHello, World!");
}

#[test]
fn test_response_builder_build_empty() {
    let response = ResponseBuilder::new("200 OK", "text/plain", "".to_string()).build();
    assert_eq!(response, "HTTP/1.1 200 OK\r\nContent-Type: text/plain\r\n\r\n");
}
