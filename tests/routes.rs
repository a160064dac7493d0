use base64::Engine;
use taskserver::router::RequestFault;
use taskserver::store::Server;

const OK_HEAD: &str = "HTTP/1.1 200 OK\r\nContent-Type: application/json\r\n\r\n";
const NOT_FOUND: &str = "HTTP/1.1 404 NOT FOUND\r\nContent-Type: application/json\r\n\r\n{\"error\": \"Not Found\"}";
const UNAUTHORIZED: &str =
    "HTTP/1.1 401 UNAUTHORIZED\r\nContent-Type: application/json\r\n\r\n{\"error\": \"Unauthorized\"}";

fn basic(user: &str, password: &str) -> String {
    format!("Basic {}", base64::engine::general_purpose::STANDARD.encode(format!("{}:{}", user, password)))
}

fn register(server: &mut Server, user: &str, password: &str) -> String {
    server
        .handle_request(&format!(
            "POST /users HTTP/1.1\r\n\r\n{{\"username\":\"{}\",\"password\":\"{}\"}}",
            user, password
        ))
        .unwrap()
}

fn send(server: &mut Server, method: &str, path: &str, auth: &str, body: &str) -> String {
    server
        .handle_request(&format!("{} {} HTTP/1.1\r\nAuthorization: {}\r\n\r\n{}", method, path, auth, body))
        .unwrap()
}

#[test]
fn full_scenario_register_create_update_delete() {
    let mut server = Server::new();
    assert_eq!(register(&mut server, "testuser", "testpass"), format!("{}{{\"status\":\"User created\"}}", OK_HEAD));
    let auth = "Basic dGVzdHVzZXI6dGVzdHBhc3M=";
    let created = send(&mut server, "POST", "/tasks", auth, "{\"content\":\"test task\"}");
    assert_eq!(created, format!("{}{{\"status\":\"Task created\"}}", OK_HEAD));
    assert_eq!(server.tasks.list_tasks()[0].id, 1);
    let updated = send(&mut server, "PUT", "/tasks/1", auth, "{\"content\":\"updated task\",\"completed\":true}");
    assert_eq!(updated, format!("{}{{\"status\":\"Task updated\"}}", OK_HEAD));
    let listed = send(&mut server, "GET", "/tasks", auth, "");
    assert_eq!(
        listed,
        format!(
            "{}[{{\"id\":1,\"content\":\"updated task\",\"completed\":true,\"owner\":{{\"username\":\"testuser\"}}}}]",
            OK_HEAD
        )
    );
    let deleted = send(&mut server, "DELETE", "/tasks/1", auth, "");
    assert_eq!(deleted, format!("{}{{\"status\":\"Task deleted\"}}", OK_HEAD));
    assert_eq!(send(&mut server, "GET", "/tasks/1", auth, ""), NOT_FOUND);
    assert_eq!(send(&mut server, "GET", "/tasks", auth, ""), format!("{}[]", OK_HEAD));
}

#[test]
fn registering_twice_conflicts() {
    let mut server = Server::new();
    register(&mut server, "ann", "one");
    assert_eq!(
        register(&mut server, "ann", "two"),
        "HTTP/1.1 409 CONFLICT\r\nContent-Type: application/json\r\n\r\n{\"error\":\"User already exists\"}"
    );
}

#[test]
fn empty_name_or_password_is_answered_ok_with_error() {
    let mut server = Server::new();
    let expected = format!("{}{{\"error\":\"Missing username or password\"}}", OK_HEAD);
    assert_eq!(register(&mut server, "", "pw"), expected);
    assert_eq!(register(&mut server, "ann", ""), expected);
}

#[test]
fn registration_body_errors_are_bad_requests() {
    let mut server = Server::new();
    let head = "HTTP/1.1 400 BAD REQUEST\r\nContent-Type: application/json\r\n\r\n";
    assert_eq!(
        server.handle_request("POST /users HTTP/1.1\r\n\r\n").unwrap(),
        format!("{}{{\"error\":\"Empty body\"}}", head)
    );
    assert_eq!(
        server.handle_request("POST /users HTTP/1.1\r\n\r\n{\"password\":\"pw\"}").unwrap(),
        format!("{}{{\"error\":\"Missing username\"}}", head)
    );
    assert_eq!(
        server.handle_request("POST /users HTTP/1.1\r\n\r\n{\"username\":\"ann\"}").unwrap(),
        format!("{}{{\"error\":\"Missing password\"}}", head)
    );
    assert_eq!(
        server.handle_request("POST /users HTTP/1.1\r\n\r\n{\"username\":5,\"password\":\"pw\"}").unwrap(),
        format!("{}{{\"error\":\"Missing username\"}}", head)
    );
}

#[test]
fn other_users_task_cannot_be_changed() {
    let mut server = Server::new();
    register(&mut server, "alice", "a");
    register(&mut server, "bob", "b");
    send(&mut server, "POST", "/tasks", &basic("alice", "a"), "{\"content\":\"mine\"}");
    let bob = basic("bob", "b");
    assert_eq!(send(&mut server, "PUT", "/tasks/1", &bob, "{\"completed\":true}"), UNAUTHORIZED);
    assert_eq!(send(&mut server, "DELETE", "/tasks/1", &bob, ""), UNAUTHORIZED);
    assert!(!server.tasks.list_tasks()[0].completed);
    assert_eq!(server.tasks.list_tasks().len(), 1);
    for auth in [basic("alice", "a"), bob] {
        assert_eq!(send(&mut server, "PUT", "/tasks/9", &auth, "{\"completed\":true}"), NOT_FOUND);
        assert_eq!(send(&mut server, "DELETE", "/tasks/9", &auth, ""), NOT_FOUND);
    }
}

#[test]
fn listing_without_credentials_is_unauthorized() {
    let mut server = Server::new();
    assert_eq!(server.handle_request("GET /tasks HTTP/1.1\r\n\r\n").unwrap(), UNAUTHORIZED);
    assert_eq!(server.handle_request("DELETE /tasks/1 HTTP/1.1\r\nHost: x\r\n\r\n").unwrap(), UNAUTHORIZED);
}

#[test]
fn bad_credentials_look_like_unknown_route() {
    let mut server = Server::new();
    register(&mut server, "ann", "pw");
    for auth in [
        "Bearer abc".to_string(),
        "basic YW5uOnB3".to_string(),
        "Basic !!!".to_string(),
        basic("ann", "wrong"),
        basic("nobody", "pw"),
        basic("ann", "pw:extra"),
    ] {
        assert_eq!(send(&mut server, "GET", "/tasks", &auth, ""), NOT_FOUND, "{}", auth);
    }
    assert_eq!(send(&mut server, "GET", "/tasks", &basic("ann", "pw"), ""), format!("{}[]", OK_HEAD));
}

#[test]
fn created_task_is_listed_once() {
    let mut server = Server::new();
    register(&mut server, "alice", "a");
    send(&mut server, "POST", "/tasks", &basic("alice", "a"), "{\"content\":\"X\"}");
    assert_eq!(
        send(&mut server, "GET", "/tasks", &basic("alice", "a"), ""),
        format!("{}[{{\"id\":1,\"content\":\"X\",\"completed\":false,\"owner\":{{\"username\":\"alice\"}}}}]", OK_HEAD)
    );
}

#[test]
fn deleting_twice_is_not_found_the_second_time() {
    let mut server = Server::new();
    register(&mut server, "alice", "a");
    let auth = basic("alice", "a");
    send(&mut server, "POST", "/tasks", &auth, "{\"content\":\"X\"}");
    assert_eq!(send(&mut server, "DELETE", "/tasks/1", &auth, ""), format!("{}{{\"status\":\"Task deleted\"}}", OK_HEAD));
    assert_eq!(send(&mut server, "DELETE", "/tasks/1", &auth, ""), NOT_FOUND);
}

#[test]
fn ids_are_never_reused() {
    let mut server = Server::new();
    register(&mut server, "alice", "a");
    let auth = basic("alice", "a");
    send(&mut server, "POST", "/tasks", &auth, "{\"content\":\"one\"}");
    send(&mut server, "DELETE", "/tasks/1", &auth, "");
    send(&mut server, "POST", "/tasks", &auth, "{\"content\":\"two\"}");
    assert_eq!(server.tasks.list_tasks()[0].id, 2);
}

#[test]
fn task_creation_needs_content() {
    let mut server = Server::new();
    register(&mut server, "alice", "a");
    let auth = basic("alice", "a");
    let bad = "HTTP/1.1 400 BAD REQUEST\r\nContent-Type: application/json\r\n\r\n{\"error\":\"Empty body\"}";
    assert_eq!(send(&mut server, "POST", "/tasks", &auth, "{\"content\":\"\"}"), bad);
    assert_eq!(send(&mut server, "POST", "/tasks", &auth, "{}"), bad);
    assert_eq!(send(&mut server, "POST", "/tasks", &auth, ""), bad);
    assert_eq!(server.tasks.list_tasks().len(), 0);
}

#[test]
fn update_needs_a_body_and_keeps_missing_fields() {
    let mut server = Server::new();
    register(&mut server, "alice", "a");
    let auth = basic("alice", "a");
    send(&mut server, "POST", "/tasks", &auth, "{\"content\":\"keep\"}");
    assert_eq!(
        send(&mut server, "PUT", "/tasks/1", &auth, ""),
        "HTTP/1.1 400 BAD REQUEST\r\nContent-Type: application/json\r\n\r\n{\"error\":\"Empty body\"}"
    );
    send(&mut server, "PUT", "/tasks/1", &auth, "{\"completed\":true}");
    assert_eq!(server.tasks.list_tasks()[0].content, "keep");
    assert!(server.tasks.list_tasks()[0].completed);
}

#[test]
fn malformed_task_id_closes_the_connection() {
    let mut server = Server::new();
    register(&mut server, "alice", "a");
    let request = format!("DELETE /tasks/abc HTTP/1.1\r\nAuthorization: {}\r\n\r\n", basic("alice", "a"));
    assert_eq!(server.handle_request(&request), Err(RequestFault::MalformedTaskId));
}

#[test]
fn unknown_authenticated_route_is_not_found() {
    let mut server = Server::new();
    register(&mut server, "alice", "a");
    assert_eq!(send(&mut server, "PATCH", "/tasks", &basic("alice", "a"), ""), NOT_FOUND);
}

#[test]
fn zero_padded_buffer_is_served() {
    let mut server = Server::new();
    let mut request = String::from("POST /users HTTP/1.1\r\n\r\n{\"username\":\"ann\",\"password\":\"pw\"}");
    while request.len() < 1024 {
        request.push('\0');
    }
    assert!(server.handle_request(&request).unwrap().contains("User created"));
}

#[test]
fn large_request_is_served() {
    let mut server = Server::new();
    register(&mut server, "alice", "a");
    let auth = basic("alice", "a");
    let content = "x".repeat(60_000);
    let created = send(&mut server, "POST", "/tasks", &auth, &format!("{{\"content\":\"{}\"}}", content));
    assert!(created.contains("Task created"));
    assert_eq!(server.tasks.list_tasks()[0].content.len(), 60_000);
}
