use taskserver::task::Task;
use taskserver::user::User;

#[test]
fn test_create_task() {
    let user = User::new("testuser", "password").unwrap();
    let task = Task::new(1, "Do something".to_string(), &user);
    assert_eq!(task.content, "Do something");
    assert!(!task.completed);
}

#[test]
fn task_json_has_fields_in_order() {
    let user = User::new("ann", "pw").unwrap();
    let task = Task::new(12, "say \"hi\"".to_string(), &user);
    assert_eq!(task.to_json(), "{\"id\":12,\"content\":\"say \\\"hi\\\"\",\"completed\":false,\"owner\":{\"username\":\"ann\"}}");
}
