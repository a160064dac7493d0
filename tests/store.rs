use taskserver::store::{Server, StoreError};
use taskserver::user::User;

#[test]
fn store_operations_report_their_errors() {
    let mut server = Server::new();
    assert_eq!(server.users.register("ann", "pw"), Ok(()));
    assert_eq!(server.users.register("ann", "other"), Err(StoreError::Conflict));
    assert!(server.users.authenticate("ann", "pw").is_some());
    assert!(server.users.authenticate("ann", "other").is_none());
    assert!(server.users.authenticate("bob", "pw").is_none());
    let ann = server.users.authenticate("ann", "pw").unwrap();
    assert_eq!(server.tasks.create_task("t".to_string(), &ann), Ok(1));
    assert_eq!(server.tasks.update_task(5, "ann", None, Some(true)), Err(StoreError::NotFound));
    assert_eq!(server.tasks.update_task(1, "bob", None, Some(true)), Err(StoreError::Forbidden));
    assert_eq!(server.tasks.update_task(1, "ann", Some("u".to_string()), None), Ok(()));
    assert_eq!(server.tasks.list_tasks()[0].content, "u");
    assert_eq!(server.tasks.delete_task(1, "bob"), Err(StoreError::Forbidden));
    assert_eq!(server.tasks.delete_task(1, "ann"), Ok(()));
    assert_eq!(server.tasks.delete_task(1, "ann"), Err(StoreError::NotFound));
    let bob = User::new("bob", "b").unwrap();
    assert_eq!(server.tasks.create_task("x".to_string(), &bob), Ok(2));
    assert_eq!(server.tasks.tasks_json(), "[{\"id\":2,\"content\":\"x\",\"completed\":false,\"owner\":{\"username\":\"bob\"}}]");
}
