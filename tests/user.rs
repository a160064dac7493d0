use taskserver::user::User;

#[test]
fn test_user_authentication_success() {
    let user = User::new("username", "password").unwrap();
    assert!(user.authenticate("password"));
}

#[test]
fn test_user_authentication_failure() {
    let user = User::new("username", "password").unwrap();
    assert!(!user.authenticate("wrongpassword"));
}

#[test]
fn stored_hash_is_bcrypt_at_cost_four() {
    let user = User::new("username", "password").unwrap();
    assert_eq!(user.password_hash.len(), 60);
    assert!(user.password_hash.starts_with("$2b$04$"));
    assert_ne!(user.password_hash, "password");
}
