use achiet::hash::{hash_password, hash_password_with, try_verify_password, verify_password};

#[test]
fn hashed_password_verifies() {
    let hashed = hash_password("correct horse".to_string()).unwrap();
    assert_ne!(hashed, "correct horse");
    assert!(hashed.starts_with("$argon2"));
    assert_eq!(verify_password("correct horse".to_string(), hashed.clone()), Ok(()));
    assert_eq!(verify_password("wrong".to_string(), hashed.clone()), Err(()));
    assert_eq!(try_verify_password("correct horse".to_string(), hashed.clone()), Some(Ok(())));
    assert_eq!(try_verify_password("wrong".to_string(), hashed), Some(Err(())));
}

#[test]
fn hashing_twice_uses_different_salts() {
    let first = hash_password("secret".to_string()).unwrap();
    let second = hash_password("secret".to_string()).unwrap();
    assert_ne!(first, second);
}

#[test]
fn hash_is_a_function_of_password_and_salt() {
    let first = hash_password_with("secret", "c29tZXNhbHRzb21lc2FsdA").unwrap();
    let second = hash_password_with("secret", "c29tZXNhbHRzb21lc2FsdA").unwrap();
    assert_eq!(first, second);
    assert!(first.contains("c29tZXNhbHRzb21lc2FsdA"));
    let other = hash_password_with("secret", "b3RoZXJzYWx0b3RoZXJzYWx0").unwrap();
    assert_ne!(first, other);
    assert_eq!(verify_password("secret".to_string(), first), Ok(()));
}

#[test]
fn hashing_fails_on_what_is_no_salt() {
    assert_eq!(hash_password_with("secret", ""), Err(()));
    assert_eq!(hash_password_with("secret", "not a salt!"), Err(()));
}

#[test]
fn what_is_no_hash_cannot_be_verified() {
    assert_eq!(try_verify_password("secret".to_string(), "".to_string()), None);
    assert_eq!(try_verify_password("secret".to_string(), "plain".to_string()), None);
}
