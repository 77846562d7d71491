use typing_core::auth::sign_in::{sign_in_verify, SignInError, StoredCredentials};
use typing_core::auth::sign_up::{
    classify_sign_up_db_error, sign_up_credentials, validate_email, validate_password,
    validate_sign_up, validate_username, SignUpError,
};
use typing_core::auth::{
    check_password, password_hash, AuthToken, AuthTokenRejection, VALIDITY_DURATION_SECS,
};

#[test]
fn token_lifetime_follows_the_clock() {
    let mut token = AuthToken::new(7, "ada", "ada@example.com", 1_000);
    assert_eq!(token.user_id, 7);
    assert_eq!(token.username, "ada");
    assert_eq!(token.email, "ada@example.com");
    assert_eq!(token.expiry_secs(), 1_000 + VALIDITY_DURATION_SECS);
    assert!(token.is_valid_at(1_000 + VALIDITY_DURATION_SECS));
    assert!(!token.is_valid_at(1_001 + VALIDITY_DURATION_SECS));
    token.refresh(50_000);
    assert_eq!(token.expiry_secs(), 50_000 + VALIDITY_DURATION_SECS);
}

#[test]
fn rejection_reporting() {
    assert_eq!(AuthTokenRejection::CookieNotFound.status_code(), 422);
    assert_eq!(AuthTokenRejection::CookieNotFound.message(), "Sign in JWT not found");
    assert_eq!(AuthTokenRejection::Expired.message(), "Sign in JWT expired");
    assert_eq!(AuthTokenRejection::Other.status_code(), 500);
}

#[test]
fn hashing_is_salted_and_peppered() {
    let salt_a = vec![1u8; 16];
    let salt_b = vec![2u8; 16];
    let h = password_hash("hunter2!A", &salt_a, "pepper");
    assert_eq!(h.len(), 32);
    // the digest really depends on its inputs
    assert_ne!(h, password_hash("hunter2!B", &salt_a, "pepper"));
    assert_ne!(h, password_hash("hunter2!A", &salt_b, "pepper"));
    assert_ne!(h, password_hash("hunter2!A", &salt_a, "nutmeg"));
    // and matching inputs verify
    assert!(check_password("hunter2!A", &salt_a, "pepper", &h));
    assert!(!check_password("hunter2!B", &salt_a, "pepper", &h));
}

#[test]
fn sign_in_accepts_only_the_matching_hash() {
    let salt = vec![9u8, 8, 7];
    let stored = password_hash("Sekret#1", &salt, "pepper");
    let row = StoredCredentials {
        user_id: 31,
        username: "ada".to_string(),
        email: "ada@example.com".to_string(),
        salt,
        password_hash: stored,
    };
    let token = sign_in_verify(&row, "Sekret#1", "pepper", 5_000).expect("credentials match");
    assert_eq!(token.user_id, 31);
    assert_eq!(token.username, "ada");
    assert_eq!(token.expiry_secs(), 5_000 + VALIDITY_DURATION_SECS);
    let err = sign_in_verify(&row, "Sekret#2", "pepper", 5_000).unwrap_err();
    assert!(matches!(err, SignInError::InvalidSignInParams));
    assert_eq!(err.status_code(), 422);
    assert_eq!(err.message(), "Invalid username/email/password");
}

#[test]
fn username_rules() {
    assert!(validate_username("ada_lovelace").is_ok());
    assert!(validate_username("abc.12").is_ok());
    assert!(matches!(
        validate_username("short"),
        Err(SignUpError::InvalidUsername("Username must be at least 6 characters long"))
    ));
    assert!(matches!(
        validate_username("x".repeat(31).as_str()),
        Err(SignUpError::InvalidUsername("Username must be at most 30 characters long"))
    ));
    assert!(validate_username("x".repeat(30).as_str()).is_ok());
    assert!(matches!(
        validate_username("ada lovelace"),
        Err(SignUpError::InvalidUsername(
            "Username must consist of only letters, digits, underscores and periods"
        ))
    ));
    assert!(matches!(
        validate_username("adaловелас"),
        Err(SignUpError::InvalidUsername(
            "Username must consist of only letters, digits, underscores and periods"
        ))
    ));
}

#[test]
fn password_rules() {
    assert!(validate_password("Abcdef1!").is_ok());
    assert!(matches!(
        validate_password("Ab1!"),
        Err(SignUpError::InvalidPassword("Password must be at least 8 characters long"))
    ));
    let missing = "Password must have at least one uppercase letter, one lowercase letter, one digit and one special character";
    assert!(matches!(
        validate_password("abcdef1!"),
        Err(SignUpError::InvalidPassword(m)) if m == missing
    ));
    assert!(matches!(
        validate_password("ABCDEF1!"),
        Err(SignUpError::InvalidPassword(m)) if m == missing
    ));
    assert!(matches!(
        validate_password("Abcdefg!"),
        Err(SignUpError::InvalidPassword(m)) if m == missing
    ));
    assert!(matches!(
        validate_password("Abcdefg1"),
        Err(SignUpError::InvalidPassword(m)) if m == missing
    ));
}

#[test]
fn email_grammar() {
    assert!(validate_email("ada@example.com").is_ok());
    assert!(validate_email("a.b+c_d@sub.ex-ample.io").is_ok());
    assert!(validate_email("x@y").is_ok());
    assert!(validate_email(&format!("u@{}.com", "a".repeat(63))).is_ok());

    assert!(matches!(validate_email(""), Err(SignUpError::InvalidEmail)));
    assert!(matches!(validate_email("no-at-sign"), Err(SignUpError::InvalidEmail)));
    assert!(matches!(validate_email("@example.com"), Err(SignUpError::InvalidEmail)));
    assert!(matches!(validate_email("ada@"), Err(SignUpError::InvalidEmail)));
    assert!(matches!(validate_email("a b@example.com"), Err(SignUpError::InvalidEmail)));
    assert!(matches!(validate_email("ada@@example.com"), Err(SignUpError::InvalidEmail)));
    assert!(matches!(validate_email("ada@exa mple.com"), Err(SignUpError::InvalidEmail)));
    assert!(matches!(validate_email("ada@example..com"), Err(SignUpError::InvalidEmail)));
    assert!(matches!(validate_email("ada@.example.com"), Err(SignUpError::InvalidEmail)));
    assert!(matches!(validate_email("ada@example.com."), Err(SignUpError::InvalidEmail)));
    assert!(matches!(validate_email("ada@-example.com"), Err(SignUpError::InvalidEmail)));
    assert!(matches!(validate_email("ada@example-.com"), Err(SignUpError::InvalidEmail)));
    assert!(matches!(
        validate_email(&format!("u@{}.com", "a".repeat(64))),
        Err(SignUpError::InvalidEmail)
    ));
}

#[test]
fn sign_up_validation_order_and_credentials() {
    assert!(matches!(
        validate_sign_up("nope", "bad", "bad"),
        Err(SignUpError::InvalidUsername(_))
    ));
    assert!(matches!(
        validate_sign_up("ada_lovelace", "bad", "bad"),
        Err(SignUpError::InvalidEmail)
    ));
    assert!(matches!(
        validate_sign_up("ada_lovelace", "ada@example.com", "bad"),
        Err(SignUpError::InvalidPassword(_))
    ));
    let (salt, hash) =
        sign_up_credentials("ada_lovelace", "ada@example.com", "Abcdef1!", "pepper")
            .expect("valid credentials");
    assert_eq!(salt.len(), 32);
    assert_eq!(hash.len(), 32);
    assert!(check_password("Abcdef1!", &salt, "pepper", &hash));
}

#[test]
fn sign_up_db_errors_are_classified() {
    assert!(matches!(
        classify_sign_up_db_error("Duplicate entry 'ada' for key 'username'"),
        SignUpError::UsernameTaken
    ));
    assert!(matches!(
        classify_sign_up_db_error("Duplicate entry 'a@b' for key 'email'"),
        SignUpError::EmailTaken
    ));
    assert!(matches!(
        classify_sign_up_db_error("Duplicate entry 'x' for key 'other'"),
        SignUpError::Other
    ));
    assert!(matches!(
        classify_sign_up_db_error("Connection reset"),
        SignUpError::Other
    ));
}

#[test]
fn sign_up_error_reporting() {
    assert_eq!(
        SignUpError::InvalidUsername("Username must be at least 6 characters long").message(),
        "Invalid username: Username must be at least 6 characters long"
    );
    assert_eq!(SignUpError::InvalidEmail.message(), "Invalid email");
    assert_eq!(SignUpError::UsernameTaken.message(), "Username already taken");
    assert_eq!(SignUpError::EmailTaken.status_code(), 422);
    assert_eq!(SignUpError::Other.status_code(), 500);
}
