use kingshare::value_objects::{Email, Password, PasswordStrength};

#[test]
fn test_password_validation() {
    // Test valid password
    let valid_password = Password::new("SecurePass123!".to_string()).unwrap();
    assert_eq!(valid_password.as_str(), "SecurePass123!");

    // Test weak password (too short)
    let result = Password::new("weak".to_string());
    assert!(result.is_err());

    // Test password without special characters
    let result = Password::new("NoSpecialChars123".to_string());
    assert!(result.is_err());

    println!("Password validation tests passed!");
}

#[test]
fn test_email_validation() {
    // Test valid email
    let valid_email = Email::new("test@example.com".to_string()).unwrap();
    assert_eq!(valid_email.as_str(), "test@example.com");

    // Test invalid email
    let result = Email::new("invalid-email".to_string());
    assert!(result.is_err());

    println!("Email validation tests passed!");
}

#[test]
fn email_is_lowercased() {
    let email = Email::new("Mixed.Case@Example.COM".to_string()).unwrap();
    assert_eq!(email.as_str(), "mixed.case@example.com");
}

#[test]
fn email_rejects_empty_and_missing_at() {
    assert!(Email::new(String::new()).is_err());
    assert!(Email::new("no-at-sign.example.com".to_string()).is_err());
}

#[test]
fn password_weak_constructor_skips_class_rules() {
    assert!(Password::new_weak("alllowercase".to_string()).is_ok());
    assert!(Password::new_weak("short".to_string()).is_err());
    let long = "x".repeat(129);
    assert!(Password::new_weak(long).is_err());
}

#[test]
fn password_error_order_reports_first_broken_rule() {
    // Length is checked before the character classes.
    assert!(Password::new("A1!".to_string()).is_err());
    // All classes present but too long.
    let mut long = String::from("Aa1!");
    long.push_str(&"x".repeat(130));
    assert!(Password::new(long).is_err());
}

#[test]
fn password_strength_bands() {
    let weak = Password::new_weak("lowercase".to_string()).unwrap();
    assert_eq!(weak.strength(), PasswordStrength::Weak);

    let medium = Password::new_weak("Password1".to_string()).unwrap();
    assert_eq!(medium.strength(), PasswordStrength::Medium);

    let strong = Password::new("VerySecure123!".to_string()).unwrap();
    assert_eq!(strong.strength(), PasswordStrength::Strong);
}
