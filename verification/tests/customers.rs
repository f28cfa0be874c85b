use stateset_core::customers::{
    address_defaults, address_name, check_email_available, check_login, credential_name, display_name,
    hash_password, new_profile, update_customer, AddAddressInput, CustomerError, CustomerStatus,
    RegisterCustomerInput, UpdateCustomerInput,
};

fn register(first: &str, last: &str, phone: Option<&str>, marketing: bool) -> RegisterCustomerInput {
    RegisterCustomerInput {
        email: "test@example.com".to_string(),
        password: "SecurePass123!".to_string(),
        first_name: first.to_string(),
        last_name: last.to_string(),
        phone: phone.map(|p| p.to_string()),
        accepts_marketing: marketing,
    }
}

fn address_input(shipping: Option<bool>, billing: Option<bool>) -> AddAddressInput {
    AddAddressInput {
        first_name: "John".to_string(),
        last_name: "Doe".to_string(),
        company: Some("Acme Inc".to_string()),
        address_line_1: "123 Main St".to_string(),
        address_line_2: Some("Apt 4B".to_string()),
        city: "New York".to_string(),
        province: "NY".to_string(),
        country_code: "US".to_string(),
        postal_code: "10001".to_string(),
        phone: Some("+1234567890".to_string()),
        is_default_shipping: shipping,
        is_default_billing: billing,
    }
}

#[test]
fn test_register_customer_input_valid() {
    let input = register("John", "Doe", Some("+1234567890"), true);
    assert_eq!(input.email, "test@example.com");
    assert!(!input.password.is_empty());
    assert_eq!(input.first_name, "John");
    assert_eq!(input.last_name, "Doe");
    assert!(input.phone.is_some());
    assert!(input.accepts_marketing);
    let profile = new_profile("c1".to_string(), &input);
    assert_eq!(profile.email, "test@example.com");
    assert_eq!(profile.phone.as_deref(), Some("+1234567890"));
    assert_eq!(profile.status, CustomerStatus::Active);
}

#[test]
fn test_register_customer_input_without_phone() {
    let input = register("Jane", "Smith", None, false);
    assert!(input.phone.is_none());
    assert!(!input.accepts_marketing);
    let profile = new_profile("c2".to_string(), &input);
    assert!(profile.phone.is_none());
    assert!(!profile.accepts_marketing);
}

#[test]
fn test_email_format_valid() {
    let valid_emails = vec!["user@example.com", "user.name@example.com", "user+tag@example.com", "user@subdomain.example.com"];
    for email in valid_emails {
        assert!(email.contains('@'), "Email {} should contain @", email);
        assert!(email.contains('.'), "Email {} should contain .", email);
    }
}

#[test]
fn test_email_not_empty() {
    let email = "test@example.com";
    assert!(!email.is_empty());
}

#[test]
fn test_password_not_empty() {
    let password = "SecurePass123!";
    assert!(!password.is_empty());
}

#[test]
fn test_password_minimum_length() {
    let password = "Short1!";
    assert!(password.len() >= 6);
}

#[test]
fn test_password_with_special_characters() {
    let password = "SecureP@ss123!";
    assert!(password.chars().any(|c| !c.is_alphanumeric()));
}

#[test]
fn test_empty_password_validation() {
    let password = "";
    assert!(password.trim().is_empty());
    match hash_password(password) {
        Err(CustomerError::ValidationError(m)) => assert_eq!(m, "Password cannot be empty"),
        other => panic!("unexpected {:?}", other),
    }
}

#[test]
fn test_whitespace_only_password() {
    let password = "   ";
    assert!(password.trim().is_empty());
    assert!(matches!(hash_password(password), Err(CustomerError::ValidationError(_))));
}

#[test]
fn password_hash_is_not_the_password() {
    let hash = hash_password("SecurePass123!").unwrap();
    assert_ne!(hash, "SecurePass123!");
    assert!(hash.starts_with("$argon2"));
}

#[test]
fn password_hash_carries_default_costs_and_a_fresh_salt() {
    let first = hash_password("SecurePass123!").unwrap();
    let second = hash_password("SecurePass123!").unwrap();
    let head = "$argon2id$v=19$m=19456,t=2,p=1$";
    assert!(first.starts_with(head));
    let salt = &first[head.len()..head.len() + 22];
    assert_eq!(&first[head.len() + 22..head.len() + 23], "$");
    assert!(salt.chars().all(|c| c.is_ascii_alphanumeric() || c == '+' || c == '/'));
    assert_ne!(first, second);
}

#[test]
fn test_update_customer_input_partial() {
    let input = UpdateCustomerInput {
        first_name: Some("NewFirst".to_string()),
        last_name: None,
        phone: None,
        accepts_marketing: None,
    };
    assert!(input.first_name.is_some());
    assert!(input.last_name.is_none());
    let profile = new_profile("c".to_string(), &register("John", "Doe", None, true));
    let updated = update_customer(profile, input);
    assert_eq!(updated.first_name, "NewFirst");
    assert_eq!(updated.last_name, "Doe");
    assert!(updated.accepts_marketing);
}

#[test]
fn test_update_customer_input_all_fields() {
    let input = UpdateCustomerInput {
        first_name: Some("Updated".to_string()),
        last_name: Some("Name".to_string()),
        phone: Some("+1111111111".to_string()),
        accepts_marketing: Some(true),
    };
    assert!(input.first_name.is_some());
    assert!(input.last_name.is_some());
    assert!(input.phone.is_some());
    assert!(input.accepts_marketing.is_some());
    let profile = new_profile("c".to_string(), &register("John", "Doe", None, false));
    let updated = update_customer(profile, input);
    assert_eq!(updated.last_name, "Name");
    assert_eq!(updated.phone.as_deref(), Some("+1111111111"));
    assert!(updated.accepts_marketing);
}

#[test]
fn test_update_customer_input_empty() {
    let input = UpdateCustomerInput { first_name: None, last_name: None, phone: None, accepts_marketing: None };
    assert!(input.first_name.is_none());
    assert!(input.last_name.is_none());
    assert!(input.phone.is_none());
    assert!(input.accepts_marketing.is_none());
    let profile = new_profile("c".to_string(), &register("John", "Doe", Some("1"), true));
    let updated = update_customer(profile, input);
    assert_eq!(updated.first_name, "John");
    assert_eq!(updated.phone.as_deref(), Some("1"));
}

#[test]
fn test_add_address_input_complete() {
    let input = address_input(Some(true), Some(false));
    assert_eq!(input.first_name, "John");
    assert_eq!(input.city, "New York");
    assert_eq!(input.country_code, "US");
    assert!(input.is_default_shipping.unwrap_or(false));
    assert_eq!(address_defaults(&input), (true, false));
    assert_eq!(address_name(&input), "John Doe");
}

#[test]
fn test_add_address_input_minimal() {
    let mut input = address_input(None, None);
    input.company = None;
    input.address_line_2 = None;
    input.phone = None;
    assert!(input.company.is_none());
    assert!(input.address_line_2.is_none());
    assert!(input.phone.is_none());
    assert_eq!(address_defaults(&input), (false, false));
}

#[test]
fn test_valid_country_codes() {
    let valid_codes = vec!["US", "CA", "GB", "DE", "FR", "JP", "AU"];
    for code in valid_codes {
        assert_eq!(code.len(), 2, "Country code {} should be 2 characters", code);
        assert!(code.chars().all(|c| c.is_ascii_uppercase()));
    }
}

#[test]
fn test_phone_number_formats() {
    let valid_phones = vec!["+1234567890", "+44 20 7946 0958", "555-123-4567", "(555) 123-4567"];
    for phone in valid_phones {
        assert!(!phone.is_empty());
    }
}

#[test]
fn test_display_name_concatenation() {
    assert_eq!(display_name("John", "Doe"), "John Doe");
}

#[test]
fn test_display_name_empty_last_name() {
    assert_eq!(display_name("John", ""), "John");
}

#[test]
fn test_display_name_fallback_to_email() {
    assert_eq!(credential_name("", "user@example.com"), "user@example.com");
    assert_eq!(credential_name("  Ann ", "user@example.com"), "Ann");
}

#[test]
fn test_customer_status_active() {
    let status = CustomerStatus::Active;
    assert_eq!(format!("{:?}", status), "Active");
}

#[test]
fn test_validation_error_email_already_registered() {
    match check_email_available(true) {
        Err(CustomerError::ValidationError(msg)) => assert!(msg.contains("already registered")),
        _ => panic!("Expected ValidationError"),
    }
    assert!(check_email_available(false).is_ok());
}

#[test]
fn test_auth_error_invalid_credentials() {
    let profile = new_profile("c".to_string(), &register("John", "Doe", None, true));
    match check_login(&profile, "other@example.com") {
        Err(CustomerError::AuthError(msg)) => assert!(msg.contains("Invalid")),
        _ => panic!("Expected AuthError"),
    }
    assert!(check_login(&profile, "test@example.com").is_ok());
}

#[test]
fn inactive_account_cannot_log_in() {
    let mut profile = new_profile("c".to_string(), &register("John", "Doe", None, true));
    profile.status = CustomerStatus::Inactive;
    match check_login(&profile, "test@example.com") {
        Err(CustomerError::AuthError(msg)) => assert_eq!(msg, "Account is not active"),
        _ => panic!("Expected AuthError"),
    }
}

#[test]
fn test_marketing_opt_in() {
    let accepts_marketing = true;
    assert!(accepts_marketing);
}

#[test]
fn test_marketing_opt_out() {
    let accepts_marketing = false;
    assert!(!accepts_marketing);
}

#[test]
fn test_default_shipping_address() {
    assert!(address_defaults(&address_input(Some(true), None)).0);
}

#[test]
fn test_default_billing_address() {
    assert!(address_defaults(&address_input(None, Some(true))).1);
}

#[test]
fn test_address_default_fallback() {
    let (shipping, billing) = address_defaults(&address_input(None, None));
    assert!(!shipping);
    assert!(!billing);
}
