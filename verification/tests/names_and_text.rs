use rust_api_ddd::errors::AppError;
use rust_api_ddd::modules::masters::errors::{MasterGroupDomainError, MasterItemDomainError};
use rust_api_ddd::modules::masters::value_object::{ItemName, Name as DisplayName};
use rust_api_ddd::modules::menu::errors::MenuDomainError;
use rust_api_ddd::modules::permission::errors::PermissionDomainError;
use rust_api_ddd::modules::permission::value_object::Name as PermissionName;
use rust_api_ddd::modules::role::errors::RoleDomainError;
use rust_api_ddd::modules::role::value_object::Name as RoleName;
use rust_api_ddd::modules::setting::errors::SettingDomainError;
use rust_api_ddd::text::{contains_chars, trim_str};

#[test]
fn role_name_is_trimmed() {
    let n = RoleName::parse("  report.viewer_2 \t").unwrap();
    assert_eq!(n.as_str(), "report.viewer_2");
}

#[test]
fn role_name_needs_three_bytes() {
    assert_eq!(RoleName::parse("ab"), Err(RoleDomainError::InvalidName));
    assert_eq!(RoleName::parse("  ab  "), Err(RoleDomainError::InvalidName));
    assert!(RoleName::parse("abc").is_ok());
}

#[test]
fn role_name_is_at_most_150_bytes() {
    assert!(RoleName::parse(&"a".repeat(150)).is_ok());
    assert_eq!(RoleName::parse(&"a".repeat(151)), Err(RoleDomainError::InvalidName));
}

#[test]
fn role_name_rejects_other_characters() {
    assert_eq!(RoleName::parse("bad name"), Err(RoleDomainError::InvalidName));
    assert_eq!(RoleName::parse("admin-x"), Err(RoleDomainError::InvalidName));
    assert_eq!(RoleName::parse("café"), Err(RoleDomainError::InvalidName));
}

#[test]
fn permission_name_follows_the_identifier_rule() {
    assert_eq!(PermissionName::parse(" user.manage ").unwrap().as_str(), "user.manage");
    assert_eq!(PermissionName::parse("x"), Err(PermissionDomainError::InvalidName));
}

#[test]
fn display_name_is_trimmed_and_may_hold_spaces() {
    let n = DisplayName::parse("  Payment Method  ").unwrap();
    assert_eq!(n.as_str(), "Payment Method");
    let i = ItemName::parse("Bank Transfer (BCA)").unwrap();
    assert_eq!(i.as_str(), "Bank Transfer (BCA)");
}

#[test]
fn display_name_may_not_be_blank() {
    assert_eq!(DisplayName::parse(""), Err(MasterGroupDomainError::InvalidName));
    assert_eq!(DisplayName::parse(" \n\t "), Err(MasterGroupDomainError::InvalidName));
    assert_eq!(ItemName::parse("\u{3000}"), Err(MasterItemDomainError::InvalidName));
}

#[test]
fn display_name_length_counts_bytes() {
    // 'é' takes two bytes in UTF-8.
    assert!(DisplayName::parse(&"é".repeat(75)).is_ok());
    assert_eq!(DisplayName::parse(&"é".repeat(76)), Err(MasterGroupDomainError::InvalidName));
    assert!(ItemName::parse(&"x".repeat(150)).is_ok());
    assert_eq!(ItemName::parse(&"x".repeat(151)), Err(MasterItemDomainError::InvalidName));
}

#[test]
fn trim_removes_unicode_whitespace_at_both_ends() {
    assert_eq!(trim_str("\u{3000} a b \u{85}\n"), "a b");
    assert_eq!(trim_str("   "), "");
    assert_eq!(trim_str("x"), "x");
}

#[test]
fn substring_search() {
    let hay: Vec<char> = "dashboard".chars().collect();
    let yes: Vec<char> = "board".chars().collect();
    let no: Vec<char> = "boards".chars().collect();
    let empty: Vec<char> = Vec::new();
    assert!(contains_chars(&hay, &yes));
    assert!(!contains_chars(&hay, &no));
    assert!(contains_chars(&hay, &empty));
    assert!(!contains_chars(&empty, &yes));
}

#[test]
fn domain_errors_map_to_app_errors() {
    assert_eq!(
        MenuDomainError::InvalidName.into_app_error(),
        AppError::BadRequest("name is required".to_string())
    );
    assert_eq!(
        MenuDomainError::ParentNotFound.into_app_error(),
        AppError::NotFound("parent menu not found".to_string())
    );
    assert_eq!(
        MenuDomainError::SlugTaken.into_app_error(),
        AppError::Conflict("slug is already registered".to_string())
    );
    assert_eq!(
        MenuDomainError::CircularParent.into_app_error(),
        AppError::BadRequest(
            "a menu cannot be moved under itself or one of its own descendants".to_string()
        )
    );
    assert_eq!(
        MasterGroupDomainError::MasterGroupTaken.into_app_error(),
        AppError::Conflict("master group is already created".to_string())
    );
    assert_eq!(
        MasterItemDomainError::NotFound.into_app_error(),
        AppError::NotFound("master item not found".to_string())
    );
    assert_eq!(
        RoleDomainError::RoleTaken.into_app_error(),
        AppError::Conflict("role is already registered".to_string())
    );
    assert_eq!(
        PermissionDomainError::PermissionTaken.into_app_error(),
        AppError::Conflict("permission is already registered".to_string())
    );
    assert_eq!(
        SettingDomainError::InvalidKey.into_app_error(),
        AppError::BadRequest("setting key is required".to_string())
    );
    assert_eq!(
        SettingDomainError::NotFound.into_app_error(),
        AppError::NotFound("setting not found".to_string())
    );
}

#[test]
fn app_error_status_and_message() {
    let e = AppError::Conflict("taken".to_string());
    assert_eq!(e.status(), 409);
    assert_eq!(e.message(), "taken");
    assert_eq!(AppError::BadRequest(String::new()).status(), 400);
    assert_eq!(AppError::NotFound(String::new()).status(), 404);
}
