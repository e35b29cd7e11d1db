//! Tests for the user repository: creation, lookup, update, deletion, and
//! the uniqueness rules.

use retail_smartops::errors::AppError;
use retail_smartops::models::user::{CreateUserDTO, UpdateUserDTO};
use retail_smartops::repositories::user::UserRepository;

fn payload(username: &str, email: &str, password: &str) -> CreateUserDTO {
    CreateUserDTO {
        username: username.to_string(),
        email: email.to_string(),
        password: password.to_string(),
    }
}

#[test]
fn create_then_get_returns_matching_projection() {
    let mut repo = UserRepository::new();
    let dto = repo.create_user(payload("alice", "alice@example.com", "s3cret")).unwrap();
    assert_eq!(dto.username, "alice");
    assert_eq!(dto.email, "alice@example.com");
    let read = repo.get_user_by_id(dto.id).unwrap();
    assert_eq!(read.id, dto.id);
    assert_eq!(read.username, "alice");
    assert_eq!(read.email, "alice@example.com");
}

#[test]
fn duplicate_username_yields_conflict() {
    let mut repo = UserRepository::new();
    repo.create_user(payload("alice", "alice@example.com", "pw1")).unwrap();
    let second = repo.create_user(payload("alice", "other@example.com", "pw2"));
    assert!(matches!(second, Err(AppError::Conflict)));
}

#[test]
fn duplicate_email_yields_conflict() {
    let mut repo = UserRepository::new();
    repo.create_user(payload("alice", "alice@example.com", "pw1")).unwrap();
    let second = repo.create_user(payload("bob", "alice@example.com", "pw2"));
    assert!(matches!(second, Err(AppError::Conflict)));
}

#[test]
fn update_with_only_email_changes_only_email() {
    let mut repo = UserRepository::new();
    let dto = repo.create_user(payload("alice", "alice@example.com", "pw")).unwrap();
    let updated = repo
        .update_user(
            dto.id,
            UpdateUserDTO {
                username: None,
                email: Some("new@example.com".to_string()),
                password: None,
            },
        )
        .unwrap();
    assert_eq!(updated.username, "alice");
    assert_eq!(updated.email, "new@example.com");
    let read = repo.get_user_by_id(dto.id).unwrap();
    assert_eq!(read.username, "alice");
    assert_eq!(read.email, "new@example.com");
}

#[test]
fn update_unknown_id_yields_not_found() {
    let mut repo = UserRepository::new();
    let r = repo.update_user(
        42,
        UpdateUserDTO { username: None, email: None, password: None },
    );
    assert!(matches!(r, Err(AppError::NotFound)));
}

#[test]
fn update_to_taken_username_yields_conflict() {
    let mut repo = UserRepository::new();
    repo.create_user(payload("alice", "alice@example.com", "pw")).unwrap();
    let bob = repo.create_user(payload("bob", "bob@example.com", "pw")).unwrap();
    let r = repo.update_user(
        bob.id,
        UpdateUserDTO {
            username: Some("alice".to_string()),
            email: None,
            password: None,
        },
    );
    assert!(matches!(r, Err(AppError::Conflict)));
}

#[test]
fn delete_unknown_then_existing_then_again() {
    let mut repo = UserRepository::new();
    assert!(matches!(repo.delete_user(7), Err(AppError::NotFound)));
    let dto = repo.create_user(payload("alice", "alice@example.com", "pw")).unwrap();
    assert!(repo.delete_user(dto.id).is_ok());
    assert!(matches!(repo.delete_user(dto.id), Err(AppError::NotFound)));
    assert!(matches!(repo.get_user_by_id(dto.id), Err(AppError::NotFound)));
}

#[test]
fn get_all_users_lists_every_projection() {
    let mut repo = UserRepository::new();
    repo.create_user(payload("alice", "alice@example.com", "pw")).unwrap();
    repo.create_user(payload("bob", "bob@example.com", "pw")).unwrap();
    let all = repo.get_all_users().unwrap();
    assert_eq!(all.len(), 2);
    assert_eq!(all[0].username, "alice");
    assert_eq!(all[1].username, "bob");
}

#[test]
fn existence_checks_report_the_table() {
    let mut repo = UserRepository::new();
    assert_eq!(repo.check_if_username_exists("alice").unwrap(), false);
    let dto = repo.create_user(payload("alice", "alice@example.com", "pw")).unwrap();
    assert_eq!(repo.check_if_username_exists("alice").unwrap(), true);
    assert_eq!(repo.check_if_email_exists("alice@example.com").unwrap(), true);
    assert_eq!(repo.check_if_email_exists("bob@example.com").unwrap(), false);
    assert_eq!(repo.check_if_id_exists(dto.id).unwrap(), true);
    assert_eq!(repo.check_if_id_exists(dto.id + 1).unwrap(), false);
}
