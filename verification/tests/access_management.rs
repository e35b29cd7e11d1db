//! Tests for the access-management service: registration, login,
//! employee management, hierarchy cycle prevention, and the authorization
//! check.

use retail_smartops::entities::permission::Capability;
use retail_smartops::errors::AppError;
use retail_smartops::models::role::CreateRoleDTO;
use retail_smartops::models::user::{CreateUserDTO, UpdateUserDTO};
use retail_smartops::repositories::container::RepositoryContainer;
use retail_smartops::services::user_access_management_service::UserAccessManagementService;
use retail_smartops::services::ServiceContainer;

fn service() -> UserAccessManagementService {
    UserAccessManagementService::new(RepositoryContainer::new())
}

fn payload(username: &str, password: &str) -> CreateUserDTO {
    CreateUserDTO {
        username: username.to_string(),
        email: format!("{}@example.com", username),
        password: password.to_string(),
    }
}

#[test]
fn service_container_wires_the_service() {
    let container = ServiceContainer::new(RepositoryContainer::new());
    let mut svc = container.user_access_management_service;
    assert!(svc.register_user(payload("alice", "pw")).is_ok());
}

#[test]
fn register_then_login_and_logout() {
    let mut svc = service();
    let dto = svc.register_user(payload("alice", "hunter2")).unwrap();
    assert_eq!(dto.username, "alice");

    let session_user = svc.login_user("alice", "hunter2").unwrap();
    assert_eq!(session_user.id, dto.id);
    assert_eq!(session_user.email, "alice@example.com");

    assert!(svc.logout_user("alice").is_ok());
}

#[test]
fn login_failures_are_always_unauthorized() {
    let mut svc = service();
    let dto = svc.register_user(payload("alice", "hunter2")).unwrap();

    let wrong_password = svc.login_user("alice", "wrong");
    assert!(matches!(wrong_password, Err(AppError::Unauthorized)));

    let unknown_user = svc.login_user("nobody", "hunter2");
    assert!(matches!(unknown_user, Err(AppError::Unauthorized)));

    svc.deactivate_employee(dto.id).unwrap();
    let inactive = svc.login_user("alice", "hunter2");
    assert!(matches!(inactive, Err(AppError::Unauthorized)));
    let inactive_logout = svc.logout_user("alice");
    assert!(matches!(inactive_logout, Err(AppError::Unauthorized)));
}

#[test]
fn get_user_and_get_employee_by_id() {
    let mut svc = service();
    let dto = svc.register_user(payload("alice", "pw")).unwrap();
    let by_name = svc.get_user("alice").unwrap();
    assert_eq!(by_name.id, dto.id);
    assert!(matches!(svc.get_user("nobody"), Err(AppError::NotFound)));
    let by_id = svc.get_employee_by_id(dto.id).unwrap();
    assert_eq!(by_id.username, "alice");
    assert!(matches!(svc.get_employee_by_id(999), Err(AppError::NotFound)));
}

#[test]
fn update_employee_cannot_touch_activation() {
    let mut svc = service();
    let dto = svc.register_user(payload("alice", "pw")).unwrap();
    let updated = svc
        .update_employee(
            dto.id,
            UpdateUserDTO {
                username: None,
                email: Some("new@example.com".to_string()),
                password: None,
            },
        )
        .unwrap();
    assert_eq!(updated.username, "alice");
    assert_eq!(updated.email, "new@example.com");
    // The update path has no activation field: the user can still log in.
    assert!(svc.login_user("alice", "pw").is_ok());
}

#[test]
fn deactivate_and_reactivate_flip_the_flag_only() {
    let mut svc = service();
    let dto = svc.register_user(payload("alice", "pw")).unwrap();
    svc.deactivate_employee(dto.id).unwrap();
    // The row is preserved: a read still finds the projection.
    assert!(svc.get_employee_by_id(dto.id).is_ok());
    svc.reactive_employee(dto.id).unwrap();
    assert!(svc.login_user("alice", "pw").is_ok());
    assert!(matches!(svc.deactivate_employee(999), Err(AppError::NotFound)));
}

#[test]
fn direct_cycle_is_rejected() {
    let mut svc = service();
    let a = svc.register_user(payload("a", "pw")).unwrap();
    let b = svc.register_user(payload("b", "pw")).unwrap();
    assert!(svc.assign_manager(a.id, b.id).is_ok());
    let back = svc.assign_manager(b.id, a.id);
    assert!(matches!(back, Err(AppError::Conflict)));
}

#[test]
fn three_level_cycle_is_rejected() {
    let mut svc = service();
    let a = svc.register_user(payload("a", "pw")).unwrap();
    let b = svc.register_user(payload("b", "pw")).unwrap();
    let c = svc.register_user(payload("c", "pw")).unwrap();
    assert!(svc.assign_manager(a.id, b.id).is_ok());
    assert!(svc.assign_manager(b.id, c.id).is_ok());
    let closing = svc.assign_manager(c.id, a.id);
    assert!(matches!(closing, Err(AppError::Conflict)));
}

#[test]
fn self_management_and_unknown_users_are_rejected() {
    let mut svc = service();
    let a = svc.register_user(payload("a", "pw")).unwrap();
    assert!(matches!(svc.assign_manager(a.id, a.id), Err(AppError::Conflict)));
    assert!(matches!(svc.assign_manager(a.id, 999), Err(AppError::NotFound)));
}

#[test]
fn reassignment_reroutes_the_edge() {
    let mut svc = service();
    let a = svc.register_user(payload("a", "pw")).unwrap();
    let b = svc.register_user(payload("b", "pw")).unwrap();
    let c = svc.register_user(payload("c", "pw")).unwrap();
    assert!(svc.assign_manager(a.id, b.id).is_ok());
    assert!(svc.assign_manager(a.id, c.id).is_ok());
    // After rerouting a under c, b no longer manages a: b may report to a.
    assert!(svc.assign_manager(b.id, a.id).is_ok());
}

#[test]
fn get_employees_returns_the_active_subtree() {
    let mut svc = service();
    let boss = svc.register_user(payload("boss", "pw")).unwrap();
    let lead = svc.register_user(payload("lead", "pw")).unwrap();
    let dev = svc.register_user(payload("dev", "pw")).unwrap();
    let intern = svc.register_user(payload("intern", "pw")).unwrap();
    let outsider = svc.register_user(payload("outsider", "pw")).unwrap();
    svc.assign_manager(lead.id, boss.id).unwrap();
    svc.assign_manager(dev.id, lead.id).unwrap();
    svc.assign_manager(intern.id, dev.id).unwrap();

    let team = svc.get_employees(boss.id).unwrap();
    let names: Vec<String> = team.iter().map(|u| u.username.clone()).collect();
    assert_eq!(names, vec!["lead", "dev", "intern"]);

    // Deactivation removes a user from the subtree without unlinking it.
    svc.deactivate_employee(dev.id).unwrap();
    let team = svc.get_employees(boss.id).unwrap();
    let names: Vec<String> = team.iter().map(|u| u.username.clone()).collect();
    assert_eq!(names, vec!["lead", "intern"]);

    let nobody = svc.get_employees(outsider.id).unwrap();
    assert!(nobody.is_empty());
}

#[test]
fn authorization_requires_an_active_user_with_a_granting_role() {
    let mut svc = service();
    let alice = svc.register_user(payload("alice", "pw")).unwrap();
    let admin = svc
        .repository_container
        .role_repo
        .create_role(CreateRoleDTO { name: "admin".to_string() })
        .unwrap();
    let perm = svc
        .repository_container
        .permission_repo
        .create_permission("store".to_string(), true, false, false, true)
        .unwrap();
    svc.repository_container
        .role_permission_repo
        .add_role_permission(
            &svc.repository_container.role_repo,
            &svc.repository_container.permission_repo,
            admin.id,
            perm.id,
        )
        .unwrap();

    // No role yet: denied.
    assert!(matches!(
        svc.check_permission(alice.id, "store", Capability::Read),
        Err(AppError::Forbidden)
    ));

    svc.assign_role(alice.id, admin.id).unwrap();
    assert!(svc.check_permission(alice.id, "store", Capability::Read).is_ok());
    assert!(svc.check_permission(alice.id, "store", Capability::Update).is_ok());
    // The capability flags that the permission row does not grant stay denied.
    assert!(matches!(
        svc.check_permission(alice.id, "store", Capability::Write),
        Err(AppError::Forbidden)
    ));
    assert!(matches!(
        svc.check_permission(alice.id, "store", Capability::Delete),
        Err(AppError::Forbidden)
    ));
    // Another entity name is not covered by the grant.
    assert!(matches!(
        svc.check_permission(alice.id, "ledger", Capability::Read),
        Err(AppError::Forbidden)
    ));
    // An unknown user is denied, not reported missing.
    assert!(matches!(
        svc.check_permission(999, "store", Capability::Read),
        Err(AppError::Forbidden)
    ));
}

#[test]
fn deactivated_user_is_denied_despite_sufficient_grants() {
    let mut svc = service();
    let alice = svc.register_user(payload("alice", "pw")).unwrap();
    let admin = svc
        .repository_container
        .role_repo
        .create_role(CreateRoleDTO { name: "admin".to_string() })
        .unwrap();
    let perm = svc
        .repository_container
        .permission_repo
        .create_permission("store".to_string(), true, true, true, true)
        .unwrap();
    svc.repository_container
        .role_permission_repo
        .add_role_permission(
            &svc.repository_container.role_repo,
            &svc.repository_container.permission_repo,
            admin.id,
            perm.id,
        )
        .unwrap();
    svc.assign_role(alice.id, admin.id).unwrap();
    assert!(svc.check_permission(alice.id, "store", Capability::Delete).is_ok());

    svc.deactivate_employee(alice.id).unwrap();
    assert!(matches!(
        svc.check_permission(alice.id, "store", Capability::Delete),
        Err(AppError::Forbidden)
    ));

    svc.reactive_employee(alice.id).unwrap();
    assert!(svc.check_permission(alice.id, "store", Capability::Delete).is_ok());
}

#[test]
fn revoking_role_or_grant_withdraws_authorization() {
    let mut svc = service();
    let alice = svc.register_user(payload("alice", "pw")).unwrap();
    let admin = svc
        .repository_container
        .role_repo
        .create_role(CreateRoleDTO { name: "admin".to_string() })
        .unwrap();
    let perm = svc
        .repository_container
        .permission_repo
        .create_permission("store".to_string(), true, false, false, false)
        .unwrap();
    svc.repository_container
        .role_permission_repo
        .add_role_permission(
            &svc.repository_container.role_repo,
            &svc.repository_container.permission_repo,
            admin.id,
            perm.id,
        )
        .unwrap();
    svc.assign_role(alice.id, admin.id).unwrap();
    assert!(svc.check_permission(alice.id, "store", Capability::Read).is_ok());

    svc.revoke_role(alice.id, admin.id).unwrap();
    assert!(matches!(
        svc.check_permission(alice.id, "store", Capability::Read),
        Err(AppError::Forbidden)
    ));
}
