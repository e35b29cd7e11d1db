//! Tests for the role, permission, and relationship repositories.

use retail_smartops::errors::AppError;
use retail_smartops::models::role::{CreateRoleDTO, UpdateRoleDTO};
use retail_smartops::models::user::CreateUserDTO;
use retail_smartops::repositories::permission::PermissionRepository;
use retail_smartops::repositories::role::RoleRepository;
use retail_smartops::repositories::role_permission::RolePermissionRepository;
use retail_smartops::repositories::user::UserRepository;
use retail_smartops::repositories::user_role::UserRoleRepository;

fn user(username: &str) -> CreateUserDTO {
    CreateUserDTO {
        username: username.to_string(),
        email: format!("{}@example.com", username),
        password: "pw".to_string(),
    }
}

#[test]
fn role_crud_round_trip() {
    let mut roles = RoleRepository::new();
    let admin = roles.create_role(CreateRoleDTO { name: "admin".to_string() }).unwrap();
    assert_eq!(admin.id, 1);
    assert_eq!(admin.name, "admin");
    let dup = roles.create_role(CreateRoleDTO { name: "admin".to_string() });
    assert!(matches!(dup, Err(AppError::Conflict)));
    let read = roles.get_role_by_id(admin.id).unwrap();
    assert_eq!(read.name, "admin");
    let renamed = roles
        .update_role(admin.id, UpdateRoleDTO { name: Some("root".to_string()) })
        .unwrap();
    assert_eq!(renamed.name, "root");
    let kept = roles.update_role(admin.id, UpdateRoleDTO { name: None }).unwrap();
    assert_eq!(kept.name, "root");
    assert!(roles.delete_role(admin.id).is_ok());
    assert!(matches!(roles.get_role_by_id(admin.id), Err(AppError::NotFound)));
    assert!(matches!(roles.delete_role(admin.id), Err(AppError::NotFound)));
}

#[test]
fn role_listing_and_checks() {
    let mut roles = RoleRepository::new();
    roles.create_role(CreateRoleDTO { name: "admin".to_string() }).unwrap();
    roles.create_role(CreateRoleDTO { name: "clerk".to_string() }).unwrap();
    let all = roles.get_roles().unwrap();
    assert_eq!(all.len(), 2);
    assert_eq!(all[1].name, "clerk");
    assert_eq!(roles.check_if_role_exists("admin").unwrap(), true);
    assert_eq!(roles.check_if_role_exists("ghost").unwrap(), false);
    assert_eq!(roles.check_if_id_exists(1).unwrap(), true);
    assert_eq!(roles.check_if_id_exists(9).unwrap(), false);
}

#[test]
fn assign_role_twice_then_revoke_and_reassign() {
    let mut users = UserRepository::new();
    let mut roles = RoleRepository::new();
    let mut user_roles = UserRoleRepository::new();
    let alice = users.create_user(user("alice")).unwrap();
    let admin = roles.create_role(CreateRoleDTO { name: "admin".to_string() }).unwrap();

    let first = user_roles.add_user_role(&users, &roles, alice.id, admin.id);
    assert!(first.is_ok());
    let second = user_roles.add_user_role(&users, &roles, alice.id, admin.id);
    assert!(matches!(second, Err(AppError::Conflict)));

    assert!(user_roles.delete_user_role(alice.id, admin.id).is_ok());
    assert!(matches!(
        user_roles.delete_user_role(alice.id, admin.id),
        Err(AppError::NotFound)
    ));
    let again = user_roles.add_user_role(&users, &roles, alice.id, admin.id);
    assert!(again.is_ok());
}

#[test]
fn assigning_role_checks_both_foreign_keys() {
    let mut users = UserRepository::new();
    let mut roles = RoleRepository::new();
    let mut user_roles = UserRoleRepository::new();
    let alice = users.create_user(user("alice")).unwrap();
    let missing_role = user_roles.add_user_role(&users, &roles, alice.id, 5);
    assert!(matches!(missing_role, Err(AppError::NotFound)));
    let admin = roles.create_role(CreateRoleDTO { name: "admin".to_string() }).unwrap();
    let missing_user = user_roles.add_user_role(&users, &roles, 99, admin.id);
    assert!(matches!(missing_user, Err(AppError::NotFound)));
}

#[test]
fn update_user_role_requires_the_pair() {
    let mut users = UserRepository::new();
    let mut roles = RoleRepository::new();
    let mut user_roles = UserRoleRepository::new();
    let alice = users.create_user(user("alice")).unwrap();
    let admin = roles.create_role(CreateRoleDTO { name: "admin".to_string() }).unwrap();
    assert!(matches!(
        user_roles.update_user_role(alice.id, admin.id),
        Err(AppError::NotFound)
    ));
    user_roles.add_user_role(&users, &roles, alice.id, admin.id).unwrap();
    let echoed = user_roles.update_user_role(alice.id, admin.id).unwrap();
    assert_eq!(echoed.user_id, alice.id);
    assert_eq!(echoed.role_id, admin.id);
}

#[test]
fn permission_grants_join_roles_to_capabilities() {
    let mut roles = RoleRepository::new();
    let mut permissions = PermissionRepository::new();
    let mut role_permissions = RolePermissionRepository::new();
    let admin = roles.create_role(CreateRoleDTO { name: "admin".to_string() }).unwrap();
    let p = permissions
        .create_permission("store".to_string(), true, true, false, false)
        .unwrap();
    assert_eq!(p.id, 1);
    assert_eq!(p.entity_name, "store");
    assert!(p.can_read && p.can_write && !p.can_delete && !p.can_update);

    assert!(role_permissions
        .add_role_permission(&roles, &permissions, admin.id, p.id)
        .is_ok());
    let dup = role_permissions.add_role_permission(&roles, &permissions, admin.id, p.id);
    assert!(matches!(dup, Err(AppError::Conflict)));
    let missing = role_permissions.add_role_permission(&roles, &permissions, admin.id, 9);
    assert!(matches!(missing, Err(AppError::NotFound)));

    assert!(role_permissions.delete_role_permission(admin.id, p.id).is_ok());
    assert!(matches!(
        role_permissions.delete_role_permission(admin.id, p.id),
        Err(AppError::NotFound)
    ));
}

#[test]
fn role_and_permission_listings_follow_table_order() {
    let mut users = UserRepository::new();
    let mut roles = RoleRepository::new();
    let mut user_roles = UserRoleRepository::new();
    let alice = users.create_user(user("alice")).unwrap();
    let admin = roles.create_role(CreateRoleDTO { name: "admin".to_string() }).unwrap();
    let clerk = roles.create_role(CreateRoleDTO { name: "clerk".to_string() }).unwrap();
    user_roles.add_user_role(&users, &roles, alice.id, admin.id).unwrap();
    user_roles.add_user_role(&users, &roles, alice.id, clerk.id).unwrap();
    assert_eq!(user_roles.role_ids_of(alice.id), vec![admin.id, clerk.id]);
    assert_eq!(user_roles.role_ids_of(999), Vec::<i32>::new());

    let mut permissions = PermissionRepository::new();
    let mut role_permissions = RolePermissionRepository::new();
    let p1 = permissions.create_permission("store".to_string(), true, false, false, false).unwrap();
    let p2 = permissions.create_permission("ledger".to_string(), false, true, false, false).unwrap();
    role_permissions.add_role_permission(&roles, &permissions, admin.id, p1.id).unwrap();
    role_permissions.add_role_permission(&roles, &permissions, admin.id, p2.id).unwrap();
    assert_eq!(role_permissions.permission_ids_of(admin.id), vec![p1.id, p2.id]);
    assert_eq!(role_permissions.permission_ids_of(clerk.id), Vec::<i32>::new());
}
