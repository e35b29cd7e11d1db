//! Tests for the store aggregate, the store-access grants, and the
//! store-access check.

use retail_smartops::entities::store::Address;
use retail_smartops::errors::AppError;
use retail_smartops::models::user::CreateUserDTO;
use retail_smartops::repositories::container::RepositoryContainer;
use retail_smartops::services::user_access_management_service::UserAccessManagementService;

fn payload(username: &str) -> CreateUserDTO {
    CreateUserDTO {
        username: username.to_string(),
        email: format!("{}@example.com", username),
        password: "pw".to_string(),
    }
}

fn address() -> Address {
    Address {
        country: "NL".to_string(),
        state: "NH".to_string(),
        city: "Amsterdam".to_string(),
        street: "Kalverstraat 1".to_string(),
        zip: "1012".to_string(),
    }
}

#[test]
fn store_creation_requires_an_existing_owner() {
    let mut svc = UserAccessManagementService::new(RepositoryContainer::new());
    let missing_owner = svc.repository_container.store_repo.create_store(
        &svc.repository_container.user_repo,
        42,
        "Main".to_string(),
        address(),
    );
    assert!(matches!(missing_owner, Err(AppError::NotFound)));

    let owner = svc.register_user(payload("owner")).unwrap();
    let store = svc
        .repository_container
        .store_repo
        .create_store(
            &svc.repository_container.user_repo,
            owner.id,
            "Main".to_string(),
            address(),
        )
        .unwrap();
    assert_eq!(store.id, 1);
    assert_eq!(store.owner_id, owner.id);
    assert_eq!(store.name, "Main");
    assert_eq!(store.address.city, "Amsterdam");

    let read = svc.repository_container.store_repo.get_store_by_id(store.id).unwrap();
    assert_eq!(read.name, "Main");
    assert!(matches!(
        svc.repository_container.store_repo.get_store_by_id(9),
        Err(AppError::NotFound)
    ));
}

#[test]
fn store_access_grants_are_unique_pairs() {
    let mut svc = UserAccessManagementService::new(RepositoryContainer::new());
    let owner = svc.register_user(payload("owner")).unwrap();
    let clerk = svc.register_user(payload("clerk")).unwrap();
    let store = svc
        .repository_container
        .store_repo
        .create_store(
            &svc.repository_container.user_repo,
            owner.id,
            "Main".to_string(),
            address(),
        )
        .unwrap();

    let grant = svc.repository_container.store_users_repo.add_store_user(
        &svc.repository_container.store_repo,
        &svc.repository_container.user_repo,
        store.id,
        clerk.id,
    );
    assert!(grant.is_ok());
    let dup = svc.repository_container.store_users_repo.add_store_user(
        &svc.repository_container.store_repo,
        &svc.repository_container.user_repo,
        store.id,
        clerk.id,
    );
    assert!(matches!(dup, Err(AppError::Conflict)));
    let unknown_store = svc.repository_container.store_users_repo.add_store_user(
        &svc.repository_container.store_repo,
        &svc.repository_container.user_repo,
        9,
        clerk.id,
    );
    assert!(matches!(unknown_store, Err(AppError::NotFound)));

    assert!(svc
        .repository_container
        .store_users_repo
        .remove_store_user(store.id, clerk.id)
        .is_ok());
    assert!(matches!(
        svc.repository_container.store_users_repo.remove_store_user(store.id, clerk.id),
        Err(AppError::NotFound)
    ));
}

#[test]
fn store_access_check_reflects_ownership_grants_and_deactivation() {
    let mut svc = UserAccessManagementService::new(RepositoryContainer::new());
    let owner = svc.register_user(payload("owner")).unwrap();
    let clerk = svc.register_user(payload("clerk")).unwrap();
    let stranger = svc.register_user(payload("stranger")).unwrap();
    let store = svc
        .repository_container
        .store_repo
        .create_store(
            &svc.repository_container.user_repo,
            owner.id,
            "Main".to_string(),
            address(),
        )
        .unwrap();
    svc.repository_container
        .store_users_repo
        .add_store_user(
            &svc.repository_container.store_repo,
            &svc.repository_container.user_repo,
            store.id,
            clerk.id,
        )
        .unwrap();

    assert!(svc.check_store_access(owner.id, store.id).is_ok());
    assert!(svc.check_store_access(clerk.id, store.id).is_ok());
    assert!(matches!(
        svc.check_store_access(stranger.id, store.id),
        Err(AppError::Forbidden)
    ));

    // Deactivation withdraws effective access while the grant row remains.
    svc.deactivate_employee(clerk.id).unwrap();
    assert!(matches!(
        svc.check_store_access(clerk.id, store.id),
        Err(AppError::Forbidden)
    ));
    svc.reactive_employee(clerk.id).unwrap();
    assert!(svc.check_store_access(clerk.id, store.id).is_ok());
}
