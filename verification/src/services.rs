//! The access-management service layer: user-facing workflows composed
//! from repository calls.

pub mod user_access_management_service;

use vstd::prelude::*;

use crate::repositories::container::RepositoryContainer;
use crate::services::user_access_management_service::UserAccessManagementService;

verus! {

/// Container for the service instances of the application.
pub struct ServiceContainer {
    /// The access-management service instance.
    pub user_access_management_service: UserAccessManagementService,
}

impl ServiceContainer {
    /// Wraps the repositories in the access-management service.
    pub fn new(repository_container: RepositoryContainer) -> (r: Self)
        ensures
            r.user_access_management_service.repository_container == repository_container,
    {
        ServiceContainer {
            user_access_management_service: UserAccessManagementService::new(repository_container),
        }
    }
}

} // verus!
