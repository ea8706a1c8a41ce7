//! The container of the services that fulfil requests, and the router state
//! behind the request dispatch. Transport, routing and header work live with
//! the unverified shell; the container gives it one owner for the verified
//! services.

use vstd::prelude::*;

use crate::auth_service::Service as AuthService;
use crate::document_service::Service as DocumentService;
use crate::file_service::Service as FileService;
use crate::http_util::{is_bad_request, HttpError};
use crate::search_service::Service as SearchService;
use crate::upload_service::Service as UploadService;

verus! {

/// Contains the services available to fulfil requests.
pub struct ServiceContainer {
    auth_service: AuthService,
    file_service: FileService,
    document_service: DocumentService,
    search_service: SearchService,
    upload_service: UploadService,
}

impl ServiceContainer {
    /// Creates a new instance of the container.
    pub fn new(
        auth_service: AuthService,
        file_service: FileService,
        document_service: DocumentService,
        search_service: SearchService,
        upload_service: UploadService,
    ) -> (r: Self) {
        Self { auth_service, file_service, document_service, search_service, upload_service }
    }

    pub fn auth_service(&self) -> (r: &AuthService) {
        &self.auth_service
    }

    pub fn file_service(&self) -> (r: &FileService) {
        &self.file_service
    }

    pub fn document_service(&self) -> (r: &DocumentService) {
        &self.document_service
    }

    pub fn search_service(&self) -> (r: &SearchService) {
        &self.search_service
    }

    pub fn upload_service(&self) -> (r: &UploadService) {
        &self.upload_service
    }
}

/// The message a request with an unrouteable path is rejected with.
pub open spec fn router_invalid_path_message(path: Seq<char>) -> Seq<u8> {
    vstd::utf8::encode_utf8("Invalid path '"@ + path + "' for the specified method"@)
}

/// The state behind request routing: owns the service container for the
/// unverified dispatch around it.
pub struct ServiceRouter {
    service_container: ServiceContainer,
}

impl ServiceRouter {
    pub fn new(service_container: ServiceContainer) -> (r: Self) {
        Self { service_container }
    }

    pub fn container(&self) -> (r: &ServiceContainer) {
        &self.service_container
    }

    /// Builds the rejection of a path no service is routed under.
    pub fn build_invalid_path_error(path: &str) -> (r: HttpError)
        ensures
            is_bad_request(r, router_invalid_path_message(path@)),
    {
        let mut message = "Invalid path '".to_owned();
        message.append(path);
        message.append("' for the specified method");
        let bytes = message.as_str().as_bytes_vec();
        proof {
            assert(bytes@ == router_invalid_path_message(path@));
        }
        HttpError::BadRequest(bytes)
    }
}

} // verus!
