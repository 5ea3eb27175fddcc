//! Administration: the HTTP API that manages backends at run time, and the
//! monitoring dashboard.
pub mod dashboard;

use crate::text::str_eq;
use std::sync::Arc;
use vstd::prelude::*;

verus! {

#[verifier::external_type_specification]
#[verifier::external_body]
pub struct ExJsonValue(serde_json::Value);

/// A backend as the admin API lists it.
pub struct BackendInfo {
    pub address: String,
    pub weight: u32,
    pub healthy: bool,
    pub active_connections: usize,
    pub total_requests: u64,
}

/// Body of a request to add a backend.
pub struct AddBackendRequest {
    pub address: String,
    pub weight: Option<u32>,
    pub group: Option<String>,
}

/// Body of a request naming one backend (remove, drain, undrain).
pub struct RemoveBackendRequest {
    pub address: String,
}

/// Body of a request to change a backend's weight.
pub struct UpdateWeightRequest {
    pub address: String,
    pub weight: u32,
}

/// The JSON body of every admin answer.
pub struct AdminResponse {
    pub success: bool,
    pub message: String,
    pub data: Option<serde_json::Value>,
}

impl AdminResponse {
    pub fn success(message: &str) -> (r: Self)
        ensures
            r.success,
            r.message@ == message@,
            r.data is None,
    {
        AdminResponse { success: true, message: message.to_string(), data: None }
    }

    pub fn success_with_data(message: &str, data: serde_json::Value) -> (r: Self)
        ensures
            r.success,
            r.message@ == message@,
            r.data == Some(data),
    {
        AdminResponse { success: true, message: message.to_string(), data: Some(data) }
    }

    pub fn error(message: &str) -> (r: Self)
        ensures
            !r.success,
            r.message@ == message@,
            r.data is None,
    {
        AdminResponse { success: false, message: message.to_string(), data: None }
    }
}

/// What the admin API works on: the application's backend set. Each call
/// says whether it took effect.
pub trait BackendManager: Send + Sync {
    fn list_backends(&self) -> Vec<BackendInfo>;

    fn add_backend(&self, address: &str, weight: u32) -> bool;

    fn remove_backend(&self, address: &str) -> bool;

    fn update_weight(&self, address: &str, weight: u32) -> bool;

    fn get_backend(&self, address: &str) -> Option<BackendInfo>;

    fn drain_backend(&self, address: &str) -> bool;

    fn undrain_backend(&self, address: &str) -> bool;
}

/// The admin operations, by method and path.
#[derive(Clone, Copy, PartialEq, Eq, Structural)]
pub enum AdminEndpoint {
    ListBackends,
    AddBackend,
    RemoveBackend,
    UpdateWeight,
    DrainBackend,
    UndrainBackend,
    Health,
    Reload,
    NotFound,
}

pub open spec fn admin_endpoint_of(method: Seq<char>, path: Seq<char>) -> AdminEndpoint {
    if method == "GET"@ && path == "/admin/backends"@ {
        AdminEndpoint::ListBackends
    } else if method == "POST"@ && path == "/admin/backends"@ {
        AdminEndpoint::AddBackend
    } else if method == "DELETE"@ && path == "/admin/backends"@ {
        AdminEndpoint::RemoveBackend
    } else if method == "PUT"@ && path == "/admin/backends/weight"@ {
        AdminEndpoint::UpdateWeight
    } else if method == "POST"@ && path == "/admin/backends/drain"@ {
        AdminEndpoint::DrainBackend
    } else if method == "POST"@ && path == "/admin/backends/undrain"@ {
        AdminEndpoint::UndrainBackend
    } else if method == "GET"@ && path == "/admin/health"@ {
        AdminEndpoint::Health
    } else if method == "POST"@ && path == "/admin/reload"@ {
        AdminEndpoint::Reload
    } else {
        AdminEndpoint::NotFound
    }
}

/// The operation a request asks for.
pub fn admin_endpoint(method: &str, path: &str) -> (r: AdminEndpoint)
    ensures
        r == admin_endpoint_of(method@, path@),
{
    if str_eq(method, "GET") && str_eq(path, "/admin/backends") {
        AdminEndpoint::ListBackends
    } else if str_eq(method, "POST") && str_eq(path, "/admin/backends") {
        AdminEndpoint::AddBackend
    } else if str_eq(method, "DELETE") && str_eq(path, "/admin/backends") {
        AdminEndpoint::RemoveBackend
    } else if str_eq(method, "PUT") && str_eq(path, "/admin/backends/weight") {
        AdminEndpoint::UpdateWeight
    } else if str_eq(method, "POST") && str_eq(path, "/admin/backends/drain") {
        AdminEndpoint::DrainBackend
    } else if str_eq(method, "POST") && str_eq(path, "/admin/backends/undrain") {
        AdminEndpoint::UndrainBackend
    } else if str_eq(method, "GET") && str_eq(path, "/admin/health") {
        AdminEndpoint::Health
    } else if str_eq(method, "POST") && str_eq(path, "/admin/reload") {
        AdminEndpoint::Reload
    } else {
        AdminEndpoint::NotFound
    }
}

/// An admin answer: its HTTP status and body.
pub struct AdminReply {
    pub status: u16,
    pub response: AdminResponse,
}

/// The reply `status`, success flag and message of an answer without data.
pub open spec fn reply_is(r: AdminReply, status: u16, success: bool, message: Seq<char>) -> bool {
    r.status == status && r.response.success == success && r.response.message@ == message && r.response.data is None
}

fn reply(status: u16, success: bool, message: &str) -> (r: AdminReply)
    ensures
        reply_is(r, status, success, message@),
{
    let response = if success {
        AdminResponse::success(message)
    } else {
        AdminResponse::error(message)
    };
    AdminReply { status, response }
}

/// The answer to a change the manager accepted or refused: 200 with
/// `done`, else `refused_status` with `refused`.
pub fn outcome_reply(accepted: bool, done: &str, refused_status: u16, refused: &str) -> (r: AdminReply)
    ensures
        accepted ==> reply_is(r, 200, true, done@),
        !accepted ==> reply_is(r, refused_status, false, refused@),
{
    if accepted {
        reply(200, true, done)
    } else {
        reply(refused_status, false, refused)
    }
}

/// The weight a new backend gets: the one asked for, else 100.
pub fn requested_weight(req: &AddBackendRequest) -> (w: u32)
    ensures
        w == match req.weight {
            Some(x) => x,
            None => 100u32,
        },
{
    match req.weight {
        Some(x) => x,
        None => 100,
    }
}

/// The admin API over a backend manager, guarded by an optional API key.
pub struct AdminApi<M: BackendManager> {
    manager: Arc<M>,
    api_key: Option<String>,
}

impl<M: BackendManager> AdminApi<M> {
    pub closed spec fn key(&self) -> Option<Seq<char>> {
        match self.api_key {
            Some(k) => Some(k@),
            None => None,
        }
    }

    /// The backend manager the API works on.
    pub closed spec fn manager_of(&self) -> Arc<M> {
        self.manager
    }

    pub fn new(manager: Arc<M>, api_key: Option<String>) -> (a: Self)
        ensures
            a.key() == match api_key {
                Some(k) => Some(k@),
                None => None,
            },
            a.manager_of() == manager,
    {
        AdminApi { manager, api_key }
    }

    /// The backend manager the API works on.
    pub fn manager(&self) -> (r: &Arc<M>)
        ensures
            *r == self.manager_of(),
    {
        &self.manager
    }

    /// Whether a request carrying `X-API-Key: provided` (or none) may use the
    /// API: always without a key configured, else only with that exact key.
    pub fn authorized(&self, provided: Option<&str>) -> (r: bool)
        ensures
            r == match self.key() {
                None => true,
                Some(k) => provided matches Some(p) && p@ == k,
            },
    {
        match &self.api_key {
            None => true,
            Some(k) => match provided {
                Some(p) => str_eq(p, k.as_str()),
                None => false,
            },
        }
    }

    /// 401 "Invalid API key".
    pub fn unauthorized_reply(&self) -> (r: AdminReply)
        ensures
            reply_is(r, 401, false, "Invalid API key"@),
    {
        reply(401, false, "Invalid API key")
    }

    /// What a request is answered with before any operation runs: 401
    /// "Invalid API key" when it is not authorized (see `authorized`), else
    /// the operation its method and path ask for (see `admin_endpoint_of`).
    pub fn route(&self, provided: Option<&str>, method: &str, path: &str) -> (r: Result<AdminEndpoint, AdminReply>)
        ensures
            match r {
                Ok(e) => (match self.key() {
                    None => true,
                    Some(k) => provided matches Some(p) && p@ == k,
                }) && e == admin_endpoint_of(method@, path@),
                Err(reply) => !(match self.key() {
                    None => true,
                    Some(k) => provided matches Some(p) && p@ == k,
                }) && reply_is(reply, 401, false, "Invalid API key"@),
            },
    {
        if !self.authorized(provided) {
            return Err(self.unauthorized_reply());
        }
        Ok(admin_endpoint(method, path))
    }

    /// 404 "Endpoint not found".
    pub fn not_found_reply(&self) -> (r: AdminReply)
        ensures
            reply_is(r, 404, false, "Endpoint not found"@),
    {
        reply(404, false, "Endpoint not found")
    }

    /// 400 with the reason the body could not be read.
    pub fn bad_body_reply(&self, reason: &str) -> (r: AdminReply)
        ensures
            reply_is(r, 400, false, reason@),
    {
        reply(400, false, reason)
    }

    /// 400 "Invalid JSON".
    pub fn invalid_json_reply(&self) -> (r: AdminReply)
        ensures
            reply_is(r, 400, false, "Invalid JSON"@),
    {
        reply(400, false, "Invalid JSON")
    }

    /// The backends, as the manager lists them.
    pub fn list_backends(&self) -> Vec<BackendInfo> {
        self.manager.list_backends()
    }

    /// Adds a backend (weight 100 unless one is given): 200 "Backend added",
    /// or 409 "Backend already exists" when the manager refuses.
    pub fn add_backend(&self, req: &AddBackendRequest) -> (r: AdminReply)
        ensures
            reply_is(r, 200, true, "Backend added"@) || reply_is(r, 409, false, "Backend already exists"@),
    {
        let weight = requested_weight(req);
        let added = self.manager.add_backend(req.address.as_str(), weight);
        outcome_reply(added, "Backend added", 409, "Backend already exists")
    }

    /// Removes a backend: 200 "Backend removed", or 404 "Backend not found".
    pub fn remove_backend(&self, req: &RemoveBackendRequest) -> (r: AdminReply)
        ensures
            reply_is(r, 200, true, "Backend removed"@) || reply_is(r, 404, false, "Backend not found"@),
    {
        let done = self.manager.remove_backend(req.address.as_str());
        outcome_reply(done, "Backend removed", 404, "Backend not found")
    }

    /// Changes a backend's weight: 200 "Weight updated", or 404 "Backend not found".
    pub fn update_weight(&self, req: &UpdateWeightRequest) -> (r: AdminReply)
        ensures
            reply_is(r, 200, true, "Weight updated"@) || reply_is(r, 404, false, "Backend not found"@),
    {
        let done = self.manager.update_weight(req.address.as_str(), req.weight);
        outcome_reply(done, "Weight updated", 404, "Backend not found")
    }

    /// Starts draining a backend: 200 "Backend draining", or 404 "Backend not found".
    pub fn drain_backend(&self, req: &RemoveBackendRequest) -> (r: AdminReply)
        ensures
            reply_is(r, 200, true, "Backend draining"@) || reply_is(r, 404, false, "Backend not found"@),
    {
        let done = self.manager.drain_backend(req.address.as_str());
        outcome_reply(done, "Backend draining", 404, "Backend not found")
    }

    /// Stops draining a backend: 200 "Backend undraining", or 404 "Backend not found".
    pub fn undrain_backend(&self, req: &RemoveBackendRequest) -> (r: AdminReply)
        ensures
            reply_is(r, 200, true, "Backend undraining"@) || reply_is(r, 404, false, "Backend not found"@),
    {
        let done = self.manager.undrain_backend(req.address.as_str());
        outcome_reply(done, "Backend undraining", 404, "Backend not found")
    }

    /// 200 "Admin API healthy".
    pub fn health_check(&self) -> (r: AdminReply)
        ensures
            reply_is(r, 200, true, "Admin API healthy"@),
    {
        reply(200, true, "Admin API healthy")
    }

    /// 200 "Config reload triggered".
    pub fn reload_config(&self) -> (r: AdminReply)
        ensures
            reply_is(r, 200, true, "Config reload triggered"@),
    {
        reply(200, true, "Config reload triggered")
    }
}

impl<M: BackendManager> Clone for AdminApi<M> {
    fn clone(&self) -> (r: Self)
        ensures
            r.key() == self.key(),
    {
        AdminApi { manager: self.manager.clone(), api_key: self.api_key.clone() }
    }
}

} // verus!
