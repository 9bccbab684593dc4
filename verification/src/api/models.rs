//! The response bodies of the REST service.
use vstd::prelude::*;

verus! {

/// The body of `GET /health`.
pub struct HealthResponse {
    pub status: &'static str,
    pub service: &'static str,
}

/// The answer of `GET /health`: the service is up.
pub fn health() -> (r: HealthResponse)
    ensures
        r.status@ == "ok"@,
        r.service@ == "scylladb-api"@,
{
    HealthResponse { status: "ok", service: "scylladb-api" }
}

} // verus!
