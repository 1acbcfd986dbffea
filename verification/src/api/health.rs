//! What the health of the service is, given what its parts report.

use vstd::prelude::*;
use vstd::string::*;
use crate::text::{decimal_digits, push_decimal, str_eq};

verus! {

/// Health check response
pub struct HealthResponse {
    pub status: String,
    pub service: String,
    pub version: String,
    pub time: String,
    pub checks: HealthChecks,
}

/// The health of each part of the service.
pub struct HealthChecks {
    pub database: HealthStatus,
    pub solvers: HealthStatus,
}

/// The health of one part of the service.
pub struct HealthStatus {
    pub status: String,
    pub message: Option<String>,
}

/// The status of the database: healthy when it answered, unhealthy with
/// the reason when it did not.
pub fn database_status(ping: Result<(), String>) -> (health: HealthStatus)
    ensures
        is_database_status(ping, health),
{
    match ping {
        Ok(_) => HealthStatus { status: String::from_str("healthy"), message: None },
        Err(reason) => HealthStatus { status: String::from_str("unhealthy"), message: Some(reason) },
    }
}

/// Whether `health` is the status of `solver_count` solvers: healthy with
/// their number when there is one, degraded when there is none.
pub open spec fn is_solver_status(solver_count: usize, health: HealthStatus) -> bool {
    health.message matches Some(message) && (if solver_count > 0 {
        health.status@ == "healthy"@ && message@ == decimal_digits(solver_count as nat)
            + " models loaded"@
    } else {
        health.status@ == "degraded"@ && message@ == "No models loaded"@
    })
}

/// Whether `health` is the status of a database that answered a ping with
/// `ping`: healthy when it answered, unhealthy with the reason when it did
/// not.
pub open spec fn is_database_status(ping: Result<(), String>, health: HealthStatus) -> bool {
    match ping {
        Ok(_) => health.status@ == "healthy"@ && health.message is None,
        Err(reason) => health.status@ == "unhealthy"@ && health.message == Some(reason),
    }
}

/// The status of the solvers: healthy with their number when there is one,
/// degraded when there is none.
pub fn solver_status(solver_count: usize) -> (health: HealthStatus)
    ensures
        is_solver_status(solver_count, health),
{
    if solver_count > 0 {
        let mut message = String::new();
        push_decimal(&mut message, solver_count as u64);
        message.append(" models loaded");
        proof {
            assert(Seq::<char>::empty() + decimal_digits(solver_count as nat) =~= decimal_digits(
                solver_count as nat,
            ));
        }
        HealthStatus { status: String::from_str("healthy"), message: Some(message) }
    } else {
        HealthStatus {
            status: String::from_str("degraded"),
            message: Some(String::from_str("No models loaded")),
        }
    }
}

/// The status of the whole service: healthy when the database is healthy
/// and the solvers are not unhealthy, unhealthy when the database is
/// unhealthy, degraded otherwise.
pub open spec fn overall(database: Seq<char>, solvers: Seq<char>) -> Seq<char> {
    if database == "healthy"@ && solvers != "unhealthy"@ {
        "healthy"@
    } else if database == "unhealthy"@ {
        "unhealthy"@
    } else {
        "degraded"@
    }
}

/// The status of the whole service.
pub fn overall_status(database: &HealthStatus, solvers: &HealthStatus) -> (status: &'static str)
    ensures
        status@ == overall(database.status@, solvers.status@),
{
    if str_eq(database.status.as_str(), "healthy") && !str_eq(solvers.status.as_str(), "unhealthy") {
        "healthy"
    } else if str_eq(database.status.as_str(), "unhealthy") {
        "unhealthy"
    } else {
        "degraded"
    }
}

/// The HTTP status that reports an overall status: 200 for a healthy or a
/// degraded service, 503 otherwise.
pub fn health_http_status(status: &str) -> (code: u16)
    ensures
        code == (if status@ == "healthy"@ || status@ == "degraded"@ {
            200u16
        } else {
            503u16
        }),
{
    if str_eq(status, "healthy") || str_eq(status, "degraded") {
        200
    } else {
        503
    }
}

/// Health check: the answer for what the database and the registry
/// report, under the given version and time.
pub fn health_check(ping: Result<(), String>, solver_count: usize, version: &str, time: &str) -> (response:
    HealthResponse)
    ensures
        response.status@ == overall(response.checks.database.status@, response.checks.solvers.status@),
        response.service@ == "captcha"@,
        response.version@ == version@,
        response.time@ == time@,
        is_database_status(ping, response.checks.database),
        is_solver_status(solver_count, response.checks.solvers),
{
    let database = database_status(ping);
    let solvers = solver_status(solver_count);
    let status = overall_status(&database, &solvers);
    HealthResponse {
        status: String::from_str(status),
        service: String::from_str("captcha"),
        version: String::from_str(version),
        time: String::from_str(time),
        checks: HealthChecks { database, solvers },
    }
}

/// Readiness check: the service is ready when the database answers and a
/// solver is registered.
pub fn ready_check(database_ready: bool, solver_count: usize) -> (ready: bool)
    ensures
        ready == (database_ready && solver_count > 0),
{
    let solvers_ready = solver_count > 0;
    database_ready && solvers_ready
}

} // verus!
