//! The answers of the installer. None of them looks at the machine yet:
//! every check passes, and the database goes where it always goes.

use vstd::prelude::*;

verus! {

/// Where the database file is put.
pub const SQLITE_PATH: &'static str = "data/lmoadll_bl.db";

/// The answer to a check of the configuration.
#[derive(Debug)]
pub struct CheckConfigResponse {
    pub success: bool,
    pub message: String,
}

/// The answer to a request for a place for the database file.
#[derive(Debug)]
pub struct GenerateSqlitePathResponse {
    pub success: bool,
    pub path: String,
}

/// The database that a connection is to be tried with.
#[derive(Debug)]
pub struct TestConnectionRequest {
    pub db_type: String,
    pub host: String,
    pub port: String,
    pub username: String,
    pub password: String,
    pub database: String,
}

/// The answer to a trial connection.
#[derive(Debug)]
pub struct TestConnectionResponse {
    pub success: bool,
    pub message: String,
}

/// The database that the configuration is to name.
#[derive(Debug)]
pub struct SaveConfigRequest {
    pub db_type: String,
    pub host: String,
    pub port: String,
    pub username: String,
    pub password: String,
    pub database: String,
}

/// The answer to a request to save the configuration.
#[derive(Debug)]
pub struct SaveConfigResponse {
    pub success: bool,
    pub message: String,
}

/// The configuration passes.
pub fn check_config() -> (response: CheckConfigResponse)
    ensures
        response.success,
        response.message@ == "Configuration check passed"@,
{
    CheckConfigResponse { success: true, message: "Configuration check passed".to_owned() }
}

/// The database file goes to its usual place.
pub fn generate_sqlite_path() -> (response: GenerateSqlitePathResponse)
    ensures
        response.success,
        response.path@ == SQLITE_PATH@,
{
    GenerateSqlitePathResponse { success: true, path: SQLITE_PATH.to_owned() }
}

/// The connection counts as working, whatever the request names.
pub fn test_connection(payload: &TestConnectionRequest) -> (response: TestConnectionResponse)
    ensures
        response.success,
        response.message@ == "Connection test successful"@,
{
    TestConnectionResponse { success: true, message: "Connection test successful".to_owned() }
}

/// The configuration counts as saved, whatever the request names.
pub fn save_config(payload: &SaveConfigRequest) -> (response: SaveConfigResponse)
    ensures
        response.success,
        response.message@ == "Configuration saved successfully"@,
{
    SaveConfigResponse { success: true, message: "Configuration saved successfully".to_owned() }
}

} // verus!
