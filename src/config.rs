//! Service configuration values.
use vstd::prelude::*;

verus! {

/// Settings the gateway starts with: signing secrets and collaborator addresses.
pub struct AppConfig {
    pub rust_log: String,
    pub bearer_secret: String,
    pub refresh_secret: String,
    pub verify_registration_secret: String,
    pub service_url: String,
    pub service_port: u32,
    pub cors_origin: String,
    pub user_host: String,
    pub user_port: u32,
    pub email_host: String,
    pub email_port: u32,
    pub templating_host: String,
    pub templating_port: u32,
    pub notification_host: String,
    pub notification_port: u32,
}

} // verus!
