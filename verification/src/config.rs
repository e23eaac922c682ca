//! The controller's settings.
use vstd::prelude::*;
use crate::error::{AppError, AppErrorV};
use crate::text::owned;

verus! {

/// Where the secret store and Garage are, and how the controller runs.
#[derive(Debug)]
pub struct Config {
    pub bao_addr: String,
    pub bao_token: String,
    pub bao_kv_mount: String,
    pub bao_prefix: String,
    pub garage_admin_url: String,
    pub garage_admin_token: String,
    pub poll_interval_seconds: u64,
    pub once: bool,
    pub dry_run: bool,
}

impl Default for Config {
    /// The settings used when none are given.
    fn default() -> (c: Config)
        ensures
            c.bao_addr@ == "http://openbao:8200"@,
            c.bao_token@ == ""@,
            c.bao_kv_mount@ == "kv"@,
            c.bao_prefix@ == "garage"@,
            c.garage_admin_url@ == "http://garage:3903"@,
            c.garage_admin_token@ == ""@,
            c.poll_interval_seconds == 30,
            !c.once,
            !c.dry_run,
    {
        Config {
            bao_addr: owned("http://openbao:8200"),
            bao_token: owned(""),
            bao_kv_mount: owned("kv"),
            bao_prefix: owned("garage"),
            garage_admin_url: owned("http://garage:3903"),
            garage_admin_token: owned(""),
            poll_interval_seconds: 30,
            once: false,
            dry_run: false,
        }
    }
}

/// Refuses settings without the OpenBao token or the Garage admin token, in that order.
pub fn validate_config(cfg: &Config) -> (r: Result<(), AppError>)
    ensures
        cfg.bao_token@.len() == 0 ==> (r matches Err(e) && e@ == AppErrorV::MissingConfig("BAO_TOKEN/--bao-token"@)),
        cfg.bao_token@.len() != 0 && cfg.garage_admin_token@.len() == 0 ==> (r matches Err(e) && e@
            == AppErrorV::MissingConfig("GARAGE_ADMIN_TOKEN/--garage-admin-token"@)),
        cfg.bao_token@.len() != 0 && cfg.garage_admin_token@.len() != 0 ==> r is Ok,
{
    if cfg.bao_token.as_str().unicode_len() == 0 {
        return Err(AppError::MissingConfig(owned("BAO_TOKEN/--bao-token")));
    }
    if cfg.garage_admin_token.as_str().unicode_len() == 0 {
        return Err(AppError::MissingConfig(owned("GARAGE_ADMIN_TOKEN/--garage-admin-token")));
    }
    Ok(())
}

} // verus!
