use garage_secrets_controller::config::{validate_config, Config};
use garage_secrets_controller::error::AppError;

#[test]
fn defaults_match_the_documented_settings() {
    let c = Config::default();
    assert_eq!(c.bao_addr, "http://openbao:8200");
    assert_eq!(c.bao_kv_mount, "kv");
    assert_eq!(c.bao_prefix, "garage");
    assert_eq!(c.garage_admin_url, "http://garage:3903");
    assert_eq!(c.poll_interval_seconds, 30);
    assert!(!c.once);
    assert!(!c.dry_run);
}

#[test]
fn tokens_are_required_in_order() {
    let mut c = Config::default();
    match validate_config(&c) {
        Err(AppError::MissingConfig(m)) => assert_eq!(m, "BAO_TOKEN/--bao-token"),
        other => panic!("unexpected: {other:?}"),
    }
    c.bao_token = "root".to_string();
    match validate_config(&c) {
        Err(e) => assert_eq!(e.to_string(), "missing required config: GARAGE_ADMIN_TOKEN/--garage-admin-token"),
        Ok(()) => panic!("garage token is missing"),
    }
    c.garage_admin_token = "t".to_string();
    assert!(validate_config(&c).is_ok());
}

#[test]
fn errors_read_as_their_kind() {
    assert_eq!(AppError::Http("x".to_string()).to_string(), "http request failed: x");
    assert_eq!(AppError::Json("y".to_string()).to_string(), "json error: y");
    assert_eq!(
        AppError::OpenBaoApi { status: 403, message: "denied".to_string() }.to_string(),
        "openbao api error (403): denied"
    );
    assert_eq!(
        AppError::GarageApi { status: 500, message: "boom".to_string() }.to_string(),
        "garage api error (500): boom"
    );
    assert_eq!(AppError::Resource("r".to_string()).to_string(), "resource error: r");
}
