use inference_logs::config::{Config, ConfigError, RawSettings};
use inference_logs::intake::{intake_reply, is_gzip_encoding, STATUS_BAD_REQUEST, STATUS_INTERNAL_ERROR, STATUS_OK};
use inference_logs::models::WebhookResponse;

fn settings() -> RawSettings {
    RawSettings {
        rpc_url_http: Some("http://rpc".to_string()),
        rpc_url_ws: Some("ws://rpc".to_string()),
        signer_private_key: Some("key".to_string()),
        app_id: None,
        batch_size: None,
        batch_timeout_sec: None,
        queue_max_size: None,
        port: None,
    }
}

#[test]
fn gzip_detection() {
    assert!(is_gzip_encoding("gzip"));
    assert!(is_gzip_encoding("deflate, gzip"));
    assert!(!is_gzip_encoding("deflate"));
    assert!(!is_gzip_encoding("gzi"));
    assert!(!is_gzip_encoding(""));
}

#[test]
fn reply_for_no_logs() {
    let (status, r) = intake_reply(0, 0);
    assert_eq!(status, STATUS_BAD_REQUEST);
    assert!(!r.success);
    assert_eq!(r.message, "No logs provided");
}

#[test]
fn reply_for_queued_logs() {
    let (status, r) = intake_reply(12, 0);
    assert_eq!(status, STATUS_OK);
    assert!(r.success);
    assert_eq!(r.message, "Queued 12 logs for processing");
    assert_eq!(r.count, Some(12));
}

#[test]
fn reply_for_failed_logs() {
    let (status, r) = intake_reply(10, 3);
    assert_eq!(status, STATUS_INTERNAL_ERROR);
    assert_eq!(r.message, "Failed to queue 3 out of 10 logs");
    assert_eq!(r.count, None);
}

#[test]
fn health_reply() {
    let r = WebhookResponse::healthy();
    assert!(r.success);
    assert_eq!(r.message, "Webhook endpoint is healthy");
}

#[test]
fn config_defaults() {
    let c = Config::from_settings(settings()).ok().expect("required settings present");
    assert_eq!(c.app_id, "Mira Network");
    assert_eq!(c.batch_size, 500);
    assert_eq!(c.batch_timeout_sec, 600);
    assert_eq!(c.queue_max_size, 10000);
    assert_eq!(c.port, 3000);
    assert_eq!(c.rpc_url_http, "http://rpc");
}

#[test]
fn config_reads_given_numbers() {
    let mut s = settings();
    s.batch_size = Some("100".to_string());
    s.port = Some("+8080".to_string());
    s.app_id = Some("App".to_string());
    let c = Config::from_settings(s).ok().unwrap();
    assert_eq!(c.batch_size, 100);
    assert_eq!(c.port, 8080);
    assert_eq!(c.app_id, "App");
}

#[test]
fn config_missing_required_settings() {
    let mut s = settings();
    s.rpc_url_ws = None;
    s.signer_private_key = None;
    assert_eq!(Config::from_settings(s).err(), Some(ConfigError::MissingRpcUrlWs));
    let mut t = settings();
    t.rpc_url_http = None;
    assert_eq!(Config::from_settings(t).err(), Some(ConfigError::MissingRpcUrlHttp));
    let mut u = settings();
    u.signer_private_key = None;
    assert_eq!(Config::from_settings(u).err().unwrap().message(), "SIGNER_PRIVATE_KEY is required");
}

#[test]
fn config_rejects_bad_numbers() {
    let mut s = settings();
    s.port = Some("70000".to_string());
    assert_eq!(Config::from_settings(s).err(), Some(ConfigError::InvalidPort));
    let mut t = settings();
    t.batch_timeout_sec = Some("-1".to_string());
    t.queue_max_size = Some("x".to_string());
    assert_eq!(Config::from_settings(t).err(), Some(ConfigError::InvalidBatchTimeout));
    let mut u = settings();
    u.queue_max_size = Some("".to_string());
    assert_eq!(Config::from_settings(u).err(), Some(ConfigError::InvalidQueueMaxSize));
    let mut v = settings();
    v.batch_size = Some(" 5".to_string());
    assert_eq!(Config::from_settings(v).err(), Some(ConfigError::InvalidBatchSize));
}

#[test]
fn config_error_texts() {
    let none = RawSettings {
        rpc_url_http: None,
        rpc_url_ws: None,
        signer_private_key: None,
        app_id: None,
        batch_size: None,
        batch_timeout_sec: None,
        queue_max_size: None,
        port: None,
    };
    assert_eq!(Config::from_settings(none).err().unwrap().message(), "RPC_URL_HTTP is required");
    assert_eq!(ConfigError::MissingRpcUrlWs.message(), "RPC_URL_WS is required");
    let mut s = settings();
    s.batch_size = Some("abc".to_string());
    assert_eq!(Config::from_settings(s).err().unwrap().message(), "BATCH_SIZE must be a valid number");
    assert_eq!(ConfigError::InvalidBatchTimeout.message(), "BATCH_TIMEOUT_SEC must be a valid number");
    assert_eq!(ConfigError::InvalidQueueMaxSize.message(), "QUEUE_MAX_SIZE must be a valid number");
    let mut p = settings();
    p.port = Some("70000".to_string());
    assert_eq!(Config::from_settings(p).err().unwrap().message(), "PORT must be a valid number");
}
