use pihole_sync::config::InstanceConfig;
use pihole_sync::error::SyncError;
use pihole_sync::json::JsonValue;
use pihole_sync::pihole::client::{
    backoff_ms, is_error_status, needs_keepalive, ApiCall, AppPassword, AuthStep, Group,
    HttpMethod, List, LogoutStep, PiHoleClient, ReadinessWait, ReadyStep, SessionAnswer,
    APP_USER_AGENT, BACKUP_FILE_NAME, CONFIG_READINESS_TIMEOUT_MS, X_FTL_SID_HEADER,
};

fn instance() -> InstanceConfig {
    InstanceConfig {
        host: "pi.hole".to_string(),
        schema: "https".to_string(),
        port: 8443,
        api_key: "secret".to_string(),
        update_gravity: None,
        sync_mode: None,
        api_sync_options: None,
        teleporter_sync_options: None,
    }
}

fn object(members: Vec<(&str, JsonValue)>) -> JsonValue {
    JsonValue::Object(members.into_iter().map(|(k, v)| (k.to_string(), v)).collect())
}

fn text(s: &str) -> JsonValue {
    JsonValue::Text(s.to_string())
}

#[test]
fn base_url_has_schema_host_port_and_api() {
    let client = PiHoleClient::new(instance());
    assert_eq!(client.base_url(), "https://pi.hole:8443/api");
    assert_eq!(client.instance_label(), ("pi.hole", 8443));
    assert_eq!(client.config().host, "pi.hole");
}

#[test]
fn base_url_with_small_and_large_ports() {
    let mut config = instance();
    config.port = 0;
    assert_eq!(PiHoleClient::new(config).base_url(), "https://pi.hole:0/api");
    let mut config = instance();
    config.port = 65535;
    assert_eq!(PiHoleClient::new(config).base_url(), "https://pi.hole:65535/api");
    let mut config = instance();
    config.port = 80;
    config.schema = "http".to_string();
    assert_eq!(PiHoleClient::new(config).base_url(), "http://pi.hole:80/api");
}

#[test]
fn a_fresh_client_authenticates_first() {
    let client = PiHoleClient::new(instance());
    assert_eq!(client.ensure_authenticated(), AuthStep::Authenticate);
    assert_eq!(client.get_session_token(), "");
    assert_eq!(client.logout(), LogoutStep::Nothing);
}

#[test]
fn an_answer_without_session_id_is_an_authentication_error() {
    let mut client = PiHoleClient::new(instance());
    assert_eq!(client.authenticate(None), Err(SyncError::Authentication));
    assert_eq!(client.ensure_authenticated(), AuthStep::Authenticate);
}

#[test]
fn a_session_id_is_cached_and_checked_next_time() {
    let mut client = PiHoleClient::new(instance());
    assert_eq!(client.authenticate(Some("sid-1".to_string())), Ok(()));
    assert_eq!(client.get_session_token(), "sid-1");
    assert_eq!(client.ensure_authenticated(), AuthStep::CheckSession);
    assert_eq!(client.logout(), LogoutStep::Invalidate);
}

#[test]
fn a_renewed_session_id_replaces_the_cached_one() {
    let mut client = PiHoleClient::new(instance());
    client.authenticate(Some("sid-1".to_string())).unwrap();
    assert!(client.is_logged_in(SessionAnswer::Session { valid: true, sid: Some("sid-2".to_string()) }));
    assert_eq!(client.get_session_token(), "sid-2");
    assert!(client.is_logged_in(SessionAnswer::Session { valid: true, sid: None }));
    assert_eq!(client.get_session_token(), "sid-2");
}

#[test]
fn an_invalid_session_asks_for_authentication() {
    let mut client = PiHoleClient::new(instance());
    client.authenticate(Some("sid-1".to_string())).unwrap();
    assert!(!client.is_logged_in(SessionAnswer::Unauthorized));
    assert_eq!(client.get_session_token(), "sid-1");
    assert!(!client.is_logged_in(SessionAnswer::Session { valid: false, sid: None }));
    assert_eq!(client.authenticate(Some("sid-3".to_string())), Ok(()));
    assert_eq!(client.get_session_token(), "sid-3");
}

#[test]
fn logout_always_clears_the_cache() {
    for (status, ok) in [
        (Some(410u16), true),
        (Some(200), true),
        (Some(204), true),
        (Some(299), true),
        (Some(401), true),
        (Some(300), false),
        (Some(199), false),
        (Some(500), false),
        (Some(404), false),
        (None, false),
    ] {
        let mut client = PiHoleClient::new(instance());
        client.authenticate(Some("sid".to_string())).unwrap();
        let result = client.finish_logout(status);
        assert_eq!(result.is_ok(), ok, "status {:?}", status);
        if !ok {
            assert_eq!(result, Err(SyncError::Transport));
        }
        assert_eq!(client.logout(), LogoutStep::Nothing);
        assert_eq!(client.get_session_token(), "");
    }
}

#[test]
fn keepalive_ends_with_the_session() {
    let mut client = PiHoleClient::new(instance());
    client.authenticate(Some("sid".to_string())).unwrap();
    assert!(client.keepalive(SessionAnswer::Session { valid: true, sid: Some("sid".to_string()) }));
    assert!(!client.keepalive(SessionAnswer::Session { valid: false, sid: None }));
    assert!(!client.keepalive(SessionAnswer::Unauthorized));
    assert_eq!(client.get_session_token(), "sid");
}

#[test]
fn keepalive_is_needed_when_cycles_are_far_apart() {
    assert!(needs_keepalive(3600, 1800, 30));
    assert!(!needs_keepalive(60, 1800, 30));
    assert!(!needs_keepalive(1770, 1800, 30));
    assert!(needs_keepalive(1771, 1800, 30));
    assert!(needs_keepalive(0, 10, 30));
}

#[test]
fn backoff_doubles_from_fifty_milliseconds_up_to_one_second() {
    assert_eq!(backoff_ms(0), 50);
    assert_eq!(backoff_ms(1), 100);
    assert_eq!(backoff_ms(2), 200);
    assert_eq!(backoff_ms(3), 400);
    assert_eq!(backoff_ms(4), 800);
    assert_eq!(backoff_ms(5), 1000);
    assert_eq!(backoff_ms(6), 1000);
    assert_eq!(backoff_ms(40), 1000);
    assert_eq!(backoff_ms(u32::MAX), 1000);
}

#[test]
fn the_wait_for_readiness_retries_until_the_time_is_over() {
    let mut wait = ReadinessWait::new(10_000);
    assert_eq!(wait.after_attempt(false, 10), ReadyStep::Retry { after_ms: 100 });
    assert_eq!(wait.after_attempt(false, 150), ReadyStep::Retry { after_ms: 200 });
    assert_eq!(wait.after_attempt(false, 400), ReadyStep::Retry { after_ms: 400 });
    assert_eq!(wait.after_attempt(false, 900), ReadyStep::Retry { after_ms: 800 });
    assert_eq!(wait.after_attempt(false, 1800), ReadyStep::Retry { after_ms: 1000 });
    assert_eq!(wait.after_attempt(false, 10_000), ReadyStep::Retry { after_ms: 1000 });
    assert_eq!(wait.after_attempt(false, 10_001), ReadyStep::TimedOut);
    assert_eq!(wait.after_attempt(true, 20_000), ReadyStep::Ready);
}

#[test]
fn an_instance_that_answers_is_ready_at_once() {
    let mut wait = ReadinessWait::new(0);
    assert_eq!(wait.after_attempt(true, 0), ReadyStep::Ready);
}

#[test]
fn operations_have_their_methods_and_paths() {
    let table = [
        (ApiCall::Authenticate, HttpMethod::Post, "/auth", false),
        (ApiCall::CheckSession, HttpMethod::Get, "/auth", true),
        (ApiCall::Logout, HttpMethod::Delete, "/auth", true),
        (ApiCall::AppPassword, HttpMethod::Get, "/auth/app", true),
        (ApiCall::DownloadBackup, HttpMethod::Get, "/teleporter", true),
        (ApiCall::UploadBackup, HttpMethod::Post, "/teleporter", true),
        (ApiCall::TriggerGravity, HttpMethod::Post, "/action/gravity", true),
        (ApiCall::GetConfig, HttpMethod::Get, "/config", true),
        (ApiCall::PatchConfig, HttpMethod::Patch, "/config", true),
        (ApiCall::GetGroups, HttpMethod::Get, "/groups", true),
        (ApiCall::AddGroup, HttpMethod::Post, "/groups", true),
        (ApiCall::UpdateGroup("Family".to_string()), HttpMethod::Put, "/groups/Family", true),
        (ApiCall::GetLists, HttpMethod::Get, "/lists", true),
        (ApiCall::AddList, HttpMethod::Post, "/lists", true),
        (ApiCall::UpdateList("https://x/y.txt".to_string()), HttpMethod::Put, "/lists/https://x/y.txt", true),
    ];
    for (call, method, path, session) in table {
        assert_eq!(call.method(), method);
        assert_eq!(call.path(), path);
        assert_eq!(call.sends_session(), session);
    }
    assert_eq!(X_FTL_SID_HEADER, "X-FTL-SID");
    assert_eq!(BACKUP_FILE_NAME, "pihole_backup.zip");
}

#[test]
fn authentication_sends_the_credential_or_the_given_password() {
    let client = PiHoleClient::new(instance());
    let request = client.authentication(&None);
    assert_eq!(request.call.method(), HttpMethod::Post);
    assert_eq!(request.call.path(), "/auth");
    assert_eq!(request.body, Some(object(vec![("password", text("secret"))])));
    let request = client.authentication(&Some("web".to_string()));
    assert_eq!(request.body, Some(object(vec![("password", text("web"))])));
    assert_eq!(client.password(&None), "secret");
}

#[test]
fn the_configuration_is_the_member_config_of_the_answer() {
    let answer = object(vec![
        ("took", JsonValue::Number("0.1".to_string())),
        ("config", object(vec![("dns", text("x"))])),
    ]);
    assert_eq!(PiHoleClient::get_config(&answer), Ok(object(vec![("dns", text("x"))])));
    assert_eq!(PiHoleClient::get_config(&object(vec![])), Err(SyncError::Transport));
    assert_eq!(PiHoleClient::get_config(&JsonValue::Null), Err(SyncError::Transport));
}

#[test]
fn a_patch_wraps_the_tree_in_config() {
    let request = PiHoleClient::patch_config(object(vec![("dns", text("x"))]));
    assert_eq!(request.call.method(), HttpMethod::Patch);
    assert_eq!(request.call.path(), "/config");
    assert_eq!(request.body, Some(object(vec![("config", object(vec![("dns", text("x"))]))])));
    assert_eq!(request.list_type, None);
}

#[test]
fn group_requests_carry_name_comment_and_flag() {
    let group = Group { name: "Family".to_string(), comment: None, enabled: true, id: Some(7) };
    let body = object(vec![
        ("name", text("Family")),
        ("comment", JsonValue::Null),
        ("enabled", JsonValue::Bool(true)),
    ]);
    let add = PiHoleClient::add_group(&group);
    assert_eq!(add.call.path(), "/groups");
    assert_eq!(add.call.method(), HttpMethod::Post);
    assert_eq!(add.body, Some(body.clone()));
    let update = PiHoleClient::update_group("Family", &group);
    assert_eq!(update.call.path(), "/groups/Family");
    assert_eq!(update.call.method(), HttpMethod::Put);
    assert_eq!(update.body, Some(body));
}

#[test]
fn list_requests_carry_the_type_in_the_query() {
    let list = List {
        address: "https://x/y.txt".to_string(),
        list_type: "block".to_string(),
        comment: Some("c".to_string()),
        groups: vec![0, 12],
        enabled: false,
        id: Some(3),
    };
    let groups = JsonValue::Array(vec![
        JsonValue::Number("0".to_string()),
        JsonValue::Number("12".to_string()),
    ]);
    let add = PiHoleClient::add_list(&list);
    assert_eq!(add.call.path(), "/lists");
    assert_eq!(add.list_type.as_deref(), Some("block"));
    assert_eq!(
        add.body,
        Some(object(vec![
            ("address", text("https://x/y.txt")),
            ("comment", text("c")),
            ("groups", groups.clone()),
            ("enabled", JsonValue::Bool(false)),
        ]))
    );
    let update = PiHoleClient::update_list(&list);
    assert_eq!(update.call.path(), "/lists/https://x/y.txt");
    assert_eq!(update.call.method(), HttpMethod::Put);
    assert_eq!(update.list_type.as_deref(), Some("block"));
    assert_eq!(
        update.body,
        Some(object(vec![
            ("comment", text("c")),
            ("groups", groups),
            ("enabled", JsonValue::Bool(false)),
            ("type", text("block")),
        ]))
    );
}

#[test]
fn an_app_password_comes_with_a_good_status() {
    let app = || AppPassword { password: "p".to_string(), hash: "h".to_string() };
    let got = PiHoleClient::fetch_app_password(200, Some(app())).unwrap();
    assert_eq!(got.password, "p");
    assert_eq!(got.hash, "h");
    assert_eq!(PiHoleClient::fetch_app_password(401, Some(app())).err(), Some(SyncError::Authentication));
    assert_eq!(PiHoleClient::fetch_app_password(499, None).err(), Some(SyncError::Authentication));
    assert_eq!(PiHoleClient::fetch_app_password(200, None).err(), Some(SyncError::Transport));
    assert_eq!(PiHoleClient::fetch_app_password(500, None).err(), Some(SyncError::Transport));
}

#[test]
fn an_upload_fails_with_an_error_status() {
    assert_eq!(PiHoleClient::upload_backup(200), Ok(()));
    assert_eq!(PiHoleClient::upload_backup(399), Ok(()));
    assert_eq!(PiHoleClient::upload_backup(400), Err(SyncError::Transport));
    assert_eq!(PiHoleClient::upload_backup(503), Err(SyncError::Transport));
    assert_eq!(PiHoleClient::upload_backup(599), Err(SyncError::Transport));
    assert_eq!(PiHoleClient::upload_backup(600), Ok(()));
    assert!(is_error_status(404));
    assert!(!is_error_status(302));
}

#[test]
fn errors_describe_themselves() {
    assert_eq!(SyncError::Authentication.describe(), "authentication failed: no session id received");
    assert_eq!(SyncError::Transport.describe(), "request failed");
    assert_eq!(SyncError::ReadinessTimeout.describe(), "instance not ready in time");
    assert_eq!(SyncError::Serialization.describe(), "value could not be serialized");
    assert!(!SyncError::Authentication.is_retryable());
    assert!(SyncError::Transport.is_retryable());
    assert!(SyncError::ReadinessTimeout.is_retryable());
    assert!(SyncError::Serialization.is_retryable());
}

#[test]
fn an_applied_configuration_is_waited_for_ten_seconds() {
    let client = PiHoleClient::new(instance());
    let mut wait = client.patch_config_and_wait_for_ftl_readiness();
    assert_eq!(CONFIG_READINESS_TIMEOUT_MS, 10_000);
    assert_eq!(wait.after_attempt(false, 10_000), ReadyStep::Retry { after_ms: 100 });
    assert_eq!(wait.after_attempt(false, 10_001), ReadyStep::TimedOut);
    let mut wait = client.wait_for_ready(5);
    assert_eq!(wait.after_attempt(false, 6), ReadyStep::TimedOut);
    assert_eq!(APP_USER_AGENT, "pihole-sync");
}

#[test]
fn a_wait_that_is_over_is_a_readiness_timeout() {
    assert_eq!(ReadyStep::TimedOut.failure(), Some(SyncError::ReadinessTimeout));
    assert_eq!(ReadyStep::Ready.failure(), None);
    assert_eq!(ReadyStep::Retry { after_ms: 100 }.failure(), None);
}
