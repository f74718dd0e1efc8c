use trackmania_api::{Client, DedicatedServerClient, Error, Method, Step};

const AUTH_URL: &str = "https://prod.trackmania.core.nadeo.online/v2/authentication/token/basic";
const TOKEN: &str = "abc.eyJzdWIiOiJBQ0MxIn0.sig";

fn auth_body() -> String {
    format!("{{\"accessToken\":\"{}\",\"refreshToken\":\"r\"}}", TOKEN)
}

#[test]
fn fresh_client_requests_authentication() {
    let client = DedicatedServerClient::new("user", "pass");
    match client.get_access_token() {
        Step::Authenticate(req) => {
            assert_eq!(req.method, Method::Post);
            assert_eq!(req.url, AUTH_URL);
            let basic = req.basic_auth.expect("basic credentials attached");
            assert_eq!(basic.login, "user");
            assert_eq!(basic.password, "pass");
            assert_eq!(req.user_agent.as_deref(), Some("JussyDr"));
            assert_eq!(req.authorization, None);
            assert_eq!(req.body, None);
        }
        Step::Ready(_) => panic!("a fresh client must authenticate first"),
    }
}

#[test]
fn token_cached_after_one_authentication() {
    let mut client = DedicatedServerClient::new("user", "pass");
    assert!(matches!(client.get_access_token(), Step::Authenticate(_)));
    assert_eq!(client.handle_auth_response(&auth_body()), Ok(()));
    match client.get_access_token() {
        Step::Ready(token) => assert_eq!(token, TOKEN),
        Step::Authenticate(_) => panic!("the cached token must be reused"),
    }
    // A second call still answers from the cache: no further authentication.
    assert!(matches!(client.get_access_token(), Step::Ready(_)));
    assert!(matches!(client.register_dedicated_server("ACC1", &sample_config()), Step::Ready(_)));
}

#[test]
fn account_id_decoded_without_second_exchange() {
    let mut client = DedicatedServerClient::new("user", "pass");
    match client.get_account_id() {
        Step::Authenticate(req) => {
            assert_eq!(req.url, AUTH_URL);
            assert_eq!(client.handle_auth_response(&auth_body()), Ok(()));
        }
        Step::Ready(_) => panic!("no claims are cached yet"),
    }
    match client.get_account_id() {
        Step::Ready(account_id) => assert_eq!(account_id, "ACC1"),
        Step::Authenticate(_) => panic!("the account id must come from the cached claims"),
    }
}

fn sample_config() -> trackmania_api::ServerConfig<'static> {
    trackmania_api::ServerConfig {
        title_id: "TM_Stadium",
        script_file_name: "TimeAttack.Script.txt",
        port: 2350,
        player_count_max: 32,
        player_count: 7,
        server_name: "My Server",
        is_private: false,
        ip: "203.0.113.9",
        game_mode_custom_data: "",
        game_mode: "TimeAttack",
    }
}

#[test]
fn register_issues_put_with_cached_token() {
    let mut client = DedicatedServerClient::new("user", "pass");
    assert_eq!(client.handle_auth_response(&auth_body()), Ok(()));
    let config = sample_config();
    match client.register_dedicated_server("ACC1", &config) {
        Step::Ready(req) => {
            assert_eq!(req.method, Method::Put);
            assert_eq!(req.url, "https://prod.trackmania.core.nadeo.online/servers/ACC1");
            assert_eq!(req.authorization, Some(format!("nadeo_v1 t={}", TOKEN)));
            assert_eq!(req.user_agent.as_deref(), Some("JussyDr"));
            assert_eq!(req.basic_auth, None);
            assert_eq!(req.body, Some(config.to_json()));
        }
        Step::Authenticate(_) => panic!("the token is cached"),
    }
}

#[test]
fn deregister_issues_delete_without_body() {
    let mut client = DedicatedServerClient::new("user", "pass");
    assert_eq!(client.handle_auth_response(&auth_body()), Ok(()));
    match client.deregister_dedicated_server("ACC1") {
        Step::Ready(req) => {
            assert_eq!(req.method, Method::Delete);
            assert_eq!(req.url, "https://prod.trackmania.core.nadeo.online/servers/ACC1");
            assert_eq!(req.authorization, Some(format!("nadeo_v1 t={}", TOKEN)));
            assert_eq!(req.body, None);
        }
        Step::Authenticate(_) => panic!("the token is cached"),
    }
}

#[test]
fn register_before_auth_asks_for_authentication() {
    let client = DedicatedServerClient::new("user", "pass");
    match client.register_dedicated_server("ACC1", &sample_config()) {
        Step::Authenticate(req) => assert_eq!(req.url, AUTH_URL),
        Step::Ready(_) => panic!("no token is cached yet"),
    }
}

#[test]
fn payload_without_sub_fails_with_decode_error() {
    // "e30" is the payload "{}": no sub claim.
    let mut client = DedicatedServerClient::new("user", "pass");
    let body = "{\"accessToken\":\"a.e30.b\",\"refreshToken\":\"r\"}";
    assert_eq!(client.handle_auth_response(body), Err(Error::Decode));
    // Nothing was cached: the client still needs to authenticate, afresh.
    assert!(matches!(client.get_access_token(), Step::Authenticate(_)));
    assert!(matches!(client.get_account_id(), Step::Authenticate(_)));
    // A later, good response then succeeds as if nothing had happened.
    assert_eq!(client.handle_auth_response(&auth_body()), Ok(()));
    assert!(matches!(client.get_access_token(), Step::Ready(_)));
}

#[test]
fn cached_token_is_never_replaced() {
    let mut client = DedicatedServerClient::new("user", "pass");
    assert_eq!(client.handle_auth_response(&auth_body()), Ok(()));
    // A second response, with a different token, is ignored.
    let other = "{\"accessToken\":\"x.eyJzdWIiOiJPVEhFUiJ9.y\",\"refreshToken\":\"r2\"}";
    assert_eq!(client.handle_auth_response(other), Ok(()));
    match client.get_access_token() {
        Step::Ready(token) => assert_eq!(token, TOKEN),
        Step::Authenticate(_) => panic!("the cached token must be kept"),
    }
    match client.get_account_id() {
        Step::Ready(account_id) => assert_eq!(account_id, "ACC1"),
        Step::Authenticate(_) => panic!("the cached claims must be kept"),
    }
}

#[test]
fn unreadable_auth_response_changes_nothing() {
    let mut client = DedicatedServerClient::new("user", "pass");
    assert_eq!(client.handle_auth_response("not json"), Err(Error::Http));
    assert_eq!(client.handle_auth_response("{\"refreshToken\":\"r\"}"), Err(Error::Http));
    assert!(matches!(client.get_access_token(), Step::Authenticate(_)));
}

#[test]
fn client_config_request_is_plain_get() {
    let client = Client::new();
    let req = client.client_config_request();
    assert_eq!(req.method, Method::Get);
    assert_eq!(req.url, "https://prod.trackmania.core.nadeo.online/client/config");
    assert_eq!(req.user_agent.as_deref(), Some("JussyDr"));
    assert_eq!(req.authorization, None);
    assert_eq!(req.basic_auth, None);
    assert_eq!(req.body, None);
}

#[test]
fn client_config_reads_nested_and_flat_ip() {
    let client = Client::new();
    let nested = "{\"settings\":{\"ClientIP\":\"198.51.100.4\"}}";
    assert_eq!(client.get_client_config(nested).unwrap().settings.client_ip, "198.51.100.4");
    let flat = "{\"ClientIP\":\"203.0.113.7\"}";
    assert_eq!(client.get_client_config(flat).unwrap().settings.client_ip, "203.0.113.7");
    assert_eq!(client.get_client_config("{}"), Err(Error::Http));
}
