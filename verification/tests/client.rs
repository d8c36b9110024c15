use myapp::api::{item, ITEMS, SYSTEM_STATUS};
use myapp::client::{is_success, parse_failure, rate_limited, retry_after_secs, status_result, ApiClient, Method};
use myapp::config::Config;
use myapp::error::{display_api_error, format_tool_error, Error};
use myapp::models::{Item, NewItem, Page, SystemStatus};
use myapp::secret::SecretString;
use myapp::tools::{
    default_page, default_page_size, delete_result, item_rows, list_items_result, new_item, status_row,
    CreateItemParams, ItemCommand,
};

fn config_with_key(base_url: &str, key: Option<&str>) -> Config {
    let mut config = Config::default();
    config.base_url = base_url.to_string();
    config.api_key = key.map(SecretString::from);
    config
}

fn client() -> ApiClient {
    ApiClient::new(config_with_key("http://api.test//", Some("test-key"))).unwrap()
}

#[test]
fn missing_api_key_is_rejected() {
    let result = ApiClient::new(config_with_key("http://api.test", None));
    let err = result.err().expect("a client needs a key");
    assert!(matches!(err, Error::MissingApiKey));
    assert_eq!(
        err.to_string(),
        "no API key configured; set MYAPP_API_KEY, MYAPP_API_KEY_FILE, --api-key, or api_key in config.toml"
    );
}

#[test]
fn key_with_control_characters_is_rejected_without_echo() {
    let err = ApiClient::new(config_with_key("http://api.test", Some("bad\nkey"))).err().unwrap();
    match &err {
        Error::Config(message) => assert_eq!(message, "API key contains invalid header characters"),
        other => panic!("unexpected error: {other:?}"),
    }
    assert!(!err.to_string().contains("bad"));
}

#[test]
fn client_trims_base_url_and_keeps_settings() {
    let c = client();
    assert_eq!(c.base_url(), "http://api.test");
    assert_eq!(c.api_key(), "test-key");
    assert_eq!(c.request_timeout_secs(), 30);
    assert_eq!(c.connect_timeout_secs(), 10);
    assert_eq!(c.url("/x"), "http://api.test/x");
}

#[test]
fn endpoint_requests() {
    let c = client();
    let status = c.system_status_request();
    assert_eq!(status.method, Method::Get);
    assert_eq!(status.url, format!("http://api.test{SYSTEM_STATUS}"));
    assert!(status.query.is_empty());

    let list = c.list_items_request(2, 50);
    assert_eq!(list.url, format!("http://api.test{ITEMS}"));
    assert_eq!(
        list.query,
        vec![("page".to_string(), "2".to_string()), ("pageSize".to_string(), "50".to_string())]
    );

    let get = c.get_item_request(7);
    assert_eq!(get.method, Method::Get);
    assert_eq!(get.url, "http://api.test/api/v3/item/7");

    let create = c.create_item_request(&NewItem { name: "new".to_string(), enabled: true });
    assert_eq!(create.method, Method::Post);
    assert_eq!(create.body, Some(NewItem { name: "new".to_string(), enabled: true }));

    let delete = c.delete_item_request(-3);
    assert_eq!(delete.method, Method::Delete);
    assert_eq!(delete.url, "http://api.test/api/v3/item/-3");
}

#[test]
fn item_path_formats_id() {
    assert_eq!(item(7), "/api/v3/item/7");
    assert_eq!(item(0), "/api/v3/item/0");
    assert_eq!(item(i64::MIN), "/api/v3/item/-9223372036854775808");
}

#[test]
fn rate_limited_surfaces_retry_after() {
    match rate_limited(429, Some("30")) {
        Some(Error::RateLimited { retry_after_secs }) => assert_eq!(retry_after_secs, 30),
        other => panic!("unexpected: {other:?}"),
    }
    assert!(rate_limited(200, Some("30")).is_none());
    assert_eq!(retry_after_secs(None), 60);
    assert_eq!(retry_after_secs(Some("soon")), 60);
    assert_eq!(retry_after_secs(Some("+5")), 5);
    let err = rate_limited(429, None).unwrap();
    assert_eq!(err.to_string(), "rate limited; retry after 60s");
}

#[test]
fn api_error_body_is_surfaced() {
    let err = status_result(404, r#"{"message":"not found"}"#.to_string()).unwrap_err();
    assert_eq!(err.to_string(), "API error (404): not found");
    assert_eq!(status_result(204, "body".to_string()).unwrap(), "body");
    assert!(is_success(299));
    assert!(!is_success(300));
    assert!(!is_success(199));
}

#[test]
fn api_error_extracts_json_message() {
    let err = Error::Api { status: 404, message: r#"{"message":"not found"}"#.to_string() };
    assert_eq!(err.to_string(), "API error (404): not found");
}

#[test]
fn api_error_falls_back_to_raw_body() {
    let err = Error::Api { status: 500, message: "boom".to_string() };
    assert_eq!(err.to_string(), "API error (500): boom");
}

#[test]
fn api_error_reads_detail_and_nested_message() {
    assert_eq!(display_api_error(400, r#"{"detail":"bad input"}"#), "API error (400): bad input");
    assert_eq!(display_api_error(502, r#"{"error":{"message":"upstream"}}"#), "API error (502): upstream");
    assert_eq!(display_api_error(500, r#"{"message":5}"#), "API error (500): {\"message\":5}");
}

#[test]
fn parse_failure_is_generic_and_hides_url_and_serde_detail() {
    let err = parse_failure(
        200,
        "http://application:9696/api?apikey=hunter2",
        "invalid type: null, expected a string at line 65 column 22",
    );
    let msg = format_tool_error(&err);
    assert!(!msg.contains("line 65"), "leaked serde position: {msg}");
    assert!(!msg.contains("hunter2"), "leaked api key: {msg}");
    assert!(!msg.contains("application"), "leaked internal url: {msg}");
    assert!(msg.contains("could not parse"), "unexpected message: {msg}");
}

#[test]
fn error_404_gets_hint() {
    let err = Error::Api { status: 404, message: String::new() };
    let msg = format_tool_error(&err);
    assert!(msg.contains("list tool"), "expected a hint: {msg}");
}

#[test]
fn genuine_api_error_uses_display() {
    let err = Error::Api { status: 500, message: "boom".to_string() };
    assert_eq!(format_tool_error(&err), "API error (500): boom");
}

#[test]
fn other_errors_display() {
    assert_eq!(Error::Http("timeout".to_string()).to_string(), "HTTP transport error: timeout");
    assert_eq!(Error::Config("x".to_string()).to_string(), "configuration error: x");
    assert_eq!(Error::Io("gone".to_string()).to_string(), "I/O error: gone");
    assert_eq!(format_tool_error(&Error::RateLimited { retry_after_secs: 3 }), "rate limited; retry after 3s");
}

#[test]
fn tool_defaults_and_results() {
    assert_eq!(default_page(), 1);
    assert_eq!(default_page_size(), 20);
    let page = Page {
        page: 2,
        page_size: 1,
        total_records: 5,
        records: vec![Item { id: 9, name: "w".to_string(), enabled: false }],
    };
    let result = list_items_result(page);
    assert_eq!(result.page, 2);
    assert_eq!(result.page_size, 1);
    assert_eq!(result.total_records, 5);
    assert_eq!(result.items.len(), 1);
    let deleted = delete_result(7);
    assert!(deleted.deleted);
    assert_eq!(deleted.id, 7);
    let body = new_item(&CreateItemParams { name: "n".to_string(), enabled: true });
    assert_eq!(body, NewItem { name: "n".to_string(), enabled: true });
}

#[test]
fn item_commands_map_to_requests() {
    let c = client();
    let list = ItemCommand::List { page: 1, page_size: 20 }.request(&c);
    assert_eq!(list.query[1], ("pageSize".to_string(), "20".to_string()));
    let create = ItemCommand::Create { name: "a".to_string(), enabled: false }.request(&c);
    assert_eq!(create.method, Method::Post);
    let delete = ItemCommand::Delete { id: 4 }.request(&c);
    assert_eq!(delete.url, "http://api.test/api/v3/item/4");
    let get = ItemCommand::Get { id: 4 }.request(&c);
    assert_eq!(get.method, Method::Get);
}

#[test]
fn rows_for_items_and_status() {
    let items = vec![
        Item { id: 1, name: "widget".to_string(), enabled: true },
        Item { id: -2, name: "gadget".to_string(), enabled: false },
    ];
    let rows = item_rows(&items);
    assert_eq!(rows, vec![vec!["1", "widget", "true"], vec!["-2", "gadget", "false"]]);
    let status = SystemStatus { app_name: "MyApp".to_string(), version: "1.2.3".to_string() };
    assert_eq!(status_row(&status), vec!["MyApp", "1.2.3"]);
}

#[test]
fn oversized_tool_results_are_replaced() {
    assert!(myapp::tools::check_response_size(10, 10).is_ok());
    let err = myapp::tools::check_response_size(11, 10).unwrap_err();
    assert_eq!(
        err,
        "response_too_large: the result is 11 bytes, over the limit of 10 bytes; narrow the request (for example a smaller page_size)"
    );
}

fn client_for(base_url: &str) -> ApiClient {
    ApiClient::new(config_with_key(base_url, Some("test-key"))).unwrap()
}

#[test]
fn system_status_sends_api_key_and_parses() {
    let c = client_for("http://127.0.0.1:4321");
    assert_eq!(c.api_key(), "test-key");
    let req = c.system_status_request();
    assert_eq!(req.method, Method::Get);
    assert_eq!(req.url, "http://127.0.0.1:4321/api/v3/system/status");
    let body = r#"{"appName":"MyApp","version":"1.2.3"}"#;
    assert_eq!(status_result(200, body.to_string()).unwrap(), body);
}

#[test]
fn list_items_paginates_with_query_params() {
    let req = client_for("http://127.0.0.1:4321").list_items_request(1, 2);
    assert_eq!(req.method, Method::Get);
    assert_eq!(req.url, "http://127.0.0.1:4321/api/v3/item");
    assert_eq!(req.query, vec![("page".to_string(), "1".to_string()), ("pageSize".to_string(), "2".to_string())]);
}

#[test]
fn create_item_posts_body() {
    let req = client_for("http://127.0.0.1:4321").create_item_request(&NewItem { name: "new".into(), enabled: true });
    assert_eq!(req.method, Method::Post);
    assert_eq!(req.url, "http://127.0.0.1:4321/api/v3/item");
    assert_eq!(req.body, Some(NewItem { name: "new".into(), enabled: true }));
    assert!(status_result(201, String::new()).is_ok());
}

#[test]
fn delete_item_succeeds_on_2xx() {
    let req = client_for("http://127.0.0.1:4321").delete_item_request(7);
    assert_eq!(req.method, Method::Delete);
    assert_eq!(req.url, "http://127.0.0.1:4321/api/v3/item/7");
    assert!(is_success(200));
}

#[test]
fn get_item_returns_parsed_item() {
    let req = client_for("http://127.0.0.1:4321").get_item_request(7);
    assert_eq!(req.method, Method::Get);
    assert_eq!(req.url, "http://127.0.0.1:4321/api/v3/item/7");
    let body = r#"{"id":7,"name":"widget","enabled":true}"#;
    assert_eq!(status_result(200, body.to_string()).unwrap(), body);
}
