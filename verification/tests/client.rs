use zap_wasm::client::{handshake_json, request_json, Call, ClientConfig, ClientOptions};
use zap_wasm::codes::{BrowserAction, ClientType, MessageType};
use zap_wasm::ident::{format_client_id, format_id};
use zap_wasm::protocol::WireMessage;
use zap_wasm::session::ZapClient;
use zap_wasm::text::{push_decimal, push_hex, push_quoted};

fn no_options() -> ClientOptions {
    ClientOptions { client_id: None, client_type: None, capabilities: None, timeout: None, binary: None }
}

#[test]
fn test_generate_id() {
    let id1 = format_id(0x18c_0000_0000, 123_456);
    let id2 = format_id(0x18c_0000_0000, 123_457);
    assert!(!id1.is_empty());
    assert!(!id2.is_empty());
    assert_ne!(id1, id2);
    assert_eq!(id1, "18c00000000-1e240");
}

#[test]
fn test_generate_client_id() {
    let id = format_client_id(1, 0);
    assert!(id.starts_with("zap-"));
    assert!(id.len() > 4);
    assert_eq!(id, "zap-1-0");
}

#[test]
fn ids_use_lower_case_hex_without_padding() {
    assert_eq!(format_id(0, 0), "0-0");
    assert_eq!(format_id(255, 16), "ff-10");
    assert_eq!(format_id(u64::MAX, 999_999), "ffffffffffffffff-f423f");
    assert_eq!(format_client_id(0xabc, 1), "zap-abc-1");
}

#[test]
fn numerals() {
    let mut s = String::new();
    push_decimal(&mut s, 0);
    s.push(' ');
    push_decimal(&mut s, 30000);
    s.push(' ');
    push_decimal(&mut s, u64::MAX);
    s.push(' ');
    push_hex(&mut s, 0xdead_beef);
    assert_eq!(s, "0 30000 18446744073709551615 deadbeef");
}

#[test]
fn quoting_follows_json_stringify() {
    let mut s = String::new();
    push_quoted(&mut s, "a\"b\\c\n\r\t\u{8}\u{c}\u{1}\u{1f} \u{7f}\u{e9}");
    assert_eq!(s, "\"a\\\"b\\\\c\\n\\r\\t\\b\\f\\u0001\\u001f \u{7f}\u{e9}\"");
    let mut e = String::new();
    push_quoted(&mut e, "");
    assert_eq!(e, "\"\"");
}

#[test]
fn test_client_type_enum() {
    assert_eq!(ClientType::McpServer.code(), 0);
    assert_eq!(ClientType::McpClient.code(), 1);
    assert_eq!(ClientType::BrowserExtension.code(), 2);
    assert_eq!(ClientType::Agent.code(), 3);
    assert_eq!(ClientType::from_code(3), Some(ClientType::Agent));
    assert_eq!(ClientType::from_code(200), None);
}

#[test]
fn test_browser_action_enum() {
    assert_eq!(BrowserAction::Navigate.code(), 1);
    assert_eq!(BrowserAction::Click.code(), 10);
    assert_eq!(BrowserAction::Evaluate.code(), 20);
    assert_eq!(BrowserAction::Screenshot.code(), 40);
    assert_eq!(BrowserAction::GetTabs.code(), 50);
    assert_eq!(BrowserAction::from_code(71), Some(BrowserAction::Ping));
    assert_eq!(BrowserAction::from_code(5), None);
}

#[test]
fn message_type_codes() {
    let all = [
        MessageType::Handshake,
        MessageType::HandshakeResponse,
        MessageType::Request,
        MessageType::Response,
        MessageType::Stream,
        MessageType::Ping,
        MessageType::Pong,
    ];
    for (i, t) in all.iter().enumerate() {
        assert_eq!(t.code() as usize, i + 1);
        assert_eq!(MessageType::from_code(t.code()), Some(*t));
    }
    assert_eq!(MessageType::from_code(0), None);
    assert_eq!(MessageType::from_code(8), None);
}

#[test]
fn test_zap_client_creation() {
    let options = ClientOptions { client_id: Some("test-client".to_string()), ..no_options() };
    let config = ClientConfig::from_options(options, format_client_id(5, 6));
    let client: ZapClient<u32, u32> = ZapClient::new(config);
    assert_eq!(client.client_id(), "test-client");
    assert_eq!(client.pending_count(), 0);
}

#[test]
fn test_zap_client_default_options() {
    let config = ClientConfig::from_options(no_options(), format_client_id(0x1234, 0x56));
    assert!(config.client_id.starts_with("zap-"));
    assert_eq!(config.client_type, ClientType::McpClient.code());
    assert_eq!(config.capabilities, vec!["tools", "browser", "mcp"]);
    assert_eq!(config.timeout, 30000);
    assert!(config.binary);
    let client: ZapClient<u32, u32> = ZapClient::new(config);
    assert!(client.client_id().starts_with("zap-"));
}

#[test]
fn options_override_defaults() {
    let options = ClientOptions {
        client_id: Some("x".to_string()),
        client_type: Some(3),
        capabilities: Some(vec!["tools".to_string()]),
        timeout: Some(5),
        binary: Some(false),
    };
    let config = ClientConfig::from_options(options, "unused".to_string());
    assert_eq!(config.client_id, "x");
    assert_eq!(config.client_type, 3);
    assert_eq!(config.capabilities, vec!["tools"]);
    assert_eq!(config.timeout, 5);
    assert!(!config.binary);
}

#[test]
fn handshake_text_is_exact() {
    let config = ClientConfig::from_options(
        ClientOptions { client_id: Some("ext \"1\"".to_string()), ..no_options() },
        String::new(),
    );
    assert_eq!(
        handshake_json(&config),
        "{\"version\":\"1.0.0\",\"clientType\":1,\"clientId\":\"ext \\\"1\\\"\",\"capabilities\":[\"tools\",\"browser\",\"mcp\"]}"
    );
    let bare = ClientConfig::from_options(
        ClientOptions { client_id: Some("a".to_string()), capabilities: Some(vec![]), ..no_options() },
        String::new(),
    );
    assert_eq!(handshake_json(&bare), "{\"version\":\"1.0.0\",\"clientType\":1,\"clientId\":\"a\",\"capabilities\":[]}");
}

#[test]
fn handshake_message_is_framed() {
    let config = ClientConfig::from_options(
        ClientOptions { client_id: Some("c".to_string()), capabilities: Some(vec![]), binary: Some(false), ..no_options() },
        String::new(),
    );
    let client: ZapClient<u32, u32> = ZapClient::new(config);
    match client.handshake_message() {
        WireMessage::Text(t) => assert_eq!(
            t,
            "{\"t\":1,\"d\":{\"version\":\"1.0.0\",\"clientType\":1,\"clientId\":\"c\",\"capabilities\":[]}}"
        ),
        WireMessage::Binary(_) => panic!("text mode writes text"),
    }
}

#[test]
fn request_texts() {
    assert_eq!(request_json("1-2", "tools/list", None), "{\"id\":\"1-2\",\"method\":\"tools/list\"}");
    assert_eq!(
        request_json("a", "browser", Some("{\"action\":50}")),
        "{\"id\":\"a\",\"method\":\"browser\",\"params\":{\"action\":50}}"
    );
}

#[test]
fn calls_name_their_methods_and_parameters() {
    let c = Call::list_tools();
    assert_eq!((c.method.as_str(), c.params, c.result_member.as_deref()), ("tools/list", None, Some("tools")));
    let c = Call::list_resources();
    assert_eq!((c.method.as_str(), c.params, c.result_member.as_deref()), ("resources/list", None, Some("resources")));
    let c = Call::call_tool("search", Some("{\"query\":\"hello world\"}"));
    assert_eq!(c.method, "tools/call");
    assert_eq!(c.params.as_deref(), Some("{\"name\":\"search\",\"arguments\":{\"query\":\"hello world\"}}"));
    assert_eq!(Call::call_tool("t", None).params.as_deref(), Some("{\"name\":\"t\"}"));
    let c = Call::read_resource("file:///a");
    assert_eq!(c.method, "resources/read");
    assert_eq!(c.params.as_deref(), Some("{\"uri\":\"file:///a\"}"));
    let c = Call::browser(Some("{\"action\":70}"));
    assert_eq!((c.method.as_str(), c.params.as_deref()), ("browser", Some("{\"action\":70}")));
    assert_eq!(Call::browser(None).params, None);
}

#[test]
fn browser_commands() {
    assert_eq!(
        Call::navigate("https://example.com", None).params.as_deref(),
        Some("{\"action\":1,\"url\":\"https://example.com\"}")
    );
    assert_eq!(
        Call::navigate("u", Some(7)).params.as_deref(),
        Some("{\"action\":1,\"url\":\"u\",\"tabId\":7}")
    );
    assert_eq!(Call::click("#go", None).params.as_deref(), Some("{\"action\":10,\"selector\":\"#go\"}"));
    assert_eq!(
        Call::fill("input", "v", Some(4294967295)).params.as_deref(),
        Some("{\"action\":12,\"selector\":\"input\",\"value\":\"v\",\"tabId\":4294967295}")
    );
    assert_eq!(
        Call::evaluate("1+1", Some(0)).params.as_deref(),
        Some("{\"action\":20,\"code\":\"1+1\",\"tabId\":0}")
    );
    assert_eq!(Call::screenshot(None, None).params.as_deref(), Some("{\"action\":40}"));
    assert_eq!(
        Call::screenshot(Some(true), Some(2)).params.as_deref(),
        Some("{\"action\":40,\"fullPage\":true,\"tabId\":2}")
    );
    assert_eq!(Call::screenshot(Some(false), None).params.as_deref(), Some("{\"action\":40,\"fullPage\":false}"));
    let tabs = Call::get_tabs();
    assert_eq!(tabs.method, "browser");
    assert_eq!(tabs.params.as_deref(), Some("{\"action\":50}"));
}
