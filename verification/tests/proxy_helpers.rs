use cangjie_zed::log::{
    debug, decimal_string, error, info, log, lsp_frame, warn, LogMessageNotification,
    MESSAGE_DEBUG, MESSAGE_ERROR, MESSAGE_INFO, MESSAGE_LOG, MESSAGE_WARNING,
};
use cangjie_zed::lsp_proxy::{code_lens_patch, hex_encode, patch_code_lens_body, relay_step, RelayAction};

fn check(n: &LogMessageNotification, level: u8, message: &str) {
    assert_eq!(n.jsonrpc, "2.0");
    assert_eq!(n.method, "window/logMessage");
    assert_eq!(n.params.message_type, level);
    assert_eq!(n.params.message, message);
}

#[test]
fn log_levels() {
    check(&error("boom"), 1, "boom");
    check(&warn("careful"), 2, "careful");
    check(&info("hello"), 3, "hello");
    check(&log("line"), 4, "line");
    check(&debug("dbg"), 5, "dbg");
    assert_eq!(
        [MESSAGE_ERROR, MESSAGE_WARNING, MESSAGE_INFO, MESSAGE_LOG, MESSAGE_DEBUG],
        [1, 2, 3, 4, 5]
    );
}

#[test]
fn framing() {
    assert_eq!(decimal_string(0), "0");
    assert_eq!(decimal_string(1207), "1207");
    assert_eq!(lsp_frame("{}"), "Content-Length: 2\r\n\r\n{}");
    assert_eq!(lsp_frame("\"é\""), "Content-Length: 4\r\n\r\n\"é\"");
}

#[test]
fn proxy_identifier() {
    assert_eq!(hex_encode("/home"), "2f686f6d65");
    assert_eq!(hex_encode(""), "");
    assert_eq!(hex_encode("é"), "c3a9");
}

#[test]
fn code_lens_rewrite() {
    let body = r#"{"jsonrpc":"2.0","id":1,"result":{"capabilities":{"codeLensProvider":true,"hoverProvider":true}}}"#;
    let patched = patch_code_lens_body(body).unwrap();
    let v: serde_json::Value = serde_json::from_str(&patched).unwrap();
    assert_eq!(v["result"]["capabilities"]["codeLensProvider"], serde_json::Value::Object({
        let mut m = serde_json::Map::new();
        m.insert("resolveProvider".to_string(), serde_json::Value::Bool(true));
        m
    }));
    assert_eq!(v["result"]["capabilities"]["hoverProvider"], serde_json::Value::Bool(true));
    assert_eq!(v["id"], serde_json::Value::from(1));
    // A rewritten response is not rewritten again.
    assert_eq!(patch_code_lens_body(&patched), None);

    assert_eq!(patch_code_lens_body(r#"{"result":{"capabilities":{"codeLensProvider":false}}}"#), None);
    assert_eq!(patch_code_lens_body(r#"{"result":{"capabilities":{"codeLensProvider":{"resolveProvider":false}}}}"#), None);
    assert_eq!(patch_code_lens_body(r#"{"result":{"capabilities":{}}}"#), None);
    assert_eq!(patch_code_lens_body("not json"), None);

    assert_eq!(code_lens_patch(Some(Some(true)), Some("t".to_string())), Some("t".to_string()));
    assert_eq!(code_lens_patch(Some(Some(false)), Some("t".to_string())), None);
    assert_eq!(code_lens_patch(None, Some("t".to_string())), None);
    assert_eq!(code_lens_patch(Some(None), Some("t".to_string())), None);
}

#[test]
fn hex_pairs_read_back() {
    for s in ["/home", "", "é", "C:\\Users\\x y", "日本"] {
        let h = hex_encode(s);
        assert_eq!(h.len(), 2 * s.len());
        assert!(h.chars().all(|c| c.is_ascii_digit() || ('a'..='f').contains(&c)));
        for (i, b) in s.as_bytes().iter().enumerate() {
            assert_eq!(u8::from_str_radix(&h[2 * i..2 * i + 2], 16), Ok(*b));
        }
    }
}

const INIT: &str = r#"{"id":0,"result":{"capabilities":{"codeLensProvider":true}}}"#;

#[test]
fn relay_notifications_and_pending() {
    assert!(matches!(relay_step(false, false, true, false, false, Some("{}")), (false, RelayAction::ForwardRaw)));
    assert!(matches!(relay_step(false, true, false, false, true, Some("x")), (false, RelayAction::ForwardRaw)));
    assert!(matches!(relay_step(false, true, true, true, true, Some(INIT)), (false, RelayAction::RouteToPending)));
    assert!(matches!(relay_step(true, true, true, true, true, Some(INIT)), (true, RelayAction::RouteToPending)));
}

#[test]
fn relay_patches_first_result_once() {
    match relay_step(false, true, true, false, true, Some(INIT)) {
        (true, RelayAction::WritePatched(t)) => {
            let v: serde_json::Value = serde_json::from_str(&t).unwrap();
            assert_eq!(v["result"]["capabilities"]["codeLensProvider"]["resolveProvider"], serde_json::Value::Bool(true));
        }
        _ => panic!("initialize response not rewritten"),
    }
    assert!(matches!(relay_step(true, true, true, false, true, Some(INIT)), (true, RelayAction::ForwardRaw)));
    // A first result that cannot be rewritten still counts as handled.
    let plain = r#"{"id":0,"result":{"capabilities":{}}}"#;
    assert!(matches!(relay_step(false, true, true, false, true, Some(plain)), (true, RelayAction::ForwardRaw)));
    assert!(matches!(relay_step(false, true, true, false, true, None), (true, RelayAction::ForwardRaw)));
    // A response without a result leaves the state alone.
    assert!(matches!(relay_step(false, true, true, false, false, Some(INIT)), (false, RelayAction::ForwardRaw)));
}

#[test]
fn code_lens_rewrite_keeps_other_booleans() {
    let body = r#"{"id":3,"result":{"capabilities":{"codeLensProviderX":true,"codeLensProvider":true,"list":[false,true]}},"flag":false}"#;
    let patched = patch_code_lens_body(body).unwrap();
    let v: serde_json::Value = serde_json::from_str(&patched).unwrap();
    assert_eq!(v.pointer("/result/capabilities/codeLensProviderX"), Some(&serde_json::Value::Bool(true)));
    assert_eq!(v.pointer("/result/capabilities/list/0"), Some(&serde_json::Value::Bool(false)));
    assert_eq!(v.pointer("/result/capabilities/list/1"), Some(&serde_json::Value::Bool(true)));
    assert_eq!(v.pointer("/flag"), Some(&serde_json::Value::Bool(false)));
    assert_eq!(v.pointer("/result/capabilities/codeLensProvider/resolveProvider"), Some(&serde_json::Value::Bool(true)));
}
