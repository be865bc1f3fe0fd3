use base64::Engine;
use xray_sub::json::{Json, JsonMap};
use xray_sub::outbound::LinkError;
use xray_sub::port::PortError;
use xray_sub::reader::parse_json;
use xray_sub::vmess::{parse_vmess_link, payload_text, vmess_from_fields, vmess_from_json};

fn to_value(doc: &Json) -> serde_json::Value {
    match doc {
        Json::Null => serde_json::Value::Null,
        Json::Bool(b) => serde_json::Value::Bool(*b),
        Json::PosInt(n) => serde_json::Value::from(*n),
        Json::NegInt(n) => serde_json::Value::from(*n),
        Json::Float(t) => serde_json::Value::Number(t.parse().unwrap()),
        Json::Str(s) => serde_json::Value::String(s.clone()),
        Json::Array(items) => serde_json::Value::Array(items.iter().map(to_value).collect()),
        Json::Object(m) => {
            let mut out = serde_json::Map::new();
            for i in 0..m.len() {
                let (k, v) = m.entry(i);
                out.insert(k.clone(), to_value(v));
            }
            serde_json::Value::Object(out)
        }
    }
}

fn value(text: &str) -> serde_json::Value {
    serde_json::from_str(text).unwrap()
}

fn link(payload: &str) -> String {
    format!("vmess://{}", base64::engine::general_purpose::STANDARD.encode(payload))
}

fn rendered(payload: &str) -> (serde_json::Value, String) {
    let (doc, name) = parse_vmess_link(&link(payload)).unwrap();
    (to_value(&doc), name)
}

const UNTOUCHED: &str = r#"{
    "protocol": "vmess",
    "settings": {"vnext": [{"address": "to fill", "port": 443,
        "users": [{"id": "to fill", "alterId": 0, "security": "auto"}]}]},
    "tag": "proxy",
    "streamSettings": {"network": "ws", "security": "tls",
        "wsSettings": {"path": "", "headers": {"Host": ""}},
        "tlsSettings": {"serverName": ""}}
}"#;

#[test]
fn encoded_payload_with_tcp_and_a_label() {
    let line = "vmess://eyJhZGQiOiIxLjIuMy40IiwicG9ydCI6IjgwODAiLCJpZCI6InUxIiwibmV0IjoidGNwIiwicHMiOiJNeSBOb2RlISJ9";
    let (doc, name) = parse_vmess_link(line).unwrap();
    assert_eq!(name, "My Node");
    let doc = to_value(&doc);
    assert_eq!(doc["settings"]["vnext"][0]["address"], "1.2.3.4");
    assert_eq!(doc["settings"]["vnext"][0]["port"], 8080);
    assert_eq!(
        doc,
        value(
            r#"{
            "protocol": "vmess",
            "settings": {"vnext": [{"address": "1.2.3.4", "port": 8080,
                "users": [{"id": "u1", "alterId": 0, "security": "auto"}]}]},
            "tag": "proxy",
            "streamSettings": {"network": "tcp", "security": "tls",
                "wsSettings": {"path": "", "headers": {"Host": ""}},
                "tlsSettings": {"serverName": ""}}
        }"#
        )
    );
}

#[test]
fn payload_that_is_no_base64_is_read_as_it_stands() {
    let (doc, name) = parse_vmess_link(r#"vmess://{"add":"h.example","port":1,"ps":"plain"}"#).unwrap();
    assert_eq!(name, "plain");
    assert_eq!(to_value(&doc)["settings"]["vnext"][0]["address"], "h.example");
}

#[test]
fn line_without_the_prefix_is_read_whole() {
    let encoded = base64::engine::general_purpose::STANDARD.encode(r#"{"add":"x"}"#);
    let (doc, _) = parse_vmess_link(&encoded).unwrap();
    assert_eq!(to_value(&doc)["settings"]["vnext"][0]["address"], "x");
}

#[test]
fn payload_text_decodes_base64_and_keeps_the_rest() {
    assert_eq!(payload_text("vmess://eyJhIjoxfQ=="), r#"{"a":1}"#);
    assert_eq!(payload_text("vmess://not base64!"), "not base64!");
    assert_eq!(payload_text("vmess://"), "");
    assert_eq!(payload_text("vmess://vmess://eyJhIjoxfQ=="), "vmess://eyJhIjoxfQ==");
    assert_eq!(payload_text("vmess://gGE="), "\u{fffd}a");
}

#[test]
fn web_socket_fields_fill_the_web_socket_settings() {
    let (doc, name) = rendered(
        r#"{"v":"2","ps":"ws node","add":"a.example","port":443,"id":"uuid","aid":"64",
            "net":"ws","type":"none","host":"h.example","path":"/ray","tls":"tls"}"#,
    );
    assert_eq!(name, "ws node");
    assert_eq!(
        doc,
        value(
            r#"{
            "protocol": "vmess",
            "settings": {"vnext": [{"address": "a.example", "port": 443,
                "users": [{"id": "uuid", "alterId": "64", "security": "auto"}]}]},
            "tag": "proxy",
            "streamSettings": {"network": "ws", "security": "tls",
                "wsSettings": {"path": "/ray", "headers": {"Host": "h.example"}},
                "tlsSettings": {"serverName": "h.example"}}
        }"#
        )
    );
}

#[test]
fn security_other_than_tls_leaves_the_server_name() {
    let (doc, _) = rendered(r#"{"net":"ws","host":"h.example","tls":"none"}"#);
    assert_eq!(doc["streamSettings"]["security"], "none");
    assert_eq!(doc["streamSettings"]["tlsSettings"]["serverName"], "");
    assert_eq!(doc["streamSettings"]["wsSettings"]["headers"]["Host"], "h.example");
    assert_eq!(doc["streamSettings"]["wsSettings"]["path"], "");
}

#[test]
fn transport_without_matching_settings_copies_nothing() {
    let (doc, _) = rendered(r#"{"net":"kcp","host":"h","seed":"s","port":"1"}"#);
    assert_eq!(
        doc["streamSettings"],
        value(
            r#"{"network": "kcp", "security": "tls",
                "wsSettings": {"path": "", "headers": {"Host": ""}},
                "tlsSettings": {"serverName": ""}}"#
        )
    );
}

#[test]
fn transport_named_tls_passes_unknown_fields_into_the_tls_settings() {
    let (doc, _) = rendered(
        r#"{"v":"2","ps":"n","add":"a","port":1,"id":"i","aid":2,"net":"tls","type":"t",
            "tls":"tls","sni":"s","host":"x.y","path":"/q","extra":[1,{"k":null}],"serverName":7}"#,
    );
    assert_eq!(
        doc["streamSettings"],
        value(
            r#"{"network": "tls", "security": "tls",
                "wsSettings": {"path": "", "headers": {"Host": ""}},
                "tlsSettings": {"serverName": "x.y", "host": "x.y", "path": "/q",
                    "extra": [1, {"k": null}]}}"#
        )
    );
    assert_eq!(doc["settings"]["vnext"][0]["users"][0]["alterId"], 2);
}

#[test]
fn fields_of_the_wrong_kind_are_left_at_their_defaults() {
    let (doc, name) = rendered(r#"{"add":1,"id":[],"net":true,"tls":{},"ps":3,"aid":null}"#);
    assert_eq!(name, "unnamed");
    let mut expected = value(UNTOUCHED);
    expected["settings"]["vnext"][0]["users"][0]["alterId"] = serde_json::Value::Null;
    assert_eq!(doc, expected);
}

#[test]
fn payload_that_is_no_object_fails() {
    for payload in ["[1,2]", "12", "\"x\"", "null", "true", "1.5", "[]", "[{\"add\":\"a\"}]"] {
        assert_eq!(parse_vmess_link(&link(payload)).err(), Some(LinkError::NotObject));
        if base64::engine::general_purpose::STANDARD.decode(payload).is_err() {
            let plain = format!("vmess://{}", payload);
            assert_eq!(parse_vmess_link(&plain).err(), Some(LinkError::NotObject));
        }
        let parsed = parse_json(payload).unwrap();
        assert_eq!(vmess_from_json(&parsed).err(), Some(LinkError::NotObject));
    }
    assert_eq!(LinkError::NotObject.message(), "vmess JSON is not an object");
}

#[test]
fn empty_object_gives_the_template() {
    let (doc, name) = rendered("{}");
    assert_eq!(doc, value(UNTOUCHED));
    assert_eq!(name, "unnamed");
}

#[test]
fn rendering_from_fields() {
    let mut fields = JsonMap::new();
    fields.insert("add", Json::string("h.example"));
    fields.insert("port", Json::PosInt(8443));
    fields.insert("ps", Json::string("by hand"));
    let (doc, name) = vmess_from_fields(&fields).unwrap();
    let doc = to_value(&doc);
    assert_eq!(name, "by hand");
    assert_eq!(doc["settings"]["vnext"][0]["address"], "h.example");
    assert_eq!(doc["settings"]["vnext"][0]["port"], 8443);
    fields.insert("port", Json::Bool(false));
    assert_eq!(
        vmess_from_fields(&fields).err(),
        Some(LinkError::Port(PortError::Unsupported))
    );
}

#[test]
fn every_numeric_port_in_range_comes_out() {
    for p in [0u32, 1, 80, 443, 8080, 65534, 65535] {
        let (doc, _) = rendered(&format!(r#"{{"port":{}}}"#, p));
        assert_eq!(doc["settings"]["vnext"][0]["port"], p);
    }
}

#[test]
fn ports_out_of_range_fail() {
    for p in ["65536", "70000", "-1", "18446744073709551615"] {
        let got = parse_vmess_link(&link(&format!(r#"{{"port":{}}}"#, p)));
        assert_eq!(got.err(), Some(LinkError::Port(PortError::OutOfRange)));
    }
}

#[test]
fn ports_that_are_no_numbers_fail() {
    let got = parse_vmess_link(&link(r#"{"port":"http"}"#));
    assert_eq!(got.err(), Some(LinkError::Port(PortError::InvalidString)));
    let got = parse_vmess_link(&link(r#"{"port":"65536"}"#));
    assert_eq!(got.err(), Some(LinkError::Port(PortError::InvalidString)));
    for p in ["443.0", "true", "null", "[443]", "{}"] {
        let got = parse_vmess_link(&link(&format!(r#"{{"port":{}}}"#, p)));
        assert_eq!(got.err(), Some(LinkError::Port(PortError::Unsupported)));
    }
}

#[test]
fn payload_that_is_no_json_fails() {
    assert_eq!(parse_vmess_link("vmess://").err(), Some(LinkError::BadJson));
    assert_eq!(parse_vmess_link("vmess://{oops").err(), Some(LinkError::BadJson));
    assert_eq!(parse_vmess_link(&link("not json")).err(), Some(LinkError::BadJson));
    assert_eq!(LinkError::BadJson.message(), "failed to parse vmess JSON");
    assert_eq!(LinkError::Port(PortError::OutOfRange).message(), "port out of range");
}

#[test]
fn rendering_from_a_document_built_by_hand() {
    let parsed = parse_json(r#"{"add":"9.9.9.9","port":"+53","id":"me","ps":"  dns  "}"#).unwrap();
    let (doc, name) = vmess_from_json(&parsed).unwrap();
    let doc = to_value(&doc);
    assert_eq!(name, "dns");
    assert_eq!(doc["settings"]["vnext"][0]["address"], "9.9.9.9");
    assert_eq!(doc["settings"]["vnext"][0]["port"], 53);
    assert_eq!(doc["settings"]["vnext"][0]["users"][0]["id"], "me");
    assert_eq!(doc["protocol"], "vmess");
    assert_eq!(doc["tag"], "proxy");
}
