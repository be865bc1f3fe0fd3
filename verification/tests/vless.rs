use xray_sub::json::Json;
use xray_sub::outbound::LinkError;
use xray_sub::vless::{
    decoded_text, parse_query, parse_vless_link, split_link, vless_from_parts, vless_from_text,
    LinkParts,
};

fn to_value(doc: &Json) -> serde_json::Value {
    match doc {
        Json::Null => serde_json::Value::Null,
        Json::Bool(b) => serde_json::Value::Bool(*b),
        Json::PosInt(n) => serde_json::Value::from(*n),
        Json::NegInt(n) => serde_json::Value::from(*n),
        Json::Float(t) => serde_json::Value::Number(t.parse().unwrap()),
        Json::Str(s) => serde_json::Value::String(s.clone()),
        Json::Array(items) => serde_json::Value::Array(items.iter().map(to_value).collect()),
        Json::Object(m) => {
            let mut out = serde_json::Map::new();
            for i in 0..m.len() {
                let (k, v) = m.entry(i);
                out.insert(k.clone(), to_value(v));
            }
            serde_json::Value::Object(out)
        }
    }
}

fn value(text: &str) -> serde_json::Value {
    serde_json::from_str(text).unwrap()
}

fn chars(s: &str) -> Vec<char> {
    s.chars().collect()
}

fn text(v: &Vec<char>) -> String {
    v.iter().collect()
}

fn split(s: &str) -> Option<(String, String, String, String)> {
    split_link(&chars(s)).map(|p| (text(&p.id), text(&p.address), text(&p.port), text(&p.query)))
}

fn by_pattern(s: &str) -> Option<(String, String, String, String)> {
    let re = regex::Regex::new(r"(?P<id>.*?)@(?P<add>.*?):(?P<port>[0-9]+)\?(?P<params>.*)").unwrap();
    re.captures(s).map(|c| {
        (
            c.name("id").unwrap().as_str().to_string(),
            c.name("add").unwrap().as_str().to_string(),
            c.name("port").unwrap().as_str().to_string(),
            c.name("params").unwrap().as_str().to_string(),
        )
    })
}

fn query(s: &str) -> serde_json::Value {
    to_value(&Json::Object(parse_query(&chars(s))))
}

#[test]
fn link_with_web_socket_and_tls() {
    let line = "vless://uid@1.2.3.4:443?type=ws&path=%2Fp&host=h.example&security=tls&sni=h.example";
    let (doc, name) = parse_vless_link(line).unwrap();
    let doc = to_value(&doc);
    assert_eq!(name, "unnamed");
    assert_eq!(doc["settings"]["vnext"][0]["address"], "1.2.3.4");
    assert_eq!(doc["settings"]["vnext"][0]["port"], 443);
    assert_eq!(doc["settings"]["vnext"][0]["users"][0]["id"], "uid");
    assert_eq!(doc["streamSettings"]["network"], "ws");
    assert_eq!(doc["streamSettings"]["wsSettings"]["path"], "/p");
    assert_eq!(doc["streamSettings"]["wsSettings"]["headers"]["Host"], "h.example");
    assert_eq!(doc["streamSettings"]["security"], "tls");
    assert_eq!(doc["streamSettings"]["tlsSettings"]["serverName"], "h.example");
    assert_eq!(
        doc,
        value(
            r#"{
            "protocol": "vless",
            "settings": {"vnext": [{"address": "1.2.3.4", "port": 443,
                "users": [{"id": "uid", "encryption": "none", "level": 0}]}]},
            "tag": "proxy",
            "streamSettings": {"network": "ws", "security": "tls",
                "wsSettings": {"path": "/p", "headers": {"Host": "h.example"}},
                "tcpSettings": {}, "kcpSettings": {}, "httpSettings": {}, "dsSettings": {},
                "quicSettings": {},
                "tlsSettings": {"serverName": "h.example"}}
        }"#
        )
    );
}

#[test]
fn transport_with_settings_takes_the_unknown_parameters() {
    let line = "vless://me@host.example:8443?encryption=aes&type=tcp&headerType=http%21&foo=bar&security=none&id=x&port=9&add=z";
    let (doc, name) = parse_vless_link(line).unwrap();
    let doc = to_value(&doc);
    assert_eq!(name, "http");
    assert_eq!(
        doc,
        value(
            r#"{
            "protocol": "vless",
            "settings": {"vnext": [{"address": "host.example", "port": 8443,
                "users": [{"id": "me", "encryption": "aes", "level": 0}]}]},
            "tag": "proxy",
            "streamSettings": {"network": "tcp", "security": "none",
                "wsSettings": {"path": "to fill", "headers": {"Host": ""}},
                "tcpSettings": {"headerType": "http!", "foo": "bar"},
                "kcpSettings": {}, "httpSettings": {}, "dsSettings": {}, "quicSettings": {},
                "tlsSettings": {"serverName": ""}}
        }"#
        )
    );
}

#[test]
fn each_transport_with_settings_is_filled() {
    for t in ["tcp", "kcp", "http", "ds", "quic"] {
        let (doc, _) = parse_vless_link(&format!("vless://i@a:1?type={}&seed=s", t)).unwrap();
        let doc = to_value(&doc);
        assert_eq!(doc["streamSettings"]["network"], t);
        assert_eq!(doc["streamSettings"][format!("{}Settings", t)], value(r#"{"seed":"s"}"#));
    }
}

#[test]
fn transport_named_tls_fills_the_tls_settings() {
    let (doc, _) = parse_vless_link("vless://i@a:1?type=tls&sni=n&security=tls&alpn=h2").unwrap();
    let doc = to_value(&doc);
    assert_eq!(
        doc["streamSettings"]["tlsSettings"],
        value(r#"{"serverName": "n", "sni": "n", "alpn": "h2"}"#)
    );
}

#[test]
fn transport_without_settings_copies_nothing() {
    let (doc, _) = parse_vless_link("vless://i@a:1?type=grpc&serviceName=s").unwrap();
    let doc = to_value(&doc);
    assert_eq!(doc["streamSettings"]["network"], "grpc");
    assert!(doc["streamSettings"].get("grpcSettings").is_none());
    assert_eq!(doc["streamSettings"]["tcpSettings"], value("{}"));
}

#[test]
fn web_socket_without_path_keeps_the_default() {
    let (doc, _) = parse_vless_link("vless://i@a:1?type=ws").unwrap();
    let doc = to_value(&doc);
    assert_eq!(doc["streamSettings"]["wsSettings"], value(r#"{"path":"to fill","headers":{"Host":""}}"#));
}

#[test]
fn empty_query_leaves_the_defaults() {
    let (doc, name) = parse_vless_link("vless://i@a:0?").unwrap();
    let doc = to_value(&doc);
    assert_eq!(name, "unnamed");
    assert_eq!(doc["settings"]["vnext"][0]["port"], 0);
    assert_eq!(doc["streamSettings"]["network"], "ws");
    assert_eq!(doc["streamSettings"]["security"], "tls");
    assert_eq!(doc["settings"]["vnext"][0]["users"][0]["encryption"], "none");
}

#[test]
fn display_name_comes_from_the_header_type() {
    let (_, name) = parse_vless_link("vless://i@a:1?headerType=My%20Node%21%21&type=ws").unwrap();
    assert_eq!(name, "My Node");
}

#[test]
fn text_that_does_not_fit_fails() {
    for line in [
        "vless://",
        "vless://nothing here",
        "vless://id@host:443",
        "vless://id@host:?q",
        "vless://id@host:44a?q",
        "vless://idhost:443?q",
        "vless://id:443?q@",
    ] {
        assert_eq!(parse_vless_link(line).err(), Some(LinkError::NoMatch));
    }
    assert_eq!(LinkError::NoMatch.message(), "invalid vless string");
}

#[test]
fn port_above_the_range_fails() {
    for line in ["vless://i@a:65536?x=1", "vless://i@a:99999999999999999999999?x=1"] {
        assert_eq!(parse_vless_link(line).err(), Some(LinkError::PortTooLarge));
    }
    assert!(parse_vless_link("vless://i@a:65535?x=1").is_ok());
    assert!(parse_vless_link("vless://i@a:0000000000000000000080?x=1").is_ok());
    assert_eq!(LinkError::PortTooLarge.message(), "invalid vless port");
}

#[test]
fn decoding_replaces_escapes_and_bad_bytes() {
    assert_eq!(decoded_text("vless://a%40b%3a1%3F"), "a@b:1?");
    assert_eq!(decoded_text("vless://100%"), "100%");
    assert_eq!(decoded_text("vless://%zz%4"), "%zz%4");
    assert_eq!(decoded_text("vless://%E2%82%AC"), "€");
    assert_eq!(decoded_text("vless://%FFx"), "\u{fffd}x");
    assert_eq!(decoded_text("no prefix %41"), "no prefix A");
    assert_eq!(decoded_text("vless://vless://x"), "vless://x");
}

#[test]
fn escaped_delimiters_count_after_decoding() {
    let (doc, _) = parse_vless_link("vless://u%40a%3A5%3Ftype=tcp%26k=v").unwrap();
    let doc = to_value(&doc);
    assert_eq!(doc["settings"]["vnext"][0]["address"], "a");
    assert_eq!(doc["settings"]["vnext"][0]["port"], 5);
    assert_eq!(doc["streamSettings"]["tcpSettings"], value(r#"{"k":"v"}"#));
}

#[test]
fn split_takes_the_earliest_at_sign_and_colon() {
    assert_eq!(
        split("a@b@c:1:22?x"),
        Some(("a".into(), "b@c:1".into(), "22".into(), "x".into()))
    );
    assert_eq!(
        split("u@[::1]:443?q=1"),
        Some(("u".into(), "[::1]".into(), "443".into(), "q=1".into()))
    );
    assert_eq!(split("@:1?"), Some(("".into(), "".into(), "1".into(), "".into())));
}

#[test]
fn split_stays_within_one_line() {
    assert_eq!(
        split("junk\nid@host:1?q=v\nmore@x:2?y"),
        Some(("id".into(), "host".into(), "1".into(), "q=v".into()))
    );
    assert_eq!(split("a@\nb:1?q"), None);
    assert_eq!(
        split("a@\nb@c:1?q\n"),
        Some(("b".into(), "c".into(), "1".into(), "q".into()))
    );
}

#[test]
fn split_agrees_with_the_pattern() {
    let samples = [
        "uid@1.2.3.4:443?type=ws",
        "a@b@c:1:22?x",
        "x\ny@h:1?q\nz",
        ":@:@:1?",
        "a@b:c:12?d=e",
        "a@b:12x?:34?z",
        "no match",
        "@:1?",
        "a@\nb:1?q",
        "é@ü:1?ñ=ö",
        "a@b:1?q\nrest",
        "first@x:1\nsecond@y:2?q",
        "a@b:?c@d:5?e",
        "a@b:1?",
        "@@@:::1?2?3",
        "a@b:１?x",
        "a:1?@b:2?c",
        "\n\n@:0?\n",
        "id@host:0443?a=b&c",
        "",
        "@",
        "a@b:1",
        "a@b:1?x@y:2?z",
        "a\r@b\r:1?c\r",
        "p@q:1\n?x",
    ];
    for s in samples {
        assert_eq!(split(s), by_pattern(s), "on {:?}", s);
    }
}

#[test]
fn query_pieces_split_at_the_first_equals_sign() {
    assert_eq!(query("a=1&b=2"), value(r#"{"a":"1","b":"2"}"#));
    assert_eq!(query("a=b=c"), value(r#"{"a":"b=c"}"#));
    assert_eq!(query("a="), value(r#"{"a":""}"#));
    assert_eq!(query("=v"), value(r#"{"":"v"}"#));
}

#[test]
fn query_pieces_without_equals_sign_are_skipped() {
    assert_eq!(query(""), value("{}"));
    assert_eq!(query("flag"), value("{}"));
    assert_eq!(query("&&a=1&&flag&"), value(r#"{"a":"1"}"#));
}

#[test]
fn the_last_of_equal_keys_wins() {
    assert_eq!(query("k=1&x=y&k=2"), value(r#"{"k":"2","x":"y"}"#));
    let (doc, _) = parse_vless_link("vless://i@a:1?type=ws&type=tcp&z=1").unwrap();
    assert_eq!(to_value(&doc)["streamSettings"]["network"], "tcp");
}

#[test]
fn rendering_from_parts() {
    let parts = LinkParts {
        id: chars("me"),
        address: chars("h"),
        port: chars("+12"),
        query: chars("security=tls&sni=s"),
    };
    let (doc, name) = vless_from_parts(&parts).unwrap();
    let doc = to_value(&doc);
    assert_eq!(name, "unnamed");
    assert_eq!(doc["settings"]["vnext"][0]["port"], 12);
    assert_eq!(doc["streamSettings"]["tlsSettings"]["serverName"], "s");
    let bad = LinkParts { id: chars(""), address: chars(""), port: chars("x"), query: chars("") };
    assert_eq!(vless_from_parts(&bad).err(), Some(LinkError::PortTooLarge));
}

#[test]
fn rendering_from_decoded_text() {
    let (doc, _) = vless_from_text("lead\nme@h:7?type=kcp&seed=1").unwrap();
    let doc = to_value(&doc);
    assert_eq!(doc["settings"]["vnext"][0]["users"][0]["id"], "me");
    assert_eq!(doc["streamSettings"]["kcpSettings"], value(r#"{"seed":"1"}"#));
    assert_eq!(vless_from_text("me@h:x?").err(), Some(LinkError::NoMatch));
}
