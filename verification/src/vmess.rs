//! Links of the `vmess://` scheme: a JSON object, usually base64-encoded.

use crate::codec::{base64_text, decode_base64_text};
use crate::json::{Json, JsonMap, JsonView};
use crate::outbound::{
    absorb, apply_security, apply_transport, display_name, lemma_outbound_server,
    lemma_same_ending, name_from, outbound, outbound_view, rendering_of, server_port, text_field,
    text_member, tls_settings, tls_template, with_security, with_transport, ws_settings,
    ws_template, LinkError, Rendering,
};
use crate::port::{parse_port_value, port_of, port_of_text, PortError};
use crate::reader::{json_of_text, parse_json};
use crate::text::{chars_of, has_prefix, slice_chars, string_from_chars, without_prefix};
use vstd::prelude::*;

verus! {

/// The prefix that marks a link of this scheme.
pub open spec fn vmess_prefix() -> Seq<char> {
    "vmess://"@
}

/// The fields that the outbound itself reads; they are never passed
/// through into transport settings.
pub open spec fn vmess_reserved() -> Seq<&'static str> {
    seq!["v", "ps", "add", "port", "id", "aid", "net", "type", "tls", "sni"]
}

/// The port of a payload: what its field `port` gives, and 443 without one.
pub open spec fn vmess_port(fields: Map<Seq<char>, JsonView>) -> Result<u16, PortError> {
    if fields.contains_key("port"@) {
        port_of(fields["port"@])
    } else {
        Ok(443u16)
    }
}

/// The user of the outbound: the id, the alter id as the payload has it,
/// and automatic security.
pub open spec fn vmess_user(fields: Map<Seq<char>, JsonView>) -> Map<Seq<char>, JsonView> {
    Map::empty().insert(
        "id"@,
        JsonView::Str(
            match text_member(fields, "id"@) {
                Some(id) => id,
                None => "to fill"@,
            },
        ),
    ).insert(
        "alterId"@,
        if fields.contains_key("aid"@) {
            fields["aid"@]
        } else {
            JsonView::Int(0)
        },
    ).insert("security"@, JsonView::Str("auto"@))
}

/// The stream settings before a payload is applied.
pub open spec fn vmess_stream_template() -> Map<Seq<char>, JsonView> {
    Map::empty().insert("network"@, JsonView::Str("ws"@)).insert(
        "security"@,
        JsonView::Str("tls"@),
    ).insert("wsSettings"@, ws_template(""@)).insert("tlsSettings"@, tls_template())
}

/// The stream settings of the outbound.
pub open spec fn vmess_stream(fields: Map<Seq<char>, JsonView>) -> Map<Seq<char>, JsonView> {
    with_security(
        with_transport(vmess_stream_template(), fields, "net"@, vmess_reserved()),
        fields,
        "tls"@,
        "host"@,
    )
}

/// What the fields of a payload give: the outbound and the display name, or
/// the error of its port.
pub open spec fn vmess_fields_rendering(fields: Map<Seq<char>, JsonView>) -> Rendering {
    match vmess_port(fields) {
        Err(e) => Err(LinkError::Port(e)),
        Ok(port) => Ok(
            (
                outbound_view(
                    "vmess"@,
                    match text_member(fields, "add"@) {
                        Some(a) => a,
                        None => "to fill"@,
                    },
                    port,
                    vmess_user(fields),
                    vmess_stream(fields),
                ),
                display_name(fields, "ps"@),
            ),
        ),
    }
}

/// What a payload gives: what its fields give where it is an object, and
/// `NotObject` for any other document.
pub open spec fn vmess_rendering(doc: JsonView) -> Rendering {
    match doc {
        JsonView::Object(fields) => vmess_fields_rendering(fields),
        _ => Err(LinkError::NotObject),
    }
}

/// The payload text of a link: what follows the prefix, base64-decoded and
/// read as UTF-8 where it is base64, and as it stands where it is not.
pub open spec fn vmess_payload(line: Seq<char>) -> Seq<char> {
    base64_text(without_prefix(line, vmess_prefix()))
}

/// What a link gives: `BadJson` where the payload text is no JSON, and else
/// what the payload gives.
pub open spec fn vmess_link_rendering(line: Seq<char>) -> Rendering {
    match json_of_text(vmess_payload(line)) {
        None => Err(LinkError::BadJson),
        Some(doc) => vmess_rendering(doc),
    }
}

fn reserved_names() -> (names: Vec<&'static str>)
    ensures
        names@ == vmess_reserved(),
{
    let mut names: Vec<&'static str> = Vec::new();
    names.push("v");
    names.push("ps");
    names.push("add");
    names.push("port");
    names.push("id");
    names.push("aid");
    names.push("net");
    names.push("type");
    names.push("tls");
    names.push("sni");
    assert(names@ =~= vmess_reserved());
    names
}

fn stream_template() -> (ss: JsonMap)
    ensures
        ss@ == vmess_stream_template(),
{
    let mut ss = JsonMap::new();
    ss.insert("network", Json::string("ws"));
    ss.insert("security", Json::string("tls"));
    ss.insert("wsSettings", ws_settings(""));
    ss.insert("tlsSettings", tls_settings());
    ss
}

fn user_of(fields: &JsonMap) -> (user: JsonMap)
    ensures
        user@ == vmess_user(fields@),
{
    let mut user = JsonMap::new();
    match text_field(fields, "id") {
        Some(id) => {
            user.insert("id", Json::Str(id.clone()));
        },
        None => {
            user.insert("id", Json::string("to fill"));
        },
    }
    match fields.get("aid") {
        Some(aid) => {
            user.insert("alterId", aid.clone());
        },
        None => {
            user.insert("alterId", Json::PosInt(0));
        },
    }
    user.insert("security", Json::string("auto"));
    user
}

/// Renders the outbound that a decoded payload describes.
///
/// Fails with `NotObject` exactly where the payload is no object, and with
/// the error of the port exactly where it is an object whose field `port`
/// gives no port.
pub fn vmess_from_json(parsed: &Json) -> (got: Result<(Json, String), LinkError>)
    ensures
        rendering_of(got) == vmess_rendering(parsed@),
{
    match parsed {
        Json::Object(fields) => vmess_from_fields(fields),
        _ => Err(LinkError::NotObject),
    }
}

/// Renders the outbound that the fields of a payload describe.
///
/// Fails exactly where there is a field `port` that gives no port.
pub fn vmess_from_fields(fields: &JsonMap) -> (got: Result<(Json, String), LinkError>)
    ensures
        rendering_of(got) == vmess_fields_rendering(fields@),
{
    let port: u16 = match fields.get("port") {
        Some(v) => match parse_port_value(v) {
            Ok(p) => p,
            Err(e) => {
                return Err(LinkError::Port(e));
            },
        },
        None => 443,
    };
    let user = user_of(fields);
    let mut stream = stream_template();
    let reserved = reserved_names();
    apply_transport(&mut stream, fields, "net", &reserved);
    apply_security(&mut stream, fields, "tls", "host");
    let doc = match text_field(fields, "add") {
        Some(a) => outbound("vmess", a.as_str(), port, user, stream),
        None => outbound("vmess", "to fill", port, user, stream),
    };
    let name = name_from(fields, "ps");
    Ok((doc, name))
}

/// The payload text of a link.
pub fn payload_text(s: &str) -> (text: String)
    ensures
        text@ == vmess_payload(s@),
{
    let line = chars_of(s);
    let prefix = chars_of("vmess://");
    let raw: String = if has_prefix(&line, &prefix) {
        let rest = slice_chars(&line, prefix.len(), line.len());
        string_from_chars(&rest)
    } else {
        s.to_owned()
    };
    assert(raw@ == without_prefix(s@, vmess_prefix()));
    decode_base64_text(raw)
}

/// Parses a `vmess://` link into its outbound and its display name.
///
/// Fails with `BadJson` where the payload is no JSON text, with `NotObject`
/// where it is JSON but no object, and otherwise exactly where the port of
/// the payload cannot be used.
pub fn parse_vmess_link(s: &str) -> (got: Result<(Json, String), LinkError>)
    ensures
        rendering_of(got) == vmess_link_rendering(s@),
{
    let text = payload_text(s);
    match parse_json(text.as_str()) {
        Some(parsed) => vmess_from_json(&parsed),
        None => Err(LinkError::BadJson),
    }
}

/// Of all transports but `ws`, only `tls` has settings to pass fields into:
/// there every field that is not reserved goes into the TLS settings. Any
/// other transport changes the network and nothing else.
pub proof fn lemma_vmess_transport(fields: Map<Seq<char>, JsonView>, net: Seq<char>)
    requires
        text_member(fields, "net"@) == Some(net),
        net != "ws"@,
    ensures
        net == "tls"@ ==> with_transport(vmess_stream_template(), fields, "net"@, vmess_reserved())
            == vmess_stream_template().insert("network"@, JsonView::Str(net)).insert(
            "tlsSettings"@,
            JsonView::Object(
                absorb(
                    Map::empty().insert("serverName"@, JsonView::Str(""@)),
                    fields,
                    vmess_reserved(),
                ),
            ),
        ),
        net != "tls"@ ==> with_transport(vmess_stream_template(), fields, "net"@, vmess_reserved())
            == vmess_stream_template().insert("network"@, JsonView::Str(net)),
{
    reveal_strlit("network");
    reveal_strlit("security");
    reveal_strlit("wsSettings");
    reveal_strlit("tlsSettings");
    reveal_strlit("Settings");
    reveal_strlit("ws");
    reveal_strlit("tls");
    let target = net + "Settings"@;
    assert("wsSettings"@ =~= "ws"@ + "Settings"@);
    assert("tlsSettings"@ =~= "tls"@ + "Settings"@);
    if target == "wsSettings"@ {
        lemma_same_ending(net, "ws"@, "Settings"@);
    }
    if target == "tlsSettings"@ {
        lemma_same_ending(net, "tls"@, "Settings"@);
    }
}

/// Whether the payload of a link holds a usable port decides whether the
/// link parses: with a usable port, or without the field, the outbound has
/// that port (443 without the field); with a field that gives no port, the
/// link fails with the error of the port.
pub proof fn lemma_vmess_port_decides(line: Seq<char>, fields: Map<Seq<char>, JsonView>)
    requires
        json_of_text(vmess_payload(line)) == Some(JsonView::Object(fields)),
    ensures
        match vmess_port(fields) {
            Ok(p) => vmess_link_rendering(line) is Ok && server_port(
                vmess_link_rendering(line)->Ok_0.0,
            ) == Some(JsonView::Int(p as int)),
            Err(e) => vmess_link_rendering(line) == Err::<(JsonView, Seq<char>), LinkError>(
                LinkError::Port(e),
            ),
        },
{
    match vmess_port(fields) {
        Ok(p) => {
            lemma_outbound_server(
                "vmess"@,
                match text_member(fields, "add"@) {
                    Some(a) => a,
                    None => "to fill"@,
                },
                p,
                vmess_user(fields),
                vmess_stream(fields),
            );
        },
        Err(_) => {},
    }
}

/// A link whose payload has the integer `p` as its port parses exactly
/// where `p` is in 0..=65535, and the outbound then has the port `p`.
pub proof fn lemma_vmess_numeric_port(line: Seq<char>, fields: Map<Seq<char>, JsonView>, p: int)
    requires
        json_of_text(vmess_payload(line)) == Some(JsonView::Object(fields)),
        fields.contains_key("port"@),
        fields["port"@] == JsonView::Int(p),
    ensures
        0 <= p <= 65535 ==> vmess_link_rendering(line) is Ok && server_port(
            vmess_link_rendering(line)->Ok_0.0,
        ) == Some(JsonView::Int(p)),
        !(0 <= p <= 65535) ==> vmess_link_rendering(line) == Err::<(JsonView, Seq<char>), LinkError>(
            LinkError::Port(PortError::OutOfRange),
        ),
{
    lemma_vmess_port_decides(line, fields);
}

/// A link whose payload has as its port a value that is neither an integer
/// nor a string, or a string that spells no port, fails.
pub proof fn lemma_vmess_other_port(line: Seq<char>, fields: Map<Seq<char>, JsonView>)
    requires
        json_of_text(vmess_payload(line)) == Some(JsonView::Object(fields)),
        fields.contains_key("port"@),
        !(fields["port"@] is Int),
        fields["port"@] matches JsonView::Str(s) ==> port_of_text(s) is None,
    ensures
        vmess_link_rendering(line) is Err,
{
    lemma_vmess_port_decides(line, fields);
}

/// A link whose payload is JSON but no object fails: nothing is made of a
/// number, a string, a list or `null`.
pub proof fn lemma_vmess_needs_object(line: Seq<char>, doc: JsonView)
    requires
        json_of_text(vmess_payload(line)) == Some(doc),
        !(doc is Object),
    ensures
        vmess_link_rendering(line) == Err::<(JsonView, Seq<char>), LinkError>(LinkError::NotObject),
{
}

} // verus!
