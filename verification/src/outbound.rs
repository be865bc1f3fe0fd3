//! What the two link schemes share: reading text fields, passing unknown
//! fields through, the stream settings, and the shape of an outbound.

use crate::json::{items_view, lemma_map_of_push, map_of, member, Json, JsonMap, JsonView};
use crate::name::{remove_unknown_chars, sanitized};
use crate::port::PortError;
use crate::text::str_eq;
use vstd::prelude::*;
use vstd::string::StringExecFns;

verus! {

/// Why a link gives no outbound.
#[derive(Debug, Clone, Copy, PartialEq, Eq, Structural)]
pub enum LinkError {
    /// The payload is no JSON text.
    BadJson,
    /// The payload is JSON, but no object.
    NotObject,
    /// The payload has a port that cannot be used.
    Port(PortError),
    /// The text is not of the form `id@address:port?query`.
    NoMatch,
    /// The digits of the port spell a number above 65535.
    PortTooLarge,
}

impl LinkError {
    /// What the error says.
    pub open spec fn text(self) -> Seq<char> {
        match self {
            LinkError::BadJson => "failed to parse vmess JSON"@,
            LinkError::NotObject => "vmess JSON is not an object"@,
            LinkError::Port(e) => e.text(),
            LinkError::NoMatch => "invalid vless string"@,
            LinkError::PortTooLarge => "invalid vless port"@,
        }
    }

    /// What the error says.
    pub fn message(&self) -> (m: &'static str)
        ensures
            m@ == self.text(),
    {
        match self {
            LinkError::BadJson => "failed to parse vmess JSON",
            LinkError::NotObject => "vmess JSON is not an object",
            LinkError::Port(e) => e.message(),
            LinkError::NoMatch => "invalid vless string",
            LinkError::PortTooLarge => "invalid vless port",
        }
    }
}

/// What parsing a link gives, in views.
pub type Rendering = Result<(JsonView, Seq<char>), LinkError>;

/// What a result of parsing gives, in views.
pub open spec fn rendering_of(got: Result<(Json, String), LinkError>) -> Rendering {
    match got {
        Ok(pair) => Ok((pair.0@, pair.1@)),
        Err(e) => Err(e),
    }
}

/// The text of the member `key`, where there is such a member and it is a
/// string.
pub open spec fn text_member(fields: Map<Seq<char>, JsonView>, key: Seq<char>) -> Option<
    Seq<char>,
> {
    if fields.contains_key(key) && fields[key] is Str {
        Some(fields[key]->Str_0)
    } else {
        None
    }
}

/// The text of the member `key`, where there is such a member and it is a
/// string.
pub fn text_field<'a>(fields: &'a JsonMap, key: &str) -> (text: Option<&'a String>)
    ensures
        match text {
            Some(t) => text_member(fields@, key@) == Some(t@),
            None => text_member(fields@, key@) is None,
        },
{
    match fields.get(key) {
        Some(v) => v.as_str(),
        None => None,
    }
}

/// Whether `key` is one of `names`.
pub open spec fn is_listed(names: Seq<&'static str>, key: Seq<char>) -> bool {
    exists|i: int| 0 <= i < names.len() && (#[trigger] names[i])@ == key
}

/// Whether `key` is one of `names`.
pub fn listed(names: &Vec<&'static str>, key: &str) -> (yes: bool)
    ensures
        yes == is_listed(names@, key@),
{
    let mut i: usize = 0;
    while i < names.len()
        invariant
            i <= names@.len(),
            forall|j: int| 0 <= j < i ==> (#[trigger] names@[j])@ != key@,
        decreases names@.len() - i,
    {
        if str_eq(names[i], key) {
            return true;
        }
        i += 1;
    }
    false
}

/// `base` with every member of `extra` whose key is not reserved put into
/// it, replacing what `base` had under that key.
pub open spec fn absorb(
    base: Map<Seq<char>, JsonView>,
    extra: Map<Seq<char>, JsonView>,
    reserved: Seq<&'static str>,
) -> Map<Seq<char>, JsonView> {
    Map::new(
        |k: Seq<char>| base.contains_key(k) || (extra.contains_key(k) && !is_listed(reserved, k)),
        |k: Seq<char>|
            if extra.contains_key(k) && !is_listed(reserved, k) {
                extra[k]
            } else {
                base[k]
            },
    )
}

/// Puts into `base` a copy of every member of `extra` whose key is not
/// reserved.
pub fn absorb_members(base: &mut JsonMap, extra: &JsonMap, reserved: &Vec<&'static str>)
    ensures
        final(base)@ == absorb(old(base)@, extra@, reserved@),
{
    let n = extra.len();
    let mut i: usize = 0;
    proof {
        assert(extra.members().take(0) =~= Seq::empty());
        assert(base@ =~= absorb(old(base)@, map_of(extra.members().take(0)), reserved@));
    }
    while i < n
        invariant
            i <= n,
            n == extra.members().len(),
            base@ == absorb(old(base)@, map_of(extra.members().take(i as int)), reserved@),
        decreases n - i,
    {
        let (key, value) = extra.entry(i);
        let ghost seen = extra.members().take(i as int);
        proof {
            assert(extra.members().take(i + 1) =~= seen.push(extra.members()[i as int]));
            lemma_map_of_push(seen, key@, value@);
        }
        if !listed(reserved, key.as_str()) {
            base.insert(key.as_str(), value.clone());
            assert(base@ =~= absorb(
                old(base)@,
                map_of(extra.members().take(i + 1)),
                reserved@,
            ));
        } else {
            assert(base@ =~= absorb(
                old(base)@,
                map_of(extra.members().take(i + 1)),
                reserved@,
            ));
        }
        i += 1;
    }
    assert(extra.members().take(n as int) =~= extra.members());
}

/// `m` with `value` put under `inner` in the object that `m` has under
/// `outer`; `m` itself where it has no object there.
pub open spec fn with_nested(
    m: Map<Seq<char>, JsonView>,
    outer: Seq<char>,
    inner: Seq<char>,
    value: JsonView,
) -> Map<Seq<char>, JsonView> {
    if m.contains_key(outer) && m[outer] is Object {
        m.insert(outer, JsonView::Object(m[outer]->Object_0.insert(inner, value)))
    } else {
        m
    }
}

/// A copy of the object that `m` has under `key`, if it has one.
fn object_at(m: &JsonMap, key: &str) -> (found: Option<JsonMap>)
    ensures
        match found {
            Some(o) => m@.contains_key(key@) && m@[key@] == JsonView::Object(o@),
            None => !(m@.contains_key(key@) && m@[key@] is Object),
        },
{
    match m.get(key) {
        Some(Json::Object(o)) => Some(o.clone()),
        _ => None,
    }
}

/// Puts `value` under `inner` in the object that `m` has under `outer`.
pub fn set_nested(m: &mut JsonMap, outer: &str, inner: &str, value: Json)
    ensures
        final(m)@ == with_nested(old(m)@, outer@, inner@, value@),
{
    match object_at(m, outer) {
        Some(mut o) => {
            o.insert(inner, value);
            m.insert(outer, Json::Object(o));
        },
        None => {},
    }
}

/// Stream settings with the WebSocket path and host header put in.
pub open spec fn with_ws(
    ss: Map<Seq<char>, JsonView>,
    path: Option<Seq<char>>,
    host: Option<Seq<char>>,
) -> Map<Seq<char>, JsonView> {
    if ss.contains_key("wsSettings"@) && ss["wsSettings"@] is Object {
        let ws = ss["wsSettings"@]->Object_0;
        let with_path = match path {
            Some(p) => ws.insert("path"@, JsonView::Str(p)),
            None => ws,
        };
        let with_host = match host {
            Some(h) => with_nested(with_path, "headers"@, "Host"@, JsonView::Str(h)),
            None => with_path,
        };
        ss.insert("wsSettings"@, JsonView::Object(with_host))
    } else {
        ss
    }
}

/// Stream settings after the transport named by the field `key` is applied.
///
/// Without such a field nothing changes. Otherwise it becomes the network.
/// For `ws` the fields `path` and `host` go into the WebSocket settings. For
/// any other transport, every field that is not reserved goes into the
/// sub-object `<transport>Settings`, where the settings have such an object.
pub open spec fn with_transport(
    ss: Map<Seq<char>, JsonView>,
    fields: Map<Seq<char>, JsonView>,
    key: Seq<char>,
    reserved: Seq<&'static str>,
) -> Map<Seq<char>, JsonView> {
    match text_member(fields, key) {
        None => ss,
        Some(net) => {
            let named = ss.insert("network"@, JsonView::Str(net));
            if net == "ws"@ {
                with_ws(named, text_member(fields, "path"@), text_member(fields, "host"@))
            } else {
                let target = net + "Settings"@;
                if named.contains_key(target) && named[target] is Object {
                    named.insert(
                        target,
                        JsonView::Object(absorb(named[target]->Object_0, fields, reserved)),
                    )
                } else {
                    named
                }
            }
        },
    }
}

/// Two texts that are equal once the same ending is put behind them are
/// equal.
pub proof fn lemma_same_ending(a: Seq<char>, b: Seq<char>, ending: Seq<char>)
    requires
        a + ending == b + ending,
    ensures
        a == b,
{
    assert(a.len() == b.len()) by {
        assert((a + ending).len() == a.len() + ending.len());
        assert((b + ending).len() == b.len() + ending.len());
    }
    assert forall|i: int| 0 <= i < a.len() implies a[i] == b[i] by {
        assert((a + ending)[i] == a[i]);
        assert((b + ending)[i] == b[i]);
    }
    assert(a =~= b);
}

/// Applies the transport named by the field `key` to the stream settings.
pub fn apply_transport(
    ss: &mut JsonMap,
    fields: &JsonMap,
    key: &str,
    reserved: &Vec<&'static str>,
)
    ensures
        final(ss)@ == with_transport(old(ss)@, fields@, key@, reserved@),
{
    match text_field(fields, key) {
        None => {},
        Some(net) => {
            ss.insert("network", Json::Str(net.clone()));
            if str_eq(net.as_str(), "ws") {
                match object_at(ss, "wsSettings") {
                    Some(mut ws) => {
                        match text_field(fields, "path") {
                            Some(p) => {
                                ws.insert("path", Json::Str(p.clone()));
                            },
                            None => {},
                        }
                        match text_field(fields, "host") {
                            Some(h) => {
                                set_nested(&mut ws, "headers", "Host", Json::Str(h.clone()));
                            },
                            None => {},
                        }
                        ss.insert("wsSettings", Json::Object(ws));
                    },
                    None => {},
                }
            } else {
                let mut target = net.clone();
                target.append("Settings");
                match object_at(ss, target.as_str()) {
                    Some(mut sub) => {
                        absorb_members(&mut sub, fields, reserved);
                        ss.insert(target.as_str(), Json::Object(sub));
                    },
                    None => {},
                }
            }
        },
    }
}

/// Stream settings after the security mode named by the field `key` is
/// applied: it becomes the security, and for `tls` the field `name_key`
/// becomes the TLS server name.
pub open spec fn with_security(
    ss: Map<Seq<char>, JsonView>,
    fields: Map<Seq<char>, JsonView>,
    key: Seq<char>,
    name_key: Seq<char>,
) -> Map<Seq<char>, JsonView> {
    match text_member(fields, key) {
        None => ss,
        Some(mode) => {
            let secured = ss.insert("security"@, JsonView::Str(mode));
            if mode == "tls"@ {
                match text_member(fields, name_key) {
                    Some(n) => with_nested(
                        secured,
                        "tlsSettings"@,
                        "serverName"@,
                        JsonView::Str(n),
                    ),
                    None => secured,
                }
            } else {
                secured
            }
        },
    }
}

/// Applies the security mode named by the field `key` to the stream
/// settings.
pub fn apply_security(ss: &mut JsonMap, fields: &JsonMap, key: &str, name_key: &str)
    ensures
        final(ss)@ == with_security(old(ss)@, fields@, key@, name_key@),
{
    match text_field(fields, key) {
        None => {},
        Some(mode) => {
            ss.insert("security", Json::Str(mode.clone()));
            if str_eq(mode.as_str(), "tls") {
                match text_field(fields, name_key) {
                    Some(n) => {
                        set_nested(ss, "tlsSettings", "serverName", Json::Str(n.clone()));
                    },
                    None => {},
                }
            }
        },
    }
}

/// The display name that the field `key` gives: its text sanitized, or
/// `unnamed` without such a text.
pub open spec fn display_name(fields: Map<Seq<char>, JsonView>, key: Seq<char>) -> Seq<char> {
    match text_member(fields, key) {
        Some(label) => sanitized(label),
        None => "unnamed"@,
    }
}

/// The display name that the field `key` gives.
pub fn name_from(fields: &JsonMap, key: &str) -> (name: String)
    ensures
        name@ == display_name(fields@, key@),
{
    match text_field(fields, key) {
        Some(label) => remove_unknown_chars(label.as_str()),
        None => "unnamed".to_owned(),
    }
}

/// An array with one element.
pub fn single(item: Json) -> (doc: Json)
    ensures
        doc@ == JsonView::Array(seq![item@]),
{
    let mut items: Vec<Json> = Vec::new();
    items.push(item);
    assert(items_view(items@) =~= seq![item@]);
    Json::Array(items)
}

/// The web-socket settings of a template: a path and an empty host header.
pub open spec fn ws_template(path: Seq<char>) -> JsonView {
    JsonView::Object(
        Map::empty().insert("path"@, JsonView::Str(path)).insert(
            "headers"@,
            JsonView::Object(Map::empty().insert("Host"@, JsonView::Str(""@))),
        ),
    )
}

/// The web-socket settings of a template.
pub fn ws_settings(path: &str) -> (doc: Json)
    ensures
        doc@ == ws_template(path@),
{
    let mut headers = JsonMap::new();
    headers.insert("Host", Json::string(""));
    let mut ws = JsonMap::new();
    ws.insert("path", Json::string(path));
    ws.insert("headers", Json::Object(headers));
    Json::Object(ws)
}

/// The TLS settings of a template: an empty server name.
pub open spec fn tls_template() -> JsonView {
    JsonView::Object(Map::empty().insert("serverName"@, JsonView::Str(""@)))
}

/// The TLS settings of a template.
pub fn tls_settings() -> (doc: Json)
    ensures
        doc@ == tls_template(),
{
    let mut tls = JsonMap::new();
    tls.insert("serverName", Json::string(""));
    Json::Object(tls)
}

/// An outbound: the protocol, one server with one user, the tag `proxy`
/// and the stream settings.
pub open spec fn outbound_view(
    protocol: Seq<char>,
    address: Seq<char>,
    port: u16,
    user: Map<Seq<char>, JsonView>,
    stream: Map<Seq<char>, JsonView>,
) -> JsonView {
    let server = Map::empty().insert("address"@, JsonView::Str(address)).insert(
        "port"@,
        JsonView::Int(port as int),
    ).insert("users"@, JsonView::Array(seq![JsonView::Object(user)]));
    let settings = Map::empty().insert(
        "vnext"@,
        JsonView::Array(seq![JsonView::Object(server)]),
    );
    JsonView::Object(
        Map::empty().insert("protocol"@, JsonView::Str(protocol)).insert(
            "settings"@,
            JsonView::Object(settings),
        ).insert("tag"@, JsonView::Str("proxy"@)).insert("streamSettings"@, JsonView::Object(stream)),
    )
}

/// Puts an outbound together.
pub fn outbound(protocol: &str, address: &str, port: u16, user: JsonMap, stream: JsonMap) -> (doc:
    Json)
    ensures
        doc@ == outbound_view(protocol@, address@, port, user@, stream@),
{
    let mut server = JsonMap::new();
    server.insert("address", Json::string(address));
    server.insert("port", Json::PosInt(port as u64));
    server.insert("users", single(Json::Object(user)));
    let mut settings = JsonMap::new();
    settings.insert("vnext", single(Json::Object(server)));
    let mut doc = JsonMap::new();
    doc.insert("protocol", Json::string(protocol));
    doc.insert("settings", Json::Object(settings));
    doc.insert("tag", Json::string("proxy"));
    doc.insert("streamSettings", Json::Object(stream));
    Json::Object(doc)
}

/// The port of the first server of an outbound.
pub open spec fn server_port(doc: JsonView) -> Option<JsonView> {
    match member(doc, "settings"@) {
        Some(settings) => match member(settings, "vnext"@) {
            Some(JsonView::Array(servers)) => if servers.len() > 0 {
                member(servers[0], "port"@)
            } else {
                None
            },
            _ => None,
        },
        None => None,
    }
}

/// The address of the first server of an outbound.
pub open spec fn server_address(doc: JsonView) -> Option<JsonView> {
    match member(doc, "settings"@) {
        Some(settings) => match member(settings, "vnext"@) {
            Some(JsonView::Array(servers)) => if servers.len() > 0 {
                member(servers[0], "address"@)
            } else {
                None
            },
            _ => None,
        },
        None => None,
    }
}

/// An outbound has the address and the port that it was made with.
pub proof fn lemma_outbound_server(
    protocol: Seq<char>,
    address: Seq<char>,
    port: u16,
    user: Map<Seq<char>, JsonView>,
    stream: Map<Seq<char>, JsonView>,
)
    ensures
        server_port(outbound_view(protocol, address, port, user, stream)) == Some(
            JsonView::Int(port as int),
        ),
        server_address(outbound_view(protocol, address, port, user, stream)) == Some(
            JsonView::Str(address),
        ),
{
    reveal_strlit("protocol");
    reveal_strlit("settings");
    reveal_strlit("tag");
    reveal_strlit("streamSettings");
    reveal_strlit("vnext");
    reveal_strlit("address");
    reveal_strlit("port");
    reveal_strlit("users");
    assert("settings"@ != "tag"@) by {
        assert("settings"@[0] != "tag"@[0]);
    }
    assert("settings"@ != "streamSettings"@) by {
        assert("settings"@.len() != "streamSettings"@.len());
    }
    assert("port"@ != "users"@) by {
        assert("port"@.len() != "users"@.len());
    }
    assert("address"@ != "port"@) by {
        assert("address"@.len() != "port"@.len());
    }
    assert("address"@ != "users"@) by {
        assert("address"@.len() != "users"@.len());
    }
}

} // verus!
