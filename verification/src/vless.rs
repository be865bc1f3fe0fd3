//! Links of the `vless://` scheme: `id@address:port?query`, percent-encoded.

use crate::codec::{percent_decode_lossy, percent_decoded};
use crate::json::{lemma_map_of_push, map_of, Json, JsonMap, JsonView};
use crate::outbound::{
    absorb, apply_security, apply_transport, display_name, lemma_same_ending, name_from,
    outbound, outbound_view, rendering_of, text_member, tls_settings, tls_template,
    with_security, with_transport, ws_settings, ws_template, LinkError, Rendering,
};
use crate::port::{all_digits, decimal_value, is_digit, parse_port_text, port_of_text};
use crate::text::{
    chars_of, find_char, first_index, has_prefix, pieces_view, slice_chars, split_chars,
    split_on, string_from_chars, without_prefix,
};
use vstd::prelude::*;

verus! {

/// The prefix that marks a link of this scheme.
pub open spec fn vless_prefix() -> Seq<char> {
    "vless://"@
}

/// The parameters that the outbound itself reads; they are never passed
/// through into transport settings.
pub open spec fn vless_reserved() -> Seq<&'static str> {
    seq!["id", "add", "port", "encryption", "type", "security"]
}

/// The position just past the run of digits that begins at `from`.
pub open spec fn digits_end(text: Seq<char>, from: int) -> int
    decreases text.len() - from,
{
    if 0 <= from < text.len() && is_digit(text[from]) {
        digits_end(text, from + 1)
    } else {
        from
    }
}

/// Whether a port and a query follow the colon at `k`: at least one digit,
/// and `?` right after the last digit.
pub open spec fn port_follows(text: Seq<char>, k: int) -> bool {
    &&& 0 <= k < text.len()
    &&& text[k] == ':'
    &&& digits_end(text, k + 1) > k + 1
    &&& digits_end(text, k + 1) < text.len()
    &&& text[digits_end(text, k + 1)] == '?'
}

/// Whether no line ends between `from` and `to`.
pub open spec fn same_line(text: Seq<char>, from: int, to: int) -> bool {
    forall|i: int| from <= i < to ==> text[i] != '\n'
}

/// Whether the text can be read with its `@` at `j` and its colon at `k`:
/// the colon comes later on the same line, and a port and a query follow it.
pub open spec fn reads_at(text: Seq<char>, j: int, k: int) -> bool {
    &&& 0 <= j < k < text.len()
    &&& text[j] == '@'
    &&& same_line(text, j + 1, k)
    &&& port_follows(text, k)
}

/// Whether `(j, k)` is the reading that is taken: the one with the earliest
/// `@`, and among those the one with the earliest colon.
pub open spec fn is_taken(text: Seq<char>, j: int, k: int) -> bool {
    &&& reads_at(text, j, k)
    &&& forall|j2: int, k2: int| #[trigger]
        reads_at(text, j2, k2) ==> j < j2 || (j == j2 && k <= k2)
}

/// Where the line begins that holds position `at`.
pub open spec fn line_start(text: Seq<char>, at: int) -> int
    decreases at,
{
    if at <= 0 {
        0
    } else if text[at - 1] == '\n' {
        at
    } else {
        line_start(text, at - 1)
    }
}

/// Where the line ends that holds position `at`: at the next line feed, or
/// at the end of the text.
pub open spec fn line_end(text: Seq<char>, at: int) -> int
    decreases text.len() - at,
{
    if at < 0 || at >= text.len() {
        text.len() as int
    } else if text[at] == '\n' {
        at
    } else {
        line_end(text, at + 1)
    }
}

/// The four parts of a link.
#[derive(Debug)]
pub struct LinkParts {
    pub id: Vec<char>,
    pub address: Vec<char>,
    pub port: Vec<char>,
    pub query: Vec<char>,
}

/// The four parts of a link, as texts.
pub struct LinkPartsView {
    pub id: Seq<char>,
    pub address: Seq<char>,
    pub port: Seq<char>,
    pub query: Seq<char>,
}

impl View for LinkParts {
    type V = LinkPartsView;

    open spec fn view(&self) -> LinkPartsView {
        LinkPartsView {
            id: self.id@,
            address: self.address@,
            port: self.port@,
            query: self.query@,
        }
    }
}

/// The parts that the reading `(j, k)` gives: the id is what stands before
/// the `@` on its line, the address what stands between `@` and colon, the
/// port the digits, and the query the rest of the line after `?`.
pub open spec fn parts_at(text: Seq<char>, j: int, k: int) -> LinkPartsView {
    let e = digits_end(text, k + 1);
    LinkPartsView {
        id: text.subrange(line_start(text, j), j),
        address: text.subrange(j + 1, k),
        port: text.subrange(k + 1, e),
        query: text.subrange(e + 1, line_end(text, e + 1)),
    }
}

/// The parts of a text, where it can be read as a link at all.
pub open spec fn link_parts(text: Seq<char>) -> Option<LinkPartsView> {
    if exists|j: int, k: int| reads_at(text, j, k) {
        let (j, k) = choose|j: int, k: int| is_taken(text, j, k);
        Some(parts_at(text, j, k))
    } else {
        None
    }
}

/// The run of digits that begins at `from` holds digits only.
proof fn lemma_digits_end(text: Seq<char>, from: int)
    requires
        0 <= from <= text.len(),
    ensures
        from <= digits_end(text, from) <= text.len(),
        all_digits(text.subrange(from, digits_end(text, from))),
    decreases text.len() - from,
{
    if from < text.len() && is_digit(text[from]) {
        lemma_digits_end(text, from + 1);
        let e = digits_end(text, from);
        assert forall|i: int| 0 <= i < text.subrange(from, e).len() implies is_digit(
            #[trigger] text.subrange(from, e)[i],
        ) by {
            if i > 0 {
                assert(text.subrange(from, e)[i] == text.subrange(from + 1, e)[i - 1]);
            }
        }
    }
}

/// The port of a reading is a run of at least one digit. So it gives no
/// port exactly where its digits spell a number above 65535.
pub proof fn lemma_reading_port(text: Seq<char>, j: int, k: int)
    requires
        reads_at(text, j, k),
    ensures
        parts_at(text, j, k).port.len() > 0,
        all_digits(parts_at(text, j, k).port),
        port_of_text(parts_at(text, j, k).port) is None <==> decimal_value(
            parts_at(text, j, k).port,
        ) > 65535,
{
    lemma_digits_end(text, k + 1);
    let port = parts_at(text, j, k).port;
    assert(is_digit(port[0]));
}

/// Finds the end of the run of digits that begins at `from`.
fn scan_digits(text: &Vec<char>, from: usize) -> (end: usize)
    requires
        from <= text@.len(),
    ensures
        end == digits_end(text@, from as int),
        from <= end <= text@.len(),
{
    let mut i: usize = from;
    while i < text.len() && '0' <= text[i] && text[i] <= '9'
        invariant
            from <= i <= text@.len(),
            digits_end(text@, from as int) == digits_end(text@, i as int),
        decreases text@.len() - i,
    {
        i += 1;
    }
    i
}

/// Finds where the line begins that holds position `at`.
fn scan_line_start(text: &Vec<char>, at: usize) -> (start: usize)
    requires
        at <= text@.len(),
    ensures
        start == line_start(text@, at as int),
        start <= at,
{
    let mut i: usize = at;
    while i > 0 && text[i - 1] != '\n'
        invariant
            i <= at <= text@.len(),
            line_start(text@, at as int) == line_start(text@, i as int),
        decreases i,
    {
        i -= 1;
    }
    i
}

/// Finds where the line ends that holds position `at`.
fn scan_line_end(text: &Vec<char>, at: usize) -> (end: usize)
    requires
        at <= text@.len(),
    ensures
        end == line_end(text@, at as int),
        at <= end <= text@.len(),
{
    let mut i: usize = at;
    while i < text.len() && text[i] != '\n'
        invariant
            at <= i <= text@.len(),
            line_end(text@, at as int) == line_end(text@, i as int),
        decreases text@.len() - i,
    {
        i += 1;
    }
    i
}

/// Finds the earliest colon after the `@` at `j`, on the same line, that a
/// port and a query follow.
fn find_colon(text: &Vec<char>, j: usize) -> (at: Option<usize>)
    requires
        j < text@.len(),
        text@[j as int] == '@',
    ensures
        match at {
            Some(k) => reads_at(text@, j as int, k as int) && forall|k2: int|
                reads_at(text@, j as int, k2) ==> k <= k2,
            None => forall|k2: int| !reads_at(text@, j as int, k2),
        },
{
    let n = text.len();
    let mut k: usize = j + 1;
    while k < n
        invariant
            j < k <= text@.len(),
            n == text@.len(),
            text@[j as int] == '@',
            same_line(text@, j + 1, k as int),
            forall|k2: int| j < k2 < k ==> !port_follows(text@, k2),
        decreases text@.len() - k,
    {
        let c = text[k];
        if c == ':' {
            let e = scan_digits(text, k + 1);
            if e > k + 1 && e < text.len() && text[e] == '?' {
                return Some(k);
            }
        }
        if c == '\n' {
            assert forall|k2: int| !reads_at(text@, j as int, k2) by {
                if k2 > k {
                    assert(!same_line(text@, j + 1, k2));
                }
            }
            return None;
        }
        k += 1;
    }
    None
}

/// Splits a text into the parts of a link: `id@address:port?query`, found
/// anywhere in the text, with the earliest `@` and then the earliest colon
/// that fit. `None` where the text cannot be read so.
pub fn split_link(text: &Vec<char>) -> (parts: Option<LinkParts>)
    ensures
        match parts {
            Some(p) => link_parts(text@) == Some(p@),
            None => link_parts(text@) is None,
        },
{
    let mut j: usize = 0;
    while j < text.len()
        invariant
            j <= text@.len(),
            forall|j2: int, k2: int| 0 <= j2 < j ==> !reads_at(text@, j2, k2),
        decreases text@.len() - j,
    {
        if text[j] == '@' {
            match find_colon(text, j) {
                Some(k) => {
                    let e = scan_digits(text, k + 1);
                    let start = scan_line_start(text, j);
                    let end = scan_line_end(text, e + 1);
                    let parts = LinkParts {
                        id: slice_chars(text, start, j),
                        address: slice_chars(text, j + 1, k),
                        port: slice_chars(text, k + 1, e),
                        query: slice_chars(text, e + 1, end),
                    };
                    proof {
                        assert(is_taken(text@, j as int, k as int));
                        let (j0, k0) = choose|j0: int, k0: int| is_taken(text@, j0, k0);
                        assert(reads_at(text@, j0, k0));
                        assert(reads_at(text@, j as int, k as int));
                        assert(j0 == j && k0 == k);
                        assert(parts@ == parts_at(text@, j as int, k as int));
                    }
                    return Some(parts);
                },
                None => {},
            }
        }
        j += 1;
    }
    None
}

/// The members that the pieces of a query give, in order: a piece with `=`
/// in it gives what stands before its first `=` as key and the rest as
/// value; a piece without `=` gives nothing.
pub open spec fn query_members(pieces: Seq<Seq<char>>) -> Seq<(Seq<char>, JsonView)>
    decreases pieces.len(),
{
    if pieces.len() == 0 {
        Seq::empty()
    } else {
        let before = query_members(pieces.drop_last());
        let piece = pieces.last();
        match first_index(piece, '=') {
            Some(at) => before.push((piece.take(at), JsonView::Str(piece.skip(at + 1)))),
            None => before,
        }
    }
}

/// The parameters of a query: its pieces between `&`, the last piece with a
/// key deciding what the key stands for.
pub open spec fn query_fields(query: Seq<char>) -> Map<Seq<char>, JsonView> {
    map_of(query_members(split_on(query, '&')))
}

/// Reads the parameters of a query.
pub fn parse_query(query: &Vec<char>) -> (fields: JsonMap)
    ensures
        fields@ == query_fields(query@),
{
    let pieces = split_chars(query, '&');
    let mut fields = JsonMap::new();
    let mut i: usize = 0;
    proof {
        assert(pieces_view(pieces@).take(0) =~= Seq::empty());
    }
    while i < pieces.len()
        invariant
            i <= pieces@.len(),
            pieces_view(pieces@) == split_on(query@, '&'),
            fields@ == map_of(query_members(pieces_view(pieces@).take(i as int))),
        decreases pieces@.len() - i,
    {
        let piece = &pieces[i];
        let ghost seen = pieces_view(pieces@).take(i as int);
        proof {
            assert(pieces_view(pieces@).take(i + 1).drop_last() =~= seen);
            assert(pieces_view(pieces@).take(i + 1).last() == piece@);
        }
        match find_char(piece, '=') {
            Some(at) => {
                let end = piece.len();
                let key = string_from_chars(&slice_chars(piece, 0, at));
                let value = string_from_chars(&slice_chars(piece, at + 1, end));
                proof {
                    lemma_map_of_push(query_members(seen), key@, JsonView::Str(value@));
                }
                fields.insert(key.as_str(), Json::Str(value));
            },
            None => {},
        }
        i += 1;
    }
    assert(pieces_view(pieces@).take(i as int) =~= pieces_view(pieces@));
    fields
}

/// The user of the outbound: the id, the encryption as the query has it,
/// and level 0.
pub open spec fn vless_user(id: Seq<char>, fields: Map<Seq<char>, JsonView>) -> Map<
    Seq<char>,
    JsonView,
> {
    Map::empty().insert("id"@, JsonView::Str(id)).insert(
        "encryption"@,
        if fields.contains_key("encryption"@) {
            fields["encryption"@]
        } else {
            JsonView::Str("none"@)
        },
    ).insert("level"@, JsonView::Int(0))
}

/// The stream settings before a query is applied.
pub open spec fn vless_stream_template() -> Map<Seq<char>, JsonView> {
    Map::empty().insert("network"@, JsonView::Str("ws"@)).insert(
        "security"@,
        JsonView::Str("tls"@),
    ).insert("wsSettings"@, ws_template("to fill"@)).insert(
        "tcpSettings"@,
        JsonView::Object(Map::empty()),
    ).insert("kcpSettings"@, JsonView::Object(Map::empty())).insert(
        "httpSettings"@,
        JsonView::Object(Map::empty()),
    ).insert("dsSettings"@, JsonView::Object(Map::empty())).insert(
        "quicSettings"@,
        JsonView::Object(Map::empty()),
    ).insert("tlsSettings"@, tls_template())
}

/// The stream settings of the outbound.
pub open spec fn vless_stream(fields: Map<Seq<char>, JsonView>) -> Map<Seq<char>, JsonView> {
    with_security(
        with_transport(vless_stream_template(), fields, "type"@, vless_reserved()),
        fields,
        "security"@,
        "sni"@,
    )
}

/// What the parts of a link give: the outbound and the display name, or
/// `PortTooLarge` where the text of the port spells no port.
pub open spec fn vless_rendering(parts: LinkPartsView) -> Rendering {
    let fields = query_fields(parts.query);
    match port_of_text(parts.port) {
        None => Err(LinkError::PortTooLarge),
        Some(port) => Ok(
            (
                outbound_view(
                    "vless"@,
                    parts.address,
                    port,
                    vless_user(parts.id, fields),
                    vless_stream(fields),
                ),
                display_name(fields, "headerType"@),
            ),
        ),
    }
}

/// The text of a link that is split into parts: what follows the prefix,
/// percent-decoded and read as UTF-8.
pub open spec fn vless_decoded(line: Seq<char>) -> Seq<char> {
    percent_decoded(without_prefix(line, vless_prefix()))
}

/// What a decoded text gives: `NoMatch` where it cannot be read as a link.
pub open spec fn vless_text_rendering(text: Seq<char>) -> Rendering {
    match link_parts(text) {
        None => Err(LinkError::NoMatch),
        Some(parts) => vless_rendering(parts),
    }
}

/// What a link gives.
pub open spec fn vless_link_rendering(line: Seq<char>) -> Rendering {
    vless_text_rendering(vless_decoded(line))
}

/// The transports that have settings of their own.
pub open spec fn has_own_settings(net: Seq<char>) -> bool {
    ||| net == "tcp"@
    ||| net == "kcp"@
    ||| net == "http"@
    ||| net == "ds"@
    ||| net == "quic"@
    ||| net == "tls"@
}

/// What the settings of a transport hold before a query is applied.
pub open spec fn own_settings(net: Seq<char>) -> Map<Seq<char>, JsonView> {
    if net == "tls"@ {
        Map::empty().insert("serverName"@, JsonView::Str(""@))
    } else {
        Map::empty()
    }
}

/// Of all transports but `ws`, those with settings of their own get every
/// parameter that is not reserved passed into these settings. Any other
/// transport changes the network and nothing else.
pub proof fn lemma_vless_transport(fields: Map<Seq<char>, JsonView>, net: Seq<char>)
    requires
        text_member(fields, "type"@) == Some(net),
        net != "ws"@,
    ensures
        has_own_settings(net) ==> with_transport(
            vless_stream_template(),
            fields,
            "type"@,
            vless_reserved(),
        ) == vless_stream_template().insert("network"@, JsonView::Str(net)).insert(
            net + "Settings"@,
            JsonView::Object(absorb(own_settings(net), fields, vless_reserved())),
        ),
        !has_own_settings(net) ==> with_transport(
            vless_stream_template(),
            fields,
            "type"@,
            vless_reserved(),
        ) == vless_stream_template().insert("network"@, JsonView::Str(net)),
{
    reveal_strlit("network");
    reveal_strlit("security");
    reveal_strlit("wsSettings");
    reveal_strlit("tcpSettings");
    reveal_strlit("kcpSettings");
    reveal_strlit("httpSettings");
    reveal_strlit("dsSettings");
    reveal_strlit("quicSettings");
    reveal_strlit("tlsSettings");
    reveal_strlit("ws");
    reveal_strlit("tcp");
    reveal_strlit("kcp");
    reveal_strlit("http");
    reveal_strlit("ds");
    reveal_strlit("quic");
    reveal_strlit("tls");
    reveal_strlit("Settings");
    let target = net + "Settings"@;
    assert("wsSettings"@ =~= "ws"@ + "Settings"@);
    if target == "wsSettings"@ {
        lemma_same_ending(net, "ws"@, "Settings"@);
    }
    assert("tcpSettings"@ =~= "tcp"@ + "Settings"@);
    if target == "tcpSettings"@ {
        lemma_same_ending(net, "tcp"@, "Settings"@);
    }
    assert("kcpSettings"@ =~= "kcp"@ + "Settings"@);
    if target == "kcpSettings"@ {
        lemma_same_ending(net, "kcp"@, "Settings"@);
    }
    assert("httpSettings"@ =~= "http"@ + "Settings"@);
    if target == "httpSettings"@ {
        lemma_same_ending(net, "http"@, "Settings"@);
    }
    assert("dsSettings"@ =~= "ds"@ + "Settings"@);
    if target == "dsSettings"@ {
        lemma_same_ending(net, "ds"@, "Settings"@);
    }
    assert("quicSettings"@ =~= "quic"@ + "Settings"@);
    if target == "quicSettings"@ {
        lemma_same_ending(net, "quic"@, "Settings"@);
    }
    assert("tlsSettings"@ =~= "tls"@ + "Settings"@);
    if target == "tlsSettings"@ {
        lemma_same_ending(net, "tls"@, "Settings"@);
    }
}

fn reserved_names() -> (names: Vec<&'static str>)
    ensures
        names@ == vless_reserved(),
{
    let mut names: Vec<&'static str> = Vec::new();
    names.push("id");
    names.push("add");
    names.push("port");
    names.push("encryption");
    names.push("type");
    names.push("security");
    assert(names@ =~= vless_reserved());
    names
}

fn stream_template() -> (ss: JsonMap)
    ensures
        ss@ == vless_stream_template(),
{
    let mut ss = JsonMap::new();
    ss.insert("network", Json::string("ws"));
    ss.insert("security", Json::string("tls"));
    ss.insert("wsSettings", ws_settings("to fill"));
    ss.insert("tcpSettings", Json::Object(JsonMap::new()));
    ss.insert("kcpSettings", Json::Object(JsonMap::new()));
    ss.insert("httpSettings", Json::Object(JsonMap::new()));
    ss.insert("dsSettings", Json::Object(JsonMap::new()));
    ss.insert("quicSettings", Json::Object(JsonMap::new()));
    ss.insert("tlsSettings", tls_settings());
    ss
}

fn user_of(id: &str, fields: &JsonMap) -> (user: JsonMap)
    ensures
        user@ == vless_user(id@, fields@),
{
    let mut user = JsonMap::new();
    user.insert("id", Json::string(id));
    match fields.get("encryption") {
        Some(e) => {
            user.insert("encryption", e.clone());
        },
        None => {
            user.insert("encryption", Json::string("none"));
        },
    }
    user.insert("level", Json::PosInt(0));
    user
}

/// Renders the outbound that the parts of a link describe.
///
/// Fails exactly where the text of the port spells no port; for the digits
/// of a link that is where they spell more than 65535.
pub fn vless_from_parts(parts: &LinkParts) -> (got: Result<(Json, String), LinkError>)
    ensures
        rendering_of(got) == vless_rendering(parts@),
{
    let fields = parse_query(&parts.query);
    let digits = string_from_chars(&parts.port);
    let port: u16 = match parse_port_text(digits.as_str()) {
        Some(p) => p,
        None => {
            return Err(LinkError::PortTooLarge);
        },
    };
    let id = string_from_chars(&parts.id);
    let address = string_from_chars(&parts.address);
    let user = user_of(id.as_str(), &fields);
    let mut stream = stream_template();
    let reserved = reserved_names();
    apply_transport(&mut stream, &fields, "type", &reserved);
    apply_security(&mut stream, &fields, "security", "sni");
    let doc = outbound("vless", address.as_str(), port, user, stream);
    let name = name_from(&fields, "headerType");
    Ok((doc, name))
}

/// Renders the outbound that a decoded link text describes.
///
/// Fails with `NoMatch` exactly where the text cannot be read as
/// `id@address:port?query`, and with `PortTooLarge` exactly where it can and
/// the digits of the port spell more than 65535.
pub fn vless_from_text(text: &str) -> (got: Result<(Json, String), LinkError>)
    ensures
        rendering_of(got) == vless_text_rendering(text@),
{
    let chars = chars_of(text);
    match split_link(&chars) {
        Some(parts) => vless_from_parts(&parts),
        None => Err(LinkError::NoMatch),
    }
}

/// The decoded text of a link.
pub fn decoded_text(s: &str) -> (text: String)
    ensures
        text@ == vless_decoded(s@),
{
    let line = chars_of(s);
    let prefix = chars_of("vless://");
    if has_prefix(&line, &prefix) {
        let rest = string_from_chars(&slice_chars(&line, prefix.len(), line.len()));
        percent_decode_lossy(rest.as_str())
    } else {
        percent_decode_lossy(s)
    }
}

/// Parses a `vless://` link into its outbound and its display name.
pub fn parse_vless_link(s: &str) -> (got: Result<(Json, String), LinkError>)
    ensures
        rendering_of(got) == vless_link_rendering(s@),
{
    let text = decoded_text(s);
    vless_from_text(text.as_str())
}

} // verus!
