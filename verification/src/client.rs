//! What a client says: its settings, its handshake, and the JSON texts of
//! the requests it sends to an MCP server.
use crate::codes::{BrowserAction, ClientType};
use crate::protocol::payload_view;
use crate::text::{
    array, boolean, decimal, join, lemma_decimal_injective, lemma_decimal_is_digits,
    lemma_quoted_plain, lemma_split_before, member, object, quoted, quoted_all, ObjectWriter,
};
use vstd::prelude::*;
use vstd::string::StringExecFns;

verus! {

/// The settings a caller may give a client; each absent one has a default.
pub struct ClientOptions {
    pub client_id: Option<String>,
    pub client_type: Option<u8>,
    pub capabilities: Option<Vec<String>>,
    pub timeout: Option<u32>,
    pub binary: Option<bool>,
}

/// The settings a client runs with.
pub struct ClientConfig {
    pub client_id: String,
    pub client_type: u8,
    pub capabilities: Vec<String>,
    pub timeout: u32,
    pub binary: bool,
}

/// The texts of a list of strings.
pub open spec fn texts(v: Seq<String>) -> Seq<Seq<char>> {
    v.map_values(|s: String| s@)
}

/// The capabilities a client announces when none are given.
pub open spec fn default_capabilities() -> Seq<Seq<char>> {
    seq!["tools"@, "browser"@, "mcp"@]
}

/// The request timeout, in milliseconds, when none is given.
pub open spec fn default_timeout() -> u32 {
    30000
}

/// The protocol version a client announces.
pub open spec fn protocol_version() -> Seq<char> {
    "1.0.0"@
}

fn default_capability_list() -> (v: Vec<String>)
    ensures
        texts(v@) == default_capabilities(),
{
    let v = vec![String::from_str("tools"), String::from_str("browser"), String::from_str("mcp")];
    assert(texts(v@) =~= default_capabilities());
    v
}

impl ClientConfig {
    /// The settings of a client made with `options`; `fresh_id` is the
    /// identifier it takes when the options give none.
    pub fn from_options(options: ClientOptions, fresh_id: String) -> (c: ClientConfig)
        ensures
            c.client_id@ == match options.client_id {
                Some(id) => id@,
                None => fresh_id@,
            },
            c.client_type == match options.client_type {
                Some(t) => t,
                None => ClientType::McpClient.code_of(),
            },
            texts(c.capabilities@) == match options.capabilities {
                Some(caps) => texts(caps@),
                None => default_capabilities(),
            },
            c.timeout == match options.timeout {
                Some(t) => t,
                None => default_timeout(),
            },
            c.binary == match options.binary {
                Some(b) => b,
                None => true,
            },
    {
        let client_id = match options.client_id {
            Some(id) => id,
            None => fresh_id,
        };
        let client_type = match options.client_type {
            Some(t) => t,
            None => ClientType::McpClient.code(),
        };
        let capabilities = match options.capabilities {
            Some(caps) => caps,
            None => default_capability_list(),
        };
        let timeout = match options.timeout {
            Some(t) => t,
            None => 30000,
        };
        let binary = match options.binary {
            Some(b) => b,
            None => true,
        };
        ClientConfig { client_id, client_type, capabilities, timeout, binary }
    }
}

/// The JSON text of the handshake a client sends once its socket opens.
pub open spec fn handshake_text(config: ClientConfig) -> Seq<char> {
    object(
        seq![
            member("version"@, quoted(protocol_version())),
            member("clientType"@, decimal(config.client_type as nat)),
            member("clientId"@, quoted(config.client_id@)),
            member("capabilities"@, array(quoted_all(config.capabilities@))),
        ],
    )
}

/// Writes the handshake of a client.
pub fn handshake_json(config: &ClientConfig) -> (s: String)
    ensures
        s@ == handshake_text(*config),
        s@ == handshake_head() + decimal(config.client_type as nat) + handshake_id_key() + quoted(
            config.client_id@,
        ) + handshake_capabilities_key() + array(quoted_all(config.capabilities@)) + seq!['}'],
{
    let mut w = ObjectWriter::new();
    w.string("version", "1.0.0");
    w.number("clientType", config.client_type as u64);
    w.string("clientId", config.client_id.as_str());
    w.strings("capabilities", &config.capabilities);
    let s = w.finish();
    assert(w.members() =~= seq![
        member("version"@, quoted(protocol_version())),
        member("clientType"@, decimal(config.client_type as nat)),
        member("clientId"@, quoted(config.client_id@)),
        member("capabilities"@, array(quoted_all(config.capabilities@))),
    ]) by {
        reveal_strlit("1.0.0");
    }
    proof {
        lemma_handshake_layout(*config);
    }
    s
}

/// The text that opens every handshake, up to the client type.
pub open spec fn handshake_head() -> Seq<char> {
    seq!['{', '\"', 'v', 'e', 'r', 's', 'i', 'o', 'n', '\"', ':', '\"', '1', '.', '0', '.', '0', '\"', ',', '\"', 'c', 'l', 'i', 'e', 'n', 't', 'T', 'y', 'p', 'e', '\"', ':']
}

/// The text between the client type and the client identifier.
pub open spec fn handshake_id_key() -> Seq<char> {
    seq![',', '\"', 'c', 'l', 'i', 'e', 'n', 't', 'I', 'd', '\"', ':']
}

/// The text between the client identifier and the capabilities.
pub open spec fn handshake_capabilities_key() -> Seq<char> {
    seq![',', '\"', 'c', 'a', 'p', 'a', 'b', 'i', 'l', 'i', 't', 'i', 'e', 's', '\"', ':']
}

proof fn lemma_handshake_members(c: ClientConfig)
    ensures
        member("version"@, quoted(protocol_version())) == seq!['\"', 'v', 'e', 'r', 's', 'i', 'o', 'n', '\"', ':', '\"', '1', '.', '0', '.', '0', '\"'],
        member("clientType"@, decimal(c.client_type as nat)) == seq!['\"', 'c', 'l', 'i', 'e', 'n', 't', 'T', 'y', 'p', 'e', '\"', ':'] + decimal(
            c.client_type as nat,
        ),
        member("clientId"@, quoted(c.client_id@)) == seq!['\"', 'c', 'l', 'i', 'e', 'n', 't', 'I', 'd', '\"', ':'] + quoted(c.client_id@),
        member("capabilities"@, array(quoted_all(c.capabilities@))) == seq!['\"', 'c', 'a', 'p', 'a', 'b', 'i', 'l', 'i', 't', 'i', 'e', 's', '\"', ':'] + array(
            quoted_all(c.capabilities@),
        ),
{
    reveal_strlit("version");
    reveal_strlit("1.0.0");
    reveal_strlit("clientType");
    reveal_strlit("clientId");
    reveal_strlit("capabilities");
    assert("version"@ =~= seq!['v', 'e', 'r', 's', 'i', 'o', 'n']);
    assert("1.0.0"@ =~= seq!['1', '.', '0', '.', '0']);
    assert("clientType"@ =~= seq!['c', 'l', 'i', 'e', 'n', 't', 'T', 'y', 'p', 'e']);
    assert("clientId"@ =~= seq!['c', 'l', 'i', 'e', 'n', 't', 'I', 'd']);
    assert("capabilities"@ =~= seq!['c', 'a', 'p', 'a', 'b', 'i', 'l', 'i', 't', 'i', 'e', 's']);
    lemma_quoted_plain(seq!['v', 'e', 'r', 's', 'i', 'o', 'n']);
    lemma_quoted_plain(seq!['1', '.', '0', '.', '0']);
    lemma_quoted_plain(seq!['c', 'l', 'i', 'e', 'n', 't', 'T', 'y', 'p', 'e']);
    lemma_quoted_plain(seq!['c', 'l', 'i', 'e', 'n', 't', 'I', 'd']);
    lemma_quoted_plain(seq!['c', 'a', 'p', 'a', 'b', 'i', 'l', 'i', 't', 'i', 'e', 's']);
    assert(member("version"@, quoted(protocol_version())) =~= seq!['\"', 'v', 'e', 'r', 's', 'i', 'o', 'n', '\"', ':', '\"', '1', '.', '0', '.', '0', '\"']);
    assert(member("clientType"@, decimal(c.client_type as nat)) =~= seq!['\"', 'c', 'l', 'i', 'e', 'n', 't', 'T', 'y', 'p', 'e', '\"', ':'] + decimal(
        c.client_type as nat,
    ));
    assert(member("clientId"@, quoted(c.client_id@)) =~= seq!['\"', 'c', 'l', 'i', 'e', 'n', 't', 'I', 'd', '\"', ':'] + quoted(c.client_id@));
    assert(member("capabilities"@, array(quoted_all(c.capabilities@))) =~= seq!['\"', 'c', 'a', 'p', 'a', 'b', 'i', 'l', 'i', 't', 'i', 'e', 's', '\"', ':'] + array(
        quoted_all(c.capabilities@),
    ));
}

/// The handshake, character by character: the protocol version, then the
/// client's own type as a decimal number, its identifier as a JSON string
/// and its capabilities as a JSON array of strings.
#[verifier::rlimit(40)]
pub proof fn lemma_handshake_layout(c: ClientConfig)
    ensures
        handshake_text(c) == handshake_head() + decimal(c.client_type as nat) + handshake_id_key()
            + quoted(c.client_id@) + handshake_capabilities_key() + array(
            quoted_all(c.capabilities@),
        ) + seq!['}'],
{
    lemma_handshake_members(c);
    let m1 = member("version"@, quoted(protocol_version()));
    let m2 = member("clientType"@, decimal(c.client_type as nat));
    let m3 = member("clientId"@, quoted(c.client_id@));
    let m4 = member("capabilities"@, array(quoted_all(c.capabilities@)));
    let ms = seq![m1, m2, m3, m4];
    assert(join(ms) == join(seq![m1, m2, m3]) + seq![','] + m4) by {
        assert(ms.drop_last() =~= seq![m1, m2, m3]);
    }
    assert(join(seq![m1, m2, m3]) == join(seq![m1, m2]) + seq![','] + m3) by {
        assert(seq![m1, m2, m3].drop_last() =~= seq![m1, m2]);
    }
    assert(join(seq![m1, m2]) == join(seq![m1]) + seq![','] + m2) by {
        assert(seq![m1, m2].drop_last() =~= seq![m1]);
    }
    assert(join(seq![m1]) == m1);
    let d = decimal(c.client_type as nat);
    let q = quoted(c.client_id@);
    let a = array(quoted_all(c.capabilities@));
    assert(seq!['{'] + m1 + seq![','] + seq!['\"', 'c', 'l', 'i', 'e', 'n', 't', 'T', 'y', 'p', 'e', '\"', ':'] =~= handshake_head());
    assert(seq![','] + seq!['\"', 'c', 'l', 'i', 'e', 'n', 't', 'I', 'd', '\"', ':'] =~= handshake_id_key());
    assert(seq![','] + seq!['\"', 'c', 'a', 'p', 'a', 'b', 'i', 'l', 'i', 't', 'i', 'e', 's', '\"', ':'] =~= handshake_capabilities_key());
    assert(handshake_text(c) =~= handshake_head() + d + handshake_id_key() + q
        + handshake_capabilities_key() + a + seq!['}']);
}

/// A run of characters free of commas, placed between a fixed head and a
/// text that starts with a comma, is fixed by the whole.
proof fn lemma_field_between(
    h: Seq<char>,
    k: Seq<char>,
    c: Seq<char>,
    e: Seq<char>,
    d1: Seq<char>,
    q1: Seq<char>,
    a1: Seq<char>,
    d2: Seq<char>,
    q2: Seq<char>,
    a2: Seq<char>,
)
    requires
        k.len() >= 1,
        k[0] == ',',
        forall|i: int| 0 <= i < d1.len() ==> d1[i] != ',',
        forall|i: int| 0 <= i < d2.len() ==> d2[i] != ',',
        h + d1 + k + q1 + c + a1 + e == h + d2 + k + q2 + c + a2 + e,
    ensures
        d1 == d2,
{
    let s = h + d1 + k + q1 + c + a1 + e;
    let t = k.drop_first();
    assert(s.skip(h.len() as int) =~= d1 + seq![','] + (t + q1 + c + a1 + e));
    assert((h + d2 + k + q2 + c + a2 + e).skip(h.len() as int) =~= d2 + seq![','] + (t + q2 + c
        + a2 + e));
    lemma_split_before(',', d1, t + q1 + c + a1 + e, d2, t + q2 + c + a2 + e);
}

/// The handshake announces the client's own type: clients of different
/// types send different handshakes, whatever their other settings.
pub proof fn lemma_handshake_client_type(c1: ClientConfig, c2: ClientConfig)
    ensures
        handshake_text(c1) == handshake_text(c2) ==> c1.client_type == c2.client_type,
{
    if handshake_text(c1) == handshake_text(c2) {
        lemma_handshake_layout(c1);
        lemma_handshake_layout(c2);
        let d1 = decimal(c1.client_type as nat);
        let d2 = decimal(c2.client_type as nat);
        lemma_decimal_is_digits(c1.client_type as nat);
        lemma_decimal_is_digits(c2.client_type as nat);
        assert forall|i: int| 0 <= i < d1.len() implies d1[i] != ',' by {
            assert(48 <= d1[i] as u32);
        }
        assert forall|i: int| 0 <= i < d2.len() implies d2[i] != ',' by {
            assert(48 <= d2[i] as u32);
        }
        lemma_field_between(
            handshake_head(),
            handshake_id_key(),
            handshake_capabilities_key(),
            seq!['}'],
            d1,
            quoted(c1.client_id@),
            array(quoted_all(c1.capabilities@)),
            d2,
            quoted(c2.client_id@),
            array(quoted_all(c2.capabilities@)),
        );
        lemma_decimal_injective(c1.client_type as nat, c2.client_type as nat);
    }
}

/// The members of an optional one.
pub open spec fn optional(m: Option<Seq<char>>) -> Seq<Seq<char>> {
    match m {
        Some(x) => seq![x],
        None => Seq::empty(),
    }
}

/// The JSON text of a request: its identifier, its method and, when given,
/// its parameters.
pub open spec fn request_text(id: Seq<char>, method: Seq<char>, params: Option<Seq<char>>) -> Seq<
    char,
> {
    object(
        seq![member("id"@, quoted(id)), member("method"@, quoted(method))] + optional(
            match params {
                Some(p) => Some(member("params"@, p)),
                None => None,
            },
        ),
    )
}

/// Writes the JSON text of a request.
pub fn request_json(id: &str, method: &str, params: Option<&str>) -> (s: String)
    ensures
        s@ == request_text(id@, method@, payload_view(params)),
{
    let mut w = ObjectWriter::new();
    w.string("id", id);
    w.string("method", method);
    match params {
        Some(p) => w.raw("params", p),
        None => {},
    }
    let ghost base = seq![member("id"@, quoted(id@)), member("method"@, quoted(method@))];
    assert(Seq::<Seq<char>>::empty().push(member("id"@, quoted(id@))).push(
        member("method"@, quoted(method@)),
    ) =~= base);
    match params {
        Some(p) => {
            assert(base.push(member("params"@, p@)) =~= base + optional(Some(member("params"@, p@))));
        },
        None => {
            assert(base =~= base + optional(None));
        },
    }
    w.finish()
}

/// The member `tabId` of a browser command, when a tab is named.
pub open spec fn tab_member(tab_id: Option<u32>) -> Seq<Seq<char>> {
    optional(
        match tab_id {
            Some(t) => Some(member("tabId"@, decimal(t as nat))),
            None => None,
        },
    )
}

/// The first member of a browser command: its action code.
pub open spec fn action_member(a: BrowserAction) -> Seq<char> {
    member("action"@, decimal(a.code_of() as nat))
}

fn write_tab(w: &mut ObjectWriter, tab_id: Option<u32>)
    requires
        old(w).wf(),
        old(w).members().len() < usize::MAX,
    ensures
        final(w).wf(),
        final(w).members() == old(w).members() + tab_member(tab_id),
{
    match tab_id {
        Some(t) => {
            w.number("tabId", t as u64);
            assert(final(w).members() =~= old(w).members() + tab_member(tab_id));
        },
        None => {
            assert(final(w).members() =~= old(w).members() + tab_member(tab_id));
        },
    }
}

fn start_command(action: BrowserAction) -> (w: ObjectWriter)
    ensures
        w.wf(),
        w.members() == seq![action_member(action)],
{
    let mut w = ObjectWriter::new();
    w.number("action", action.code() as u64);
    assert(w.members() =~= seq![action_member(action)]);
    w
}

/// A request to send: its method, the JSON text of its parameters when it
/// has any, and the member of the result that answers it when the answer
/// is one member of the result.
pub struct Call {
    pub method: String,
    pub params: Option<String>,
    pub result_member: Option<String>,
}

/// The text of an optional string.
pub open spec fn text_of(v: Option<String>) -> Option<Seq<char>> {
    match v {
        Some(t) => Some(t@),
        None => None,
    }
}

impl Call {
    /// The call has this method, these parameters and this answer member.
    pub open spec fn is(self, method: Seq<char>, params: Option<Seq<char>>, result_member: Option<
        Seq<char>,
    >) -> bool {
        &&& self.method@ == method
        &&& text_of(self.params) == params
        &&& text_of(self.result_member) == result_member
    }

    /// Lists the server's tools; the answer is the `tools` member.
    pub fn list_tools() -> (c: Call)
        ensures
            c.is("tools/list"@, None, Some("tools"@)),
    {
        Call {
            method: String::from_str("tools/list"),
            params: None,
            result_member: Some(String::from_str("tools")),
        }
    }

    /// Calls tool `name` with the given arguments, when they have a JSON
    /// form.
    pub fn call_tool(name: &str, arguments: Option<&str>) -> (c: Call)
        ensures
            c.is(
                "tools/call"@,
                Some(
                    object(
                        seq![member("name"@, quoted(name@))] + optional(
                            match payload_view(arguments) {
                                Some(a) => Some(member("arguments"@, a)),
                                None => None,
                            },
                        ),
                    ),
                ),
                None,
            ),
    {
        let mut w = ObjectWriter::new();
        w.string("name", name);
        match arguments {
            Some(a) => {
                w.raw("arguments", a);
                assert(w.members() =~= seq![member("name"@, quoted(name@))] + optional(
                    Some(member("arguments"@, a@)),
                ));
            },
            None => {
                assert(w.members() =~= seq![member("name"@, quoted(name@))] + optional(None));
            },
        }
        Call { method: String::from_str("tools/call"), params: Some(w.finish()), result_member: None }
    }

    /// Lists the server's resources; the answer is the `resources` member.
    pub fn list_resources() -> (c: Call)
        ensures
            c.is("resources/list"@, None, Some("resources"@)),
    {
        Call {
            method: String::from_str("resources/list"),
            params: None,
            result_member: Some(String::from_str("resources")),
        }
    }

    /// Reads the resource at `uri`.
    pub fn read_resource(uri: &str) -> (c: Call)
        ensures
            c.is("resources/read"@, Some(object(seq![member("uri"@, quoted(uri@))])), None),
    {
        let mut w = ObjectWriter::new();
        w.string("uri", uri);
        assert(w.members() =~= seq![member("uri"@, quoted(uri@))]);
        Call { method: String::from_str("resources/read"), params: Some(w.finish()), result_member: None }
    }

    /// A browser command with the given parameters, when they have a JSON
    /// form.
    pub fn browser(params: Option<&str>) -> (c: Call)
        ensures
            c.is("browser"@, payload_view(params), None),
    {
        let params = match params {
            Some(p) => Some(String::from_str(p)),
            None => None,
        };
        Call { method: String::from_str("browser"), params, result_member: None }
    }

    fn browser_command(params: String) -> (c: Call)
        ensures
            c.is("browser"@, Some(params@), None),
    {
        Call { method: String::from_str("browser"), params: Some(params), result_member: None }
    }

    /// Navigates a tab (the active one when none is named) to `url`.
    pub fn navigate(url: &str, tab_id: Option<u32>) -> (c: Call)
        ensures
            c.is(
                "browser"@,
                Some(
                    object(
                        seq![action_member(BrowserAction::Navigate), member("url"@, quoted(url@))]
                            + tab_member(tab_id),
                    ),
                ),
                None,
            ),
    {
        let mut w = start_command(BrowserAction::Navigate);
        w.string("url", url);
        write_tab(&mut w, tab_id);
        assert(w.members() =~= seq![
            action_member(BrowserAction::Navigate),
            member("url"@, quoted(url@)),
        ] + tab_member(tab_id));
        Call::browser_command(w.finish())
    }

    /// Clicks the element that `selector` picks.
    pub fn click(selector: &str, tab_id: Option<u32>) -> (c: Call)
        ensures
            c.is(
                "browser"@,
                Some(
                    object(
                        seq![
                            action_member(BrowserAction::Click),
                            member("selector"@, quoted(selector@)),
                        ] + tab_member(tab_id),
                    ),
                ),
                None,
            ),
    {
        let mut w = start_command(BrowserAction::Click);
        w.string("selector", selector);
        write_tab(&mut w, tab_id);
        assert(w.members() =~= seq![
            action_member(BrowserAction::Click),
            member("selector"@, quoted(selector@)),
        ] + tab_member(tab_id));
        Call::browser_command(w.finish())
    }

    /// Fills the input that `selector` picks with `value`.
    pub fn fill(selector: &str, value: &str, tab_id: Option<u32>) -> (c: Call)
        ensures
            c.is(
                "browser"@,
                Some(
                    object(
                        seq![
                            action_member(BrowserAction::Fill),
                            member("selector"@, quoted(selector@)),
                            member("value"@, quoted(value@)),
                        ] + tab_member(tab_id),
                    ),
                ),
                None,
            ),
    {
        let mut w = start_command(BrowserAction::Fill);
        w.string("selector", selector);
        w.string("value", value);
        write_tab(&mut w, tab_id);
        assert(w.members() =~= seq![
            action_member(BrowserAction::Fill),
            member("selector"@, quoted(selector@)),
            member("value"@, quoted(value@)),
        ] + tab_member(tab_id));
        Call::browser_command(w.finish())
    }

    /// Evaluates JavaScript `code` in a tab.
    pub fn evaluate(code: &str, tab_id: Option<u32>) -> (c: Call)
        ensures
            c.is(
                "browser"@,
                Some(
                    object(
                        seq![action_member(BrowserAction::Evaluate), member("code"@, quoted(code@))]
                            + tab_member(tab_id),
                    ),
                ),
                None,
            ),
    {
        let mut w = start_command(BrowserAction::Evaluate);
        w.string("code", code);
        write_tab(&mut w, tab_id);
        assert(w.members() =~= seq![
            action_member(BrowserAction::Evaluate),
            member("code"@, quoted(code@)),
        ] + tab_member(tab_id));
        Call::browser_command(w.finish())
    }

    /// Takes a screenshot of a tab, of the whole page when asked.
    pub fn screenshot(full_page: Option<bool>, tab_id: Option<u32>) -> (c: Call)
        ensures
            c.is(
                "browser"@,
                Some(
                    object(
                        seq![action_member(BrowserAction::Screenshot)] + optional(
                            match full_page {
                                Some(f) => Some(member("fullPage"@, boolean(f))),
                                None => None,
                            },
                        ) + tab_member(tab_id),
                    ),
                ),
                None,
            ),
    {
        let mut w = start_command(BrowserAction::Screenshot);
        match full_page {
            Some(f) => w.flag("fullPage", f),
            None => {},
        }
        let ghost mid = w.members();
        assert(mid =~= seq![action_member(BrowserAction::Screenshot)] + optional(
            match full_page {
                Some(f) => Some(member("fullPage"@, boolean(f))),
                None => None,
            },
        ));
        write_tab(&mut w, tab_id);
        Call::browser_command(w.finish())
    }

    /// Lists the browser's tabs.
    pub fn get_tabs() -> (c: Call)
        ensures
            c.is("browser"@, Some(object(seq![action_member(BrowserAction::GetTabs)])), None),
    {
        let w = start_command(BrowserAction::GetTabs);
        Call::browser_command(w.finish())
    }
}

} // verus!
