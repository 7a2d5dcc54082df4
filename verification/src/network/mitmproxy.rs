//! The per-instance mitmdump proxy: its command line, its files, the
//! allowlist it is sent and the CA certificate it answers with.
//!
//! Spawning mitmdump and talking to it over the config socket is the
//! caller's business; this module decides what is sent and how the answer
//! is read.

use vstd::prelude::*;
use crate::envmap::EnvMap;
use crate::network::params::{DNS_PORT, PROXY_PORT};
use crate::network::rule::{AuthConfig, NetworkRule, QuotaConfig};
use crate::order::{lemma_sorted_unique, lemma_text_order, sorted_by, text_order};
use crate::path::{join, join_path};
use crate::secrets::SecretError;
use crate::strings::{
    chars_of, decimal, decimal_chars, owned, push_chars, push_str, string_of, strings_view,
};

verus! {

// ---------------------------------------------------------------------------
// Outside functions
// ---------------------------------------------------------------------------

/// A lowercase hexadecimal digit.
pub open spec fn hex_digit(n: int) -> char {
    if n < 10 {
        (('0' as int) + n) as char
    } else {
        (('a' as int) + n - 10) as char
    }
}

/// How `serde_json` writes one character inside a string literal: `"` and
/// `\` after a backslash, the short escapes `\b \t \n \f \r`, other
/// control characters as `\u00XX` (lowercase hex), anything else as is.
pub open spec fn json_char(c: char) -> Seq<char> {
    if c == '"' {
        seq!['\\', '"']
    } else if c == '\\' {
        seq!['\\', '\\']
    } else if c == '\x08' {
        seq!['\\', 'b']
    } else if c == '\t' {
        seq!['\\', 't']
    } else if c == '\n' {
        seq!['\\', 'n']
    } else if c == '\x0c' {
        seq!['\\', 'f']
    } else if c == '\r' {
        seq!['\\', 'r']
    } else if (c as int) < 0x20 {
        seq!['\\', 'u', '0', '0', hex_digit((c as int) / 16), hex_digit((c as int) % 16)]
    } else {
        seq![c]
    }
}

/// The characters of a string, each written as in a JSON string literal.
pub open spec fn json_escaped(s: Seq<char>) -> Seq<char>
    decreases s.len(),
{
    if s.len() == 0 {
        Seq::empty()
    } else {
        json_escaped(s.drop_last()) + json_char(s.last())
    }
}

/// What `serde_json` writes for a string: the JSON string literal.
pub open spec fn json_quoted(s: Seq<char>) -> Seq<char> {
    seq!['"'] + json_escaped(s) + seq!['"']
}

/// What `str::to_lowercase` gives.
pub uninterp spec fn lowercased(s: Seq<char>) -> Seq<char>;

/// The field `key` of a JSON answer read as a JSON object: `None` when the
/// bytes are not JSON, `Some(None)` when the field is missing or not a
/// string, else `Some(Some(text))`.
pub uninterp spec fn json_string_field(response: Seq<u8>, key: Seq<char>) -> Option<Option<Seq<char>>>;

/// `serde_json::to_string` on a string: the JSON string literal (see
/// [`json_quoted`]). Serializing a string into memory does not fail: the
/// text is written to a `Vec`, which takes every write.
#[verifier::external_body]
fn json_string(s: &str) -> (r: Result<String, serde_json::Error>)
    ensures
        match r {
            Ok(t) => t@ == json_quoted(s@),
            Err(_) => false,
        },
{
    serde_json::to_string(s)
}

/// `str::to_lowercase`.
#[verifier::external_body]
fn lowercase(s: &str) -> (r: String)
    ensures
        r@ == lowercased(s@),
{
    s.to_lowercase()
}

/// The error `serde_json` reports.
#[verifier::external_type_specification]
#[verifier::external_body]
pub struct ExJsonError(serde_json::Error);

/// `serde_json::from_slice` into a JSON value, then indexing it by `key`
/// and `Value::as_str`: the error, or the field's text when it is a string.
#[verifier::external_body]
fn string_field(response: &[u8], key: &str) -> (r: Result<Option<String>, serde_json::Error>)
    ensures
        match r {
            Ok(Some(s)) => json_string_field(response@, key@) == Some(Some(s@)),
            Ok(None) => json_string_field(response@, key@) == Some(None::<Seq<char>>),
            Err(_) => json_string_field(response@, key@) is None,
        },
{
    serde_json::from_slice::<serde_json::Value>(response).map(|v| v[key].as_str().map(|t| t.to_string()))
}

/// The text of a `serde_json` error.
#[verifier::external_body]
fn json_error_text(e: &serde_json::Error) -> (r: String) {
    e.to_string()
}

// ---------------------------------------------------------------------------
// Errors
// ---------------------------------------------------------------------------

/// Errors that can occur when starting or running mitmdump.
#[derive(Debug)]
pub enum MitmProxyError {
    /// An I/O error with context describing the operation that failed.
    Io { context: String, source: String },
    /// A secret resolution error.
    Secret(SecretError),
    /// JSON serialization or deserialization error.
    Json(serde_json::Error),
    /// A required environment variable is not set.
    MissingEnv { var: &'static str },
    /// mitmdump did not connect to the config socket in time.
    Timeout { log_path: String },
    /// mitmdump's response did not contain a valid CA certificate.
    CaCert { reason: &'static str },
}

impl MitmProxyError {
    /// The error text.
    pub fn message(&self) -> (r: String)
        ensures
            match self {
                MitmProxyError::Io { context, source } => r@ == context@ + ": "@ + source@,
                MitmProxyError::MissingEnv { var } => r@ == "environment variable "@ + var@
                    + " is not set"@,
                MitmProxyError::Timeout { log_path } => r@
                    == "timed out waiting for mitmdump to connect to config socket; check "@
                    + log_path@,
                MitmProxyError::CaCert { reason } => r@ == "mitmdump did not return a CA certificate: "@
                    + reason@,
                _ => true,
            },
    {
        let mut v = Vec::new();
        match self {
            MitmProxyError::Io { context, source } => {
                push_str(&mut v, context.as_str());
                push_str(&mut v, ": ");
                push_str(&mut v, source.as_str());
            },
            MitmProxyError::Secret(e) => {
                let m = e.message();
                push_str(&mut v, m.as_str());
            },
            MitmProxyError::Json(e) => {
                let m = json_error_text(e);
                push_str(&mut v, m.as_str());
            },
            MitmProxyError::MissingEnv { var } => {
                push_str(&mut v, "environment variable ");
                push_str(&mut v, var);
                push_str(&mut v, " is not set");
            },
            MitmProxyError::Timeout { log_path } => {
                push_str(&mut v, "timed out waiting for mitmdump to connect to config socket; check ");
                push_str(&mut v, log_path.as_str());
            },
            MitmProxyError::CaCert { reason } => {
                push_str(&mut v, "mitmdump did not return a CA certificate: ");
                push_str(&mut v, reason);
            },
        }
        string_of(&v)
    }
}

// ---------------------------------------------------------------------------
// Files and command line
// ---------------------------------------------------------------------------

/// `$HOME`, empty when unset.
pub open spec fn home_text(home: Option<String>) -> Seq<char> {
    match home {
        Some(h) => h@,
        None => Seq::<char>::empty(),
    }
}

/// `$XDG_STATE_HOME`, else `<$HOME>/.local/state` (with an unset `HOME`
/// taken as empty).
pub fn state_dir(xdg_state_home: &Option<String>, home: &Option<String>) -> (r: String)
    ensures
        r@ == match xdg_state_home {
            Some(s) => s@,
            None => home_text(*home) + "/.local/state"@,
        },
{
    match xdg_state_home {
        Some(s) => s.clone(),
        None => {
            let mut v = Vec::new();
            match home {
                Some(h) => push_str(&mut v, h.as_str()),
                None => {},
            }
            push_str(&mut v, "/.local/state");
            proof {
                reveal_strlit("");
            }
            string_of(&v)
        },
    }
}

/// `prefix`, `name` and `suffix` run together.
fn named(prefix: &str, name: &str, suffix: &str) -> (r: String)
    ensures
        r@ == prefix@ + name@ + suffix@,
{
    let mut v = Vec::new();
    push_str(&mut v, prefix);
    push_str(&mut v, name);
    push_str(&mut v, suffix);
    string_of(&v)
}

/// mitmdump's certificate store: `<runtime dir>/celily-mitmproxy-<bridge>`.
pub fn confdir(runtime_dir: &str, bridge_name: &str) -> (r: String)
    ensures
        r@ == join(runtime_dir@, "celily-mitmproxy-"@ + bridge_name@),
{
    let leaf = named("celily-mitmproxy-", bridge_name, "");
    proof {
        reveal_strlit("");
    }
    join_path(runtime_dir, leaf.as_str())
}

/// The log directory: `<state dir>/celily/logs`.
pub fn log_dir(state_dir: &str) -> (r: String)
    ensures
        r@ == join(state_dir@, "celily/logs"@),
{
    join_path(state_dir, "celily/logs")
}

/// mitmdump's log: `<log dir>/mitmdump_<bridge>.log`.
pub fn log_path(log_dir: &str, bridge_name: &str) -> (r: String)
    ensures
        r@ == join(log_dir@, "mitmdump_"@ + bridge_name@ + ".log"@),
{
    let leaf = named("mitmdump_", bridge_name, ".log");
    join_path(log_dir, leaf.as_str())
}

/// The config socket: `<runtime dir>/celily/mitmproxy-<bridge>.sock`.
pub fn socket_path(runtime_dir: &str, bridge_name: &str) -> (r: String)
    ensures
        r@ == join(runtime_dir@, "celily/mitmproxy-"@ + bridge_name@ + ".sock"@),
{
    let leaf = named("celily/mitmproxy-", bridge_name, ".sock");
    join_path(runtime_dir, leaf.as_str())
}

/// mitmdump's arguments: an HTTP proxy and a DNS listener on the gateway
/// address, the certificate store, the celily addon and detailed flows.
pub fn mitmdump_args(gateway_ip: &str, confdir: &str) -> (r: Vec<String>)
    ensures
        strings_view(r@) == seq![
            "--mode"@,
            "regular@"@ + gateway_ip@ + ":"@ + decimal(PROXY_PORT as nat),
            "--mode"@,
            "dns@"@ + gateway_ip@ + ":"@ + decimal(DNS_PORT as nat),
            "--set"@,
            "confdir="@ + confdir@,
            "--scripts"@,
            "/usr/share/celily/celily-mitmproxy.py"@,
            "--flow-detail"@,
            "2"@,
        ],
{
    let mut regular = Vec::new();
    push_str(&mut regular, "regular@");
    push_str(&mut regular, gateway_ip);
    push_str(&mut regular, ":");
    let p = decimal_chars(PROXY_PORT as u64);
    push_chars(&mut regular, &p);
    let mut dns = Vec::new();
    push_str(&mut dns, "dns@");
    push_str(&mut dns, gateway_ip);
    push_str(&mut dns, ":");
    let d = decimal_chars(DNS_PORT as u64);
    push_chars(&mut dns, &d);
    let mut r = Vec::new();
    r.push(owned("--mode"));
    r.push(string_of(&regular));
    r.push(owned("--mode"));
    r.push(string_of(&dns));
    r.push(owned("--set"));
    r.push(named("confdir=", confdir, ""));
    r.push(owned("--scripts"));
    r.push(owned("/usr/share/celily/celily-mitmproxy.py"));
    r.push(owned("--flow-detail"));
    r.push(owned("2"));
    proof {
        reveal_strlit("");
    }
    assert(strings_view(r@) =~= seq![
        "--mode"@,
        "regular@"@ + gateway_ip@ + ":"@ + decimal(PROXY_PORT as nat),
        "--mode"@,
        "dns@"@ + gateway_ip@ + ":"@ + decimal(DNS_PORT as nat),
        "--set"@,
        "confdir="@ + confdir@,
        "--scripts"@,
        "/usr/share/celily/celily-mitmproxy.py"@,
        "--flow-detail"@,
        "2"@,
    ]);
    r
}

// ---------------------------------------------------------------------------
// Secrets
// ---------------------------------------------------------------------------

/// The secret names the rules' `auth` sections use, in order.
pub open spec fn auth_secret_names(rules: Seq<NetworkRule>) -> Seq<Seq<char>>
    decreases rules.len(),
{
    if rules.len() == 0 {
        Seq::empty()
    } else {
        auth_secret_names(rules.drop_last()) + match rules.last() {
            NetworkRule::Http { auth: Some(a), .. } => seq![a.secret@],
            _ => Seq::empty(),
        }
    }
}

/// Each element once, where it first occurs.
pub open spec fn first_occurrences(s: Seq<Seq<char>>) -> Seq<Seq<char>>
    decreases s.len(),
{
    if s.len() == 0 {
        s
    } else {
        let init = s.drop_last();
        first_occurrences(init) + if init.contains(s.last()) {
            Seq::empty()
        } else {
            seq![s.last()]
        }
    }
}

/// Each secret is resolved once: the names to resolve repeat none and
/// are exactly the names the rules use.
pub proof fn law_secrets_resolved_once(s: Seq<Seq<char>>)
    ensures
        first_occurrences(s).no_duplicates(),
        first_occurrences(s).to_set() == s.to_set(),
    decreases s.len(),
{
    lemma_first_occurrences_set(s);
    if s.len() > 0 {
        let init = s.drop_last();
        law_secrets_resolved_once(init);
        lemma_first_occurrences_set(init);
        if !init.contains(s.last()) {
            let f = first_occurrences(init);
            let g = first_occurrences(s);
            assert(g =~= f.push(s.last()));
            assert(!f.contains(s.last())) by {
                if f.contains(s.last()) {
                    assert(f.to_set().contains(s.last()));
                    assert(init.to_set().contains(s.last()));
                }
            }
            assert forall|i: int, j: int| 0 <= i < g.len() && 0 <= j < g.len() && i != j implies g[i] != g[j] by {
                if i < f.len() && j < f.len() {
                    assert(g[i] == f[i] && g[j] == f[j]);
                } else if i < f.len() {
                    assert(g[i] == f[i]);
                } else if j < f.len() {
                    assert(g[j] == f[j]);
                }
            }
        } else {
            assert(first_occurrences(s) =~= first_occurrences(init));
        }
    }
}

proof fn lemma_first_occurrences_set(s: Seq<Seq<char>>)
    ensures
        first_occurrences(s).to_set() == s.to_set(),
    decreases s.len(),
{
    if s.len() > 0 {
        let init = s.drop_last();
        lemma_first_occurrences_set(init);
        assert(s =~= init.push(s.last()));
        init.lemma_push_to_set_commute(s.last());
        if init.contains(s.last()) {
            assert(first_occurrences(s) =~= first_occurrences(init));
            assert(init.to_set().insert(s.last()) =~= init.to_set());
        } else {
            assert(first_occurrences(s) =~= first_occurrences(init).push(s.last()));
            first_occurrences(init).lemma_push_to_set_commute(s.last());
        }
    }
}

/// The secrets to resolve: each name the rules' `auth` sections use,
/// once, in the order of first use.
pub fn secrets_to_resolve(rules: &Vec<NetworkRule>) -> (r: Vec<String>)
    ensures
        strings_view(r@) == first_occurrences(auth_secret_names(rules@)),
{
    let mut r: Vec<String> = Vec::new();
    let mut i: usize = 0;
    while i < rules.len()
        invariant
            i <= rules@.len(),
            strings_view(r@) == first_occurrences(auth_secret_names(rules@.take(i as int))),
        decreases rules@.len() - i,
    {
        let ghost names = auth_secret_names(rules@.take(i as int));
        proof {
            assert(rules@.take(i + 1).drop_last() =~= rules@.take(i as int));
            lemma_first_occurrences_set(names);
        }
        match &rules[i] {
            NetworkRule::Http { auth: Some(a), .. } => {
                let ghost all = auth_secret_names(rules@.take(i + 1));
                assert(all == names.push(a.secret@)) by {
                    assert(all =~= names + seq![a.secret@]);
                }
                let mut seen = false;
                let mut j: usize = 0;
                while j < r.len()
                    invariant_except_break
                        !seen,
                    invariant
                        j <= r@.len(),
                        forall|k: int| 0 <= k < j ==> r@[k]@ != a.secret@,
                    ensures
                        seen ==> j < r@.len() && r@[j as int]@ == a.secret@,
                        !seen ==> forall|k: int| 0 <= k < r@.len() ==> r@[k]@ != a.secret@,
                    decreases r@.len() - j,
                {
                    if crate::strings::str_eq(r[j].as_str(), a.secret.as_str()) {
                        seen = true;
                        break;
                    }
                    j = j + 1;
                }
                proof {
                    assert(all.drop_last() =~= names);
                    assert(all.last() == a.secret@);
                    if seen {
                        assert(strings_view(r@)[j as int] == a.secret@);
                        assert(strings_view(r@).to_set().contains(a.secret@));
                        assert(names.contains(a.secret@));
                    } else {
                        assert(!strings_view(r@).contains(a.secret@)) by {
                            if strings_view(r@).contains(a.secret@) {
                                let k = choose|k: int| 0 <= k < r@.len() && strings_view(r@)[k] == a.secret@;
                                assert(r@[k]@ == a.secret@);
                            }
                        }
                        assert(!strings_view(r@).to_set().contains(a.secret@));
                        assert(!names.contains(a.secret@));
                    }
                }
                if !seen {
                    let ghost before = r@;
                    r.push(a.secret.clone());
                    assert(strings_view(r@) =~= strings_view(before).push(a.secret@));
                }
            },
            _ => {
                proof {
                    assert(auth_secret_names(rules@.take(i + 1)) =~= names);
                }
            },
        }
        i = i + 1;
    }
    assert(rules@.take(rules@.len() as int) =~= rules@);
    r
}

/// Without a secret provider, the first secret the rules use cannot be
/// resolved.
pub fn require_provider(names: &Vec<String>, has_provider: bool) -> (r: Result<(), SecretError>)
    ensures
        match r {
            Ok(()) => has_provider || names@.len() == 0,
            Err(e) => !has_provider && names@.len() > 0 && (e matches SecretError::NoProvider { secret }
                && secret@ == names@[0]@),
        },
{
    if !has_provider && names.len() > 0 {
        Err(SecretError::NoProvider { secret: names[0].clone() })
    } else {
        Ok(())
    }
}

// ---------------------------------------------------------------------------
// The allowlist sent to mitmdump
// ---------------------------------------------------------------------------

/// Parts joined with `,`.
pub open spec fn join_commas(parts: Seq<Seq<char>>) -> Seq<char>
    decreases parts.len(),
{
    if parts.len() == 0 {
        Seq::empty()
    } else if parts.len() == 1 {
        parts[0]
    } else {
        join_commas(parts.drop_last()) + ","@ + parts.last()
    }
}

/// A JSON object with the given (already written) members.
pub open spec fn json_object(members: Seq<Seq<char>>) -> Seq<char> {
    "{"@ + join_commas(members) + "}"@
}

/// A JSON array of the given (already written) values.
pub open spec fn json_list(values: Seq<Seq<char>>) -> Seq<char> {
    "["@ + join_commas(values) + "]"@
}

/// A JSON array of strings.
pub open spec fn json_strings(items: Seq<Seq<char>>) -> Seq<char> {
    json_list(Seq::new(items.len(), |i: int| json_quoted(items[i])))
}

/// An object member: the key as a JSON string, `:`, the value.
pub open spec fn member(key: Seq<char>, value: Seq<char>) -> Seq<char> {
    json_quoted(key) + ":"@ + value
}

/// The keys of a map in text order, as a JSON object (a `BTreeMap`) lists
/// them.
pub open spec fn sorted_keys_of(m: Map<Seq<char>, Seq<char>>) -> Seq<Seq<char>> {
    choose|ks: Seq<Seq<char>>| sorted_by(ks, text_order()) && ks.to_set() == m.dom()
}

/// A map of strings as a JSON object.
pub open spec fn json_map(m: Map<Seq<char>, Seq<char>>) -> Seq<char> {
    let ks = sorted_keys_of(m);
    json_object(Seq::new(ks.len(), |i: int| member(ks[i], json_quoted(m[ks[i]]))))
}

/// The header value injected for an `auth` section: the prefix, if any,
/// then the resolved secret.
pub open spec fn auth_value(a: AuthConfig, secrets: Map<Seq<char>, Seq<char>>) -> Seq<char> {
    match a.prefix {
        Some(p) => p@ + secrets[a.secret@],
        None => secrets[a.secret@],
    }
}

/// The `auth` member, when there is an `auth` section.
pub open spec fn auth_part(auth: Option<AuthConfig>, secrets: Map<Seq<char>, Seq<char>>) -> Seq<Seq<char>> {
    match auth {
        Some(a) => seq![
            member(
                "auth"@,
                json_object(
                    seq![member("header"@, json_quoted(a.header@)), member("value"@, json_quoted(auth_value(a, secrets)))],
                ),
            ),
        ],
        None => Seq::empty(),
    }
}

/// The `headers` member, when there are headers.
pub open spec fn headers_part(headers: EnvMap) -> Seq<Seq<char>> {
    if headers@.dom().len() > 0 {
        seq![member("headers"@, json_map(headers@))]
    } else {
        Seq::empty()
    }
}

/// The `methods` member, when the rule restricts its methods: without it
/// every method is allowed.
pub open spec fn methods_part(methods: Option<Vec<String>>) -> Seq<Seq<char>> {
    match methods {
        Some(ms) => seq![member("methods"@, json_strings(strings_view(ms@)))],
        None => Seq::empty(),
    }
}

/// The `path_prefixes` member, when there are some.
pub open spec fn paths_part(path_prefixes: Option<Vec<String>>) -> Seq<Seq<char>> {
    match path_prefixes {
        Some(ps) => if ps@.len() > 0 {
            seq![member("path_prefixes"@, json_strings(strings_view(ps@)))]
        } else {
            Seq::empty()
        },
        None => Seq::empty(),
    }
}

/// The `quota` member, when there is a quota: its window in whole seconds.
pub open spec fn quota_part(quota: Option<QuotaConfig>) -> Seq<Seq<char>> {
    match quota {
        Some(q) => seq![
            member(
                "quota"@,
                json_object(
                    seq![
                        member("max_requests"@, decimal(q.max_requests as nat)),
                        member("window_seconds"@, decimal(q.window.secs as nat)),
                    ],
                ),
            ),
        ],
        None => Seq::empty(),
    }
}

/// The members of an HTTP rule's object, in key order: `auth` (when
/// present), `headers` (when any), `host` (lowercased), `methods` (when
/// set; none means every method), `path_prefixes` (when present and not empty),
/// `quota` (when present, its window in whole seconds).
pub open spec fn http_members(
    host: String,
    path_prefixes: Option<Vec<String>>,
    auth: Option<AuthConfig>,
    headers: EnvMap,
    methods: Option<Vec<String>>,
    quota: Option<QuotaConfig>,
    secrets: Map<Seq<char>, Seq<char>>,
) -> Seq<Seq<char>> {
    auth_part(auth, secrets) + headers_part(headers) + seq![member("host"@, json_quoted(lowercased(host@)))]
        + methods_part(methods) + paths_part(path_prefixes) + quota_part(quota)
}

/// The allowlist entries: one object per HTTP rule, in order (TCP rules
/// are enforced by the bridge, not the proxy).
pub open spec fn allow_entries(rules: Seq<NetworkRule>, secrets: Map<Seq<char>, Seq<char>>) -> Seq<Seq<char>>
    decreases rules.len(),
{
    if rules.len() == 0 {
        Seq::empty()
    } else {
        allow_entries(rules.drop_last(), secrets) + match rules.last() {
            NetworkRule::Http { host, path_prefixes, auth, headers, methods, quota } => seq![
                json_object(http_members(host, path_prefixes, auth, headers, methods, quota, secrets)),
            ],
            NetworkRule::Tcp { .. } => Seq::empty(),
        }
    }
}

/// The members `"header":<header>,"value":<value>`.
pub open spec fn header_and_value(header: Seq<char>, value: Seq<char>) -> Seq<Seq<char>> {
    seq![member("header"@, json_quoted(header)), member("value"@, json_quoted(value))]
}

/// What an HTTP rule's entry holds: its lowercased host always; the
/// `auth` header with the prefix followed by the resolved secret when the
/// rule has an `auth` section; its headers when it has any; its methods
/// when it restricts them; its path prefixes when it has some; its quota
/// (the window in whole seconds) when it has one; and nothing else.
pub proof fn law_http_entry_members(
    host: String,
    path_prefixes: Option<Vec<String>>,
    auth: Option<AuthConfig>,
    headers: EnvMap,
    methods: Option<Vec<String>>,
    quota: Option<QuotaConfig>,
    secrets: Map<Seq<char>, Seq<char>>,
)
    ensures
        ({
            let ms = http_members(host, path_prefixes, auth, headers, methods, quota, secrets);
            let has_paths = path_prefixes matches Some(ps) && ps@.len() > 0;
            let has_headers = headers@.dom().len() > 0;
            &&& ms.len() == 1 + (if auth is Some { 1int } else { 0int }) + (if has_headers { 1int } else { 0int }) + (
            if methods is Some { 1int } else { 0int }) + (if has_paths { 1int } else { 0int }) + (if quota is Some {
                1int
            } else {
                0int
            })
            &&& ms.contains(member("host"@, json_quoted(lowercased(host@))))
            &&& auth matches Some(a) ==> ms.contains(
                member(
                    "auth"@,
                    json_object(
                        header_and_value(
                            a.header@,
                            match a.prefix {
                                Some(p) => p@,
                                None => Seq::empty(),
                            } + secrets[a.secret@],
                        ),
                    ),
                ),
            )
            &&& has_headers ==> ms.contains(member("headers"@, json_map(headers@)))
            &&& methods matches Some(m) ==> ms.contains(member("methods"@, json_strings(strings_view(m@))))
            &&& has_paths ==> ms.contains(member("path_prefixes"@, json_strings(strings_view(path_prefixes->0@))))
            &&& quota matches Some(q) ==> ms.contains(
                member(
                    "quota"@,
                    json_object(
                        seq![
                            member("max_requests"@, decimal(q.max_requests as nat)),
                            member("window_seconds"@, decimal(q.window.secs as nat)),
                        ],
                    ),
                ),
            )
        }),
{
    let ap = auth_part(auth, secrets);
    let hp = headers_part(headers);
    let hostm = seq![member("host"@, json_quoted(lowercased(host@)))];
    let mp = methods_part(methods);
    let pp = paths_part(path_prefixes);
    let qp = quota_part(quota);
    let ms = http_members(host, path_prefixes, auth, headers, methods, quota, secrets);
    assert(ms == ap + hp + hostm + mp + pp + qp);
    let i0 = (ap.len() + hp.len()) as int;
    assert(ms[i0] == hostm[0]);
    if let Some(a) = auth {
        let v = match a.prefix {
            Some(p) => p@,
            None => Seq::empty(),
        } + secrets[a.secret@];
        assert(auth_value(a, secrets) =~= v);
        let m = member("auth"@, json_object(header_and_value(a.header@, v)));
        assert(header_and_value(a.header@, v) =~= seq![
            member("header"@, json_quoted(a.header@)),
            member("value"@, json_quoted(auth_value(a, secrets))),
        ]);
        assert(ms[0] == ap[0]);
        assert(ap[0] == m);
        assert(ms.contains(m));
    }
    if headers@.dom().len() > 0 {
        assert(ms[ap.len() as int] == hp[0]);
    }
    if methods is Some {
        assert(ms[i0 + 1] == mp[0]);
    }
    if pp.len() > 0 {
        assert(ms[i0 + 1 + mp.len()] == pp[0]);
    }
    if quota is Some {
        assert(ms[i0 + 1 + mp.len() + pp.len()] == qp[0]);
    }
}

/// The HTTP rules among `rules`, in order.
pub open spec fn http_rules(rules: Seq<NetworkRule>) -> Seq<NetworkRule> {
    rules.filter(|r: NetworkRule| r is Http)
}

/// The JSON object of an HTTP rule: its members (see [`http_members`]),
/// among them its lowercased host.
pub open spec fn http_entry(r: NetworkRule, secrets: Map<Seq<char>, Seq<char>>) -> Seq<char> {
    match r {
        NetworkRule::Http { host, path_prefixes, auth, headers, methods, quota } => json_object(
            http_members(host, path_prefixes, auth, headers, methods, quota, secrets),
        ),
        NetworkRule::Tcp { .. } => Seq::empty(),
    }
}

/// The proxy's allowlist has one entry per HTTP rule, in the rules' order,
/// and nothing for TCP rules; each entry names its rule's host, lowercased.
pub proof fn law_one_entry_per_http_rule(rules: Seq<NetworkRule>, secrets: Map<Seq<char>, Seq<char>>)
    ensures
        allow_entries(rules, secrets).len() == http_rules(rules).len(),
        forall|k: int| 0 <= k < http_rules(rules).len() ==> #[trigger] allow_entries(rules, secrets)[k] == http_entry(
            http_rules(rules)[k],
            secrets,
        ),
        forall|k: int| 0 <= k < http_rules(rules).len() ==> (#[trigger] http_rules(rules)[k] matches NetworkRule::Http {
            host, path_prefixes, auth, headers, methods, quota } && http_members(
            host, path_prefixes, auth, headers, methods, quota, secrets,
        ).contains(member("host"@, json_quoted(lowercased(host@))))),
    decreases rules.len(),
{
    reveal(Seq::filter);
    if rules.len() > 0 {
        let init = rules.drop_last();
        law_one_entry_per_http_rule(init, secrets);
        assert(http_rules(rules) == (if rules.last() is Http {
            http_rules(init).push(rules.last())
        } else {
            http_rules(init)
        }));
        let es = allow_entries(rules, secrets);
        let ei = allow_entries(init, secrets);
        assert forall|k: int| 0 <= k < http_rules(rules).len() implies #[trigger] es[k] == http_entry(
            http_rules(rules)[k],
            secrets,
        ) by {
            if k < http_rules(init).len() {
                assert(es[k] == ei[k]);
                assert(http_rules(rules)[k] == http_rules(init)[k]);
            }
        }
        assert forall|k: int| 0 <= k < http_rules(rules).len() implies (#[trigger] http_rules(rules)[k] matches NetworkRule::Http {
            host, path_prefixes, auth, headers, methods, quota } && http_members(
            host, path_prefixes, auth, headers, methods, quota, secrets,
        ).contains(member("host"@, json_quoted(lowercased(host@))))) by {
            if k < http_rules(init).len() {
                assert(http_rules(rules)[k] == http_rules(init)[k]);
            } else {
                match rules.last() {
                    NetworkRule::Http { host, path_prefixes, auth, headers, methods, quota } => {
                        let ms = http_members(host, path_prefixes, auth, headers, methods, quota, secrets);
                        let i = (auth_part(auth, secrets).len() + headers_part(headers).len()) as int;
                        assert(ms[i] == member("host"@, json_quoted(lowercased(host@))));
                    },
                    _ => {},
                }
            }
        }
    }
}

/// The config sent to mitmdump: `{"allow":[...],"dns":<bool>}`.
pub open spec fn config_json(dns_filter: bool, rules: Seq<NetworkRule>, secrets: Map<Seq<char>, Seq<char>>) -> Seq<char> {
    json_object(
        seq![
            member("allow"@, json_list(allow_entries(rules, secrets))),
            member("dns"@, if dns_filter { "true"@ } else { "false"@ }),
        ],
    )
}

/// Every secret the rules use has been resolved.
pub open spec fn secrets_resolved(rules: Seq<NetworkRule>, secrets: Map<Seq<char>, Seq<char>>) -> bool {
    forall|i: int|
        0 <= i < rules.len() ==> (#[trigger] rules[i] matches NetworkRule::Http { auth: Some(a), .. }
            ==> secrets.dom().contains(a.secret@))
}

/// Appends `parts` joined with `,`.
fn push_joined(v: &mut Vec<char>, parts: &Vec<Vec<char>>)
    ensures
        final(v)@ == old(v)@ + join_commas(Seq::new(parts@.len(), |i: int| parts@[i]@)),
{
    let ghost pv = Seq::new(parts@.len(), |i: int| parts@[i]@);
    let ghost start = v@;
    let mut i: usize = 0;
    while i < parts.len()
        invariant
            i <= parts@.len(),
            pv == Seq::new(parts@.len(), |i: int| parts@[i]@),
            v@ == start + join_commas(pv.take(i as int)),
        decreases parts@.len() - i,
    {
        if i > 0 {
            v.push(',');
        }
        push_chars(v, &parts[i]);
        proof {
            reveal_strlit(",");
            let t = pv.take(i + 1);
            assert(t.drop_last() =~= pv.take(i as int));
            assert(t.last() == parts@[i as int]@);
            if i == 0 {
                assert(join_commas(t) == t[0]);
                assert(pv.take(0) =~= Seq::<Seq<char>>::empty());
            }
            assert(v@ =~= start + join_commas(t));
        }
        i = i + 1;
    }
    assert(pv.take(parts@.len() as int) =~= pv);
}

/// `open`, the parts joined with `,`, then `close`.
fn wrapped(open: char, parts: &Vec<Vec<char>>, close: char) -> (r: Vec<char>)
    ensures
        r@ == seq![open] + join_commas(Seq::new(parts@.len(), |i: int| parts@[i]@)) + seq![close],
{
    let mut v = Vec::new();
    v.push(open);
    push_joined(&mut v, parts);
    v.push(close);
    v
}

/// A JSON string literal.
fn quoted(s: &str) -> (r: Vec<char>)
    ensures
        r@ == json_quoted(s@),
{
    match json_string(s) {
        Ok(q) => chars_of(q.as_str()),
        Err(_) => {
            assert(false);
            Vec::new()
        },
    }
}

/// A member `"key":value`.
fn member_chars(key: &str, value: &Vec<char>) -> (r: Vec<char>)
    ensures
        r@ == member(key@, value@),
{
    let mut v = quoted(key);
    v.push(':');
    push_chars(&mut v, value);
    proof {
        reveal_strlit(":");
        assert(v@ =~= member(key@, value@));
    }
    v
}

/// A JSON array of strings.
fn strings_json(items: &Vec<String>) -> (r: Vec<char>)
    ensures
        r@ == json_strings(strings_view(items@)),
{
    let mut parts: Vec<Vec<char>> = Vec::new();
    let mut i: usize = 0;
    while i < items.len()
        invariant
            i <= items@.len(),
            parts@.len() == i,
            forall|k: int| 0 <= k < i ==> #[trigger] parts@[k]@ == json_quoted(items@[k]@),
        decreases items@.len() - i,
    {
        let q = quoted(items[i].as_str());
        parts.push(q);
        i = i + 1;
    }
    let r = wrapped('[', &parts, ']');
    proof {
        let sv = strings_view(items@);
        assert(Seq::new(parts@.len(), |i: int| parts@[i]@) =~= Seq::new(sv.len(), |i: int| json_quoted(sv[i])));
        reveal_strlit("[");
        reveal_strlit("]");
        assert(r@ =~= json_strings(sv));
    }
    r
}

/// A map of strings as a JSON object, keys in text order.
fn map_json(m: &EnvMap) -> (r: Vec<char>)
    ensures
        r@ == json_map(m@),
{
    let ks = m.sorted_keys();
    proof {
        lemma_text_order();
        let kv = strings_view(ks@);
        let c = sorted_keys_of(m@);
        assert(sorted_by(c, text_order()) && c.to_set() == m@.dom());
        lemma_sorted_unique(kv, c, text_order());
    }
    let mut parts: Vec<Vec<char>> = Vec::new();
    let mut i: usize = 0;
    while i < ks.len()
        invariant
            i <= ks@.len(),
            strings_view(ks@).to_set() == m@.dom(),
            parts@.len() == i,
            forall|k: int|
                0 <= k < i ==> #[trigger] parts@[k]@ == member(ks@[k]@, json_quoted(m@[ks@[k]@])),
        decreases ks@.len() - i,
    {
        proof {
            assert(strings_view(ks@)[i as int] == ks@[i as int]@);
            assert(m@.dom().contains(ks@[i as int]@));
        }
        let value = match m.get(ks[i].as_str()) {
            Some(v) => v,
            None => owned(""),
        };
        let q = quoted(value.as_str());
        let mm = member_chars(ks[i].as_str(), &q);
        parts.push(mm);
        i = i + 1;
    }
    let r = wrapped('{', &parts, '}');
    proof {
        let kv = strings_view(ks@);
        assert(Seq::new(parts@.len(), |i: int| parts@[i]@) =~= Seq::new(
            kv.len(),
            |i: int| member(kv[i], json_quoted(m@[kv[i]])),
        ));
        reveal_strlit("{");
        reveal_strlit("}");
    }
    r
}

/// The written form of a list of members.
pub open spec fn parts_view(v: Seq<Vec<char>>) -> Seq<Seq<char>> {
    Seq::new(v.len(), |i: int| v[i]@)
}

fn auth_member(auth: &Option<AuthConfig>, secrets: &EnvMap) -> (r: Vec<Vec<char>>)
    requires
        auth matches Some(a) ==> secrets@.dom().contains(a.secret@),
    ensures
        parts_view(r@) == auth_part(*auth, secrets@),
{
    let mut r: Vec<Vec<char>> = Vec::new();
    proof {
        reveal_strlit("{");
        reveal_strlit("}");
    }
    match auth {
        Some(a) => {
            let resolved = match secrets.get(a.secret.as_str()) {
                Some(v) => v,
                None => owned(""),
            };
            let mut value = Vec::new();
            match &a.prefix {
                Some(p) => push_str(&mut value, p.as_str()),
                None => {},
            }
            push_str(&mut value, resolved.as_str());
            let value_text = string_of(&value);
            assert(value_text@ == auth_value(*a, secrets@));
            let mut inner: Vec<Vec<char>> = Vec::new();
            inner.push(member_chars("header", &quoted(a.header.as_str())));
            inner.push(member_chars("value", &quoted(value_text.as_str())));
            let obj = wrapped('{', &inner, '}');
            proof {
                let sq = seq![
                    member("header"@, json_quoted(a.header@)),
                    member("value"@, json_quoted(auth_value(*a, secrets@))),
                ];
                assert(parts_view(inner@) =~= sq);
                assert(obj@ =~= json_object(sq));
            }
            r.push(member_chars("auth", &obj));
        },
        None => {},
    }
    assert(parts_view(r@) =~= auth_part(*auth, secrets@));
    r
}

fn headers_member(headers: &EnvMap) -> (r: Vec<Vec<char>>)
    ensures
        parts_view(r@) == headers_part(*headers),
{
    let mut r: Vec<Vec<char>> = Vec::new();
    if headers.len() > 0 {
        let hj = map_json(headers);
        r.push(member_chars("headers", &hj));
    }
    assert(parts_view(r@) =~= headers_part(*headers));
    r
}

fn methods_member(methods: &Option<Vec<String>>) -> (r: Vec<Vec<char>>)
    ensures
        parts_view(r@) == methods_part(*methods),
{
    let mut r: Vec<Vec<char>> = Vec::new();
    if let Some(ms) = methods {
        let j = strings_json(ms);
        r.push(member_chars("methods", &j));
    }
    assert(parts_view(r@) =~= methods_part(*methods));
    r
}

fn paths_member(path_prefixes: &Option<Vec<String>>) -> (r: Vec<Vec<char>>)
    ensures
        parts_view(r@) == paths_part(*path_prefixes),
{
    let mut r: Vec<Vec<char>> = Vec::new();
    match path_prefixes {
        Some(ps) => {
            if ps.len() > 0 {
                let pj = strings_json(ps);
                r.push(member_chars("path_prefixes", &pj));
            }
        },
        None => {},
    }
    assert(parts_view(r@) =~= paths_part(*path_prefixes));
    r
}

fn quota_member(quota: &Option<QuotaConfig>) -> (r: Vec<Vec<char>>)
    ensures
        parts_view(r@) == quota_part(*quota),
{
    let mut r: Vec<Vec<char>> = Vec::new();
    proof {
        reveal_strlit("{");
        reveal_strlit("}");
    }
    match quota {
        Some(q) => {
            let mut inner: Vec<Vec<char>> = Vec::new();
            let mr = decimal_chars(q.max_requests);
            let ws = decimal_chars(q.window.as_secs());
            inner.push(member_chars("max_requests", &mr));
            inner.push(member_chars("window_seconds", &ws));
            let obj = wrapped('{', &inner, '}');
            proof {
                let sq = seq![
                    member("max_requests"@, decimal(q.max_requests as nat)),
                    member("window_seconds"@, decimal(q.window.secs as nat)),
                ];
                assert(parts_view(inner@) =~= sq);
                assert(obj@ =~= json_object(sq));
            }
            r.push(member_chars("quota", &obj));
        },
        None => {},
    }
    assert(parts_view(r@) =~= quota_part(*quota));
    r
}

/// Appends the members of `w`.
fn append_parts(v: &mut Vec<Vec<char>>, w: Vec<Vec<char>>)
    ensures
        parts_view(final(v)@) == parts_view(old(v)@) + parts_view(w@),
{
    let mut w = w;
    let ghost old_v = v@;
    let ghost old_w = w@;
    v.append(&mut w);
    assert(parts_view(v@) =~= parts_view(old_v) + parts_view(old_w));
}

/// An HTTP rule's object (see [`http_members`]).
fn http_object(
    host: &String,
    path_prefixes: &Option<Vec<String>>,
    auth: &Option<AuthConfig>,
    headers: &EnvMap,
    methods: &Option<Vec<String>>,
    quota: &Option<QuotaConfig>,
    secrets: &EnvMap,
) -> (r: Vec<char>)
    requires
        auth matches Some(a) ==> secrets@.dom().contains(a.secret@),
    ensures
        r@ == json_object(
            http_members(*host, *path_prefixes, *auth, *headers, *methods, *quota, secrets@),
        ),
{
    let mut members = auth_member(auth, secrets);
    append_parts(&mut members, headers_member(headers));
    let hl = lowercase(host.as_str());
    let mut host_part: Vec<Vec<char>> = Vec::new();
    host_part.push(member_chars("host", &quoted(hl.as_str())));
    assert(parts_view(host_part@) =~= seq![member("host"@, json_quoted(lowercased(host@)))]);
    append_parts(&mut members, host_part);
    append_parts(&mut members, methods_member(methods));
    append_parts(&mut members, paths_member(path_prefixes));
    append_parts(&mut members, quota_member(quota));
    let r = wrapped('{', &members, '}');
    proof {
        reveal_strlit("{");
        reveal_strlit("}");
        assert(r@ =~= json_object(parts_view(members@)));
    }
    r
}

/// Build the config JSON sent to mitmdump (see [`config_json`]):
/// `auth_secrets` holds the resolved value of every secret the rules use.
pub fn build_config_json(dns_filter: bool, allow: &Vec<NetworkRule>, auth_secrets: &EnvMap) -> (r: String)
    requires
        secrets_resolved(allow@, auth_secrets@),
    ensures
        r@ == config_json(dns_filter, allow@, auth_secrets@),
{
    let mut entries: Vec<Vec<char>> = Vec::new();
    let mut i: usize = 0;
    while i < allow.len()
        invariant
            i <= allow@.len(),
            secrets_resolved(allow@, auth_secrets@),
            Seq::new(entries@.len(), |k: int| entries@[k]@) == allow_entries(allow@.take(i as int), auth_secrets@),
        decreases allow@.len() - i,
    {
        let ghost before = entries@;
        proof {
            assert(allow@.take(i + 1).drop_last() =~= allow@.take(i as int));
            assert(allow@.take(i + 1).last() == allow@[i as int]);
        }
        match &allow[i] {
            NetworkRule::Http { host, path_prefixes, auth, headers, methods, quota } => {
                proof {
                    assert(allow@[i as int] matches NetworkRule::Http { auth: Some(a), .. } ==> auth_secrets@.dom().contains(a.secret@));
                }
                let obj = http_object(host, path_prefixes, auth, headers, methods, quota, auth_secrets);
                entries.push(obj);
                assert(Seq::new(entries@.len(), |k: int| entries@[k]@) =~= Seq::new(before.len(), |k: int| before[k]@).push(
                    json_object(http_members(*host, *path_prefixes, *auth, *headers, *methods, *quota, auth_secrets@)),
                ));
            },
            NetworkRule::Tcp { .. } => {},
        }
        proof {
            assert(Seq::new(entries@.len(), |k: int| entries@[k]@) =~= allow_entries(allow@.take(i + 1), auth_secrets@));
        }
        i = i + 1;
    }
    assert(allow@.take(allow@.len() as int) =~= allow@);
    let list = wrapped('[', &entries, ']');
    proof {
        reveal_strlit("[");
        reveal_strlit("]");
        assert(list@ =~= json_list(allow_entries(allow@, auth_secrets@)));
    }
    let dns = if dns_filter { chars_of("true") } else { chars_of("false") };
    let mut top: Vec<Vec<char>> = Vec::new();
    top.push(member_chars("allow", &list));
    top.push(member_chars("dns", &dns));
    let r = wrapped('{', &top, '}');
    proof {
        reveal_strlit("{");
        reveal_strlit("}");
        reveal_strlit("[");
        reveal_strlit("]");
        assert(Seq::new(top@.len(), |i: int| top@[i]@) =~= seq![
            member("allow"@, json_list(allow_entries(allow@, auth_secrets@))),
            member("dns"@, if dns_filter { "true"@ } else { "false"@ }),
        ]);
    }
    string_of(&r)
}

// ---------------------------------------------------------------------------
// The CA certificate
// ---------------------------------------------------------------------------

/// Read mitmdump's answer, given its `ca_cert` field as parsed: the field
/// must be a non-empty string.
pub fn check_ca_cert(parsed: Result<Option<String>, serde_json::Error>) -> (r: Result<String, MitmProxyError>)
    ensures
        match parsed {
            Err(_) => r matches Err(MitmProxyError::Json(_)),
            Ok(Some(s)) if s@.len() > 0 => r matches Ok(c) && c@ == s@,
            Ok(_) => r matches Err(MitmProxyError::CaCert { reason }) && reason@
                == "response missing 'ca_cert' field"@,
        },
{
    match parsed {
        Err(e) => Err(MitmProxyError::Json(e)),
        Ok(Some(s)) => {
            if s.as_str().is_empty() {
                Err(MitmProxyError::CaCert { reason: "response missing 'ca_cert' field" })
            } else {
                Ok(s)
            }
        },
        Ok(None) => Err(MitmProxyError::CaCert { reason: "response missing 'ca_cert' field" }),
    }
}

/// Read mitmdump's answer: it must not be empty, must be JSON, and must
/// carry a non-empty `ca_cert` string.
pub fn read_ca_cert(response: &[u8]) -> (r: Result<String, MitmProxyError>)
    ensures
        if response@.len() == 0 {
            r matches Err(MitmProxyError::CaCert { reason }) && reason@ == "empty response from mitmdump"@
        } else {
            match json_string_field(response@, "ca_cert"@) {
                None => r matches Err(MitmProxyError::Json(_)),
                Some(Some(s)) if s.len() > 0 => r matches Ok(c) && c@ == s,
                Some(_) => r matches Err(MitmProxyError::CaCert { reason }) && reason@
                    == "response missing 'ca_cert' field"@,
            }
        },
{
    if response.len() == 0 {
        return Err(MitmProxyError::CaCert { reason: "empty response from mitmdump" });
    }
    check_ca_cert(string_field(response, "ca_cert"))
}

/// How mitmdump ended when it was asked to stop.
#[derive(Debug, Clone, Copy, PartialEq, Eq, Structural)]
pub enum ProxyStop {
    /// It had already exited before it was asked.
    AlreadyExited,
    /// It exited after being asked: with status 0, or by a signal.
    Exited { success: bool, signaled: bool },
    /// Waiting for it failed.
    WaitFailed,
}

/// Whether mitmdump's log is kept after it stopped: it is removed only when
/// the proxy ended as asked (status 0, or the terminating signal), so that
/// a log that may explain a failure stays.
pub fn keep_log(s: ProxyStop) -> (r: bool)
    ensures
        r == !(s matches ProxyStop::Exited { success, signaled } && (success || signaled)),
{
    match s {
        ProxyStop::Exited { success, signaled } => !(success || signaled),
        _ => true,
    }
}

} // verus!
