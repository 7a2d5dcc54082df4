//! `[network]`: allow rules as written in the config.

use vstd::prelude::*;
use crate::envmap::EnvMap;
use crate::network::rule::{AuthConfig, NetworkRule, QuotaConfig, WindowDuration};
use crate::strings::{chars_of, push_str, str_eq, string_of};
use super::ConfigError;
use super::merge_strategy::{append, or_default, prefer_some};

verus! {

/// Network isolation configuration (config-file representation).
///
/// Holds raw deserialized types. Call [`ConfigNetworkRule::into_library`]
/// to validate and convert to the library's [`NetworkRule`].
#[derive(Debug, Clone)]
pub struct NetworkConfig {
    /// Allowed hosts/paths. Default-deny: anything not matched is
    /// blocked with HTTP 403.
    pub allow: Vec<ConfigNetworkRule>,
    /// Enable DNS filtering via the mitmproxy DNS listener.
    pub dns: Option<bool>,
}

impl Default for NetworkConfig {
    fn default() -> (r: Self)
        ensures
            r.allow@.len() == 0,
            r.dns is None,
    {
        NetworkConfig { allow: Vec::new(), dns: None }
    }
}

impl NetworkConfig {
    /// Rules: the default's followed by the profile's. `dns`: the profile
    /// value when set, else the default.
    pub fn merge(default: Self, profile: Self) -> (r: Self)
        ensures
            r.allow@ == default.allow@ + profile.allow@,
            r.dns == prefer_some(default.dns, profile.dns),
    {
        let mut allow = default.allow;
        append(&mut allow, profile.allow);
        NetworkConfig { allow, dns: or_default(default.dns, profile.dns) }
    }
}

/// The value `dns` takes when the config file omits it.
pub fn default_dns() -> (r: Option<bool>)
    ensures
        r == Some(true),
{
    Some(true)
}

/// Config-file representation of a single network isolation rule.
///
/// Mirrors [`NetworkRule`] but uses [`ConfigQuotaConfig`] for the
/// quota field (raw string window, validated on conversion).
#[derive(Debug, Clone)]
pub enum ConfigNetworkRule {
    Http {
        host: String,
        path_prefixes: Option<Vec<String>>,
        auth: Option<AuthConfig>,
        headers: EnvMap,
        methods: Option<Vec<String>>,
        quota: Option<ConfigQuotaConfig>,
    },
    Tcp {
        /// The IP address, as text.
        host: String,
        ports: Vec<u16>,
    },
}

impl ConfigNetworkRule {
    /// Validate and convert to a library [`NetworkRule`].
    pub fn into_library(self) -> (r: Result<NetworkRule, ConfigError>)
        ensures
            match self {
                ConfigNetworkRule::Http { host, path_prefixes, auth, headers, methods, quota } => match quota {
                    Some(q) => match quota_outcome(q) {
                        Ok(lq) => r == Ok::<NetworkRule, ConfigError>(
                            NetworkRule::Http { host, path_prefixes, auth, headers, methods, quota: Some(lq) },
                        ),
                        Err(m) => r matches Err(ConfigError::Validation(e)) && e@ == m,
                    },
                    None => r == Ok::<NetworkRule, ConfigError>(
                        NetworkRule::Http { host, path_prefixes, auth, headers, methods, quota: None },
                    ),
                },
                ConfigNetworkRule::Tcp { host, ports } => r == Ok::<NetworkRule, ConfigError>(
                    NetworkRule::Tcp { host, ports },
                ),
            },
    {
        match self {
            ConfigNetworkRule::Http { host, path_prefixes, auth, headers, methods, quota } => {
                let quota = match quota {
                    Some(q) => match q.into_library() {
                        Ok(lq) => Some(lq),
                        Err(e) => return Err(e),
                    },
                    None => None,
                };
                Ok(NetworkRule::Http { host, path_prefixes, auth, headers, methods, quota })
            },
            ConfigNetworkRule::Tcp { host, ports } => Ok(NetworkRule::Tcp { host, ports }),
        }
    }
}

/// Config-file representation of [`QuotaConfig`].
///
/// The `window` field accepts human-readable duration strings like
/// `"1h"`, `"30m"`, `"86400s"`, `"7d"`.
#[derive(Debug, Clone)]
pub struct ConfigQuotaConfig {
    pub max_requests: u64,
    pub window: String,
}

/// The kinds of error `humantime::parse_duration` reports.
#[derive(Debug, Clone, Copy, PartialEq, Eq, Structural)]
pub enum DurationErrorKind {
    InvalidCharacter,
    NumberExpected,
    UnknownUnit,
    NumberOverflow,
    Empty,
}

/// What `humantime::parse_duration` gives for a text: the duration as
/// (seconds, nanoseconds), or the kind of error.
pub uninterp spec fn humantime_duration(s: Seq<char>) -> Result<(u64, u32), DurationErrorKind>;

/// `humantime::parse_duration`: the duration as (whole seconds,
/// sub-second nanoseconds), or the kind of its error. The contract names
/// the result; the parser's grammar is not restated.
///
/// `parse_duration` panics only when the seconds reach `u64::MAX` and the
/// nanoseconds then make up one more second (every other overflow is
/// reported as `NumberOverflow`). Two kinds of text are admitted, on
/// neither of which that can happen: one with at most [`WINDOW_DIGITS`]
/// digits stays far below `u64::MAX` seconds (every span is less than
/// `10^digits` years, and a year is about 3.2e7 seconds); one that names
/// no amount below a second (see [`names_subsecond`]) only ever adds
/// whole seconds, so the nanoseconds stay zero.
#[verifier::external_body]
fn parse_duration_text(s: &str) -> (r: Result<(u64, u32), DurationErrorKind>)
    requires
        digit_count(s@) <= WINDOW_DIGITS || !names_subsecond(s@),
    ensures
        r == humantime_duration(s@),
{
    match humantime::parse_duration(s) {
        Ok(d) => Ok((d.as_secs(), d.subsec_nanos())),
        Err(humantime::DurationError::InvalidCharacter(_)) => Err(DurationErrorKind::InvalidCharacter),
        Err(humantime::DurationError::NumberExpected(_)) => Err(DurationErrorKind::NumberExpected),
        Err(humantime::DurationError::UnknownUnit { .. }) => Err(DurationErrorKind::UnknownUnit),
        Err(humantime::DurationError::NumberOverflow) => Err(DurationErrorKind::NumberOverflow),
        Err(humantime::DurationError::Empty) => Err(DurationErrorKind::Empty),
    }
}

/// The most digits a quota window may have.
pub const WINDOW_DIGITS: usize = 11;

/// How many of the characters are ASCII digits.
pub open spec fn digit_count(s: Seq<char>) -> nat
    decreases s.len(),
{
    if s.len() == 0 {
        0
    } else {
        digit_count(s.drop_last()) + if '0' <= s.last() && s.last() <= '9' {
            1nat
        } else {
            0nat
        }
    }
}

fn count_digits(s: &str) -> (n: usize)
    ensures
        n == digit_count(s@),
{
    let v = chars_of(s);
    let mut n: usize = 0;
    let mut i: usize = 0;
    while i < v.len()
        invariant
            i <= v@.len(),
            v@ == s@,
            n == digit_count(v@.take(i as int)),
            n <= i,
        decreases v@.len() - i,
    {
        assert(v@.take(i + 1).drop_last() =~= v@.take(i as int));
        if '0' <= v[i] && v[i] <= '9' {
            n = n + 1;
        }
        i = i + 1;
    }
    assert(v@.take(v@.len() as int) =~= v@);
    n
}

/// A character `humantime` reads as part of a unit name.
pub open spec fn unit_letter(c: char) -> bool {
    ('a' <= c && c <= 'z') || ('A' <= c && c <= 'Z') || c == '\u{b5}'
}

/// The unit names `humantime` reads as nanoseconds, microseconds or
/// milliseconds.
pub open spec fn subsecond_unit(w: Seq<char>) -> bool {
    ||| w == "ns"@
    ||| w == "nsec"@
    ||| w == "nanos"@
    ||| w == "us"@
    ||| w == "usec"@
    ||| w == "\u{b5}s"@
    ||| w == "ms"@
    ||| w == "msec"@
    ||| w == "millis"@
}

/// `s[i..j]` is a whole run of unit letters.
pub open spec fn letter_run(s: Seq<char>, i: int, j: int) -> bool {
    &&& 0 <= i < j <= s.len()
    &&& (i == 0 || !unit_letter(s[i - 1]))
    &&& (j == s.len() || !unit_letter(s[j]))
    &&& forall|k: int| i <= k < j ==> #[trigger] unit_letter(s[k])
}

/// The text may name an amount below a second: it has a decimal point, or
/// a unit name of nanoseconds, microseconds or milliseconds.
pub open spec fn names_subsecond(s: Seq<char>) -> bool {
    ||| s.contains('.')
    ||| exists|i: int, j: int| #[trigger] letter_run(s, i, j) && subsecond_unit(s.subrange(i, j))
}

/// Two runs of unit letters that start at the same place are the same.
proof fn lemma_run_end_unique(s: Seq<char>, i: int, j1: int, j2: int)
    requires
        letter_run(s, i, j1),
        letter_run(s, i, j2),
    ensures
        j1 == j2,
{
    if j1 < j2 {
        assert(unit_letter(s[j1]));
    } else if j2 < j1 {
        assert(unit_letter(s[j2]));
    }
}

fn is_unit_letter(c: char) -> (r: bool)
    ensures
        r == unit_letter(c),
{
    ('a' <= c && c <= 'z') || ('A' <= c && c <= 'Z') || c == '\u{b5}'
}

fn is_subsecond_unit(w: &Vec<char>) -> (r: bool)
    ensures
        r == subsecond_unit(w@),
{
    let t = string_of(w);
    str_eq(t.as_str(), "ns") || str_eq(t.as_str(), "nsec") || str_eq(t.as_str(), "nanos") || str_eq(
        t.as_str(),
        "us",
    ) || str_eq(t.as_str(), "usec") || str_eq(t.as_str(), "\u{b5}s") || str_eq(t.as_str(), "ms") || str_eq(
        t.as_str(),
        "msec",
    ) || str_eq(t.as_str(), "millis")
}

/// Whether the text may name an amount below a second (see
/// [`names_subsecond`]).
fn may_name_subsecond(s: &str) -> (r: bool)
    ensures
        r == names_subsecond(s@),
{
    let v = chars_of(s);
    let n = v.len();
    let mut i: usize = 0;
    while i < n
        invariant
            v@ == s@,
            n == v@.len(),
            i <= n,
            forall|k: int| 0 <= k < i ==> v@[k] != '.',
            forall|a: int, b: int| #[trigger] letter_run(v@, a, b) && a < i ==> !subsecond_unit(v@.subrange(a, b)),
        decreases n - i,
    {
        if v[i] == '.' {
            assert(s@.contains('.')) by {
                assert(s@[i as int] == '.');
            }
            return true;
        }
        let starts = is_unit_letter(v[i]) && (i == 0 || !is_unit_letter(v[i - 1]));
        if starts {
            let mut j: usize = i + 1;
            while j < n && is_unit_letter(v[j])
                invariant
                    i < j <= n,
                    n == v@.len(),
                    forall|k: int| i <= k < j ==> #[trigger] unit_letter(v@[k]),
                decreases n - j,
            {
                j = j + 1;
            }
            let w = crate::strings::slice_chars(&v, i, j);
            assert(letter_run(v@, i as int, j as int));
            if is_subsecond_unit(&w) {
                assert(w@ == v@.subrange(i as int, j as int));
                return true;
            }
            proof {
                assert forall|a: int, b: int| #[trigger] letter_run(v@, a, b) && a < i + 1 implies !subsecond_unit(
                    v@.subrange(a, b),
                ) by {
                    if a == i {
                        lemma_run_end_unique(v@, a, b, j as int);
                    }
                }
            }
        } else {
            proof {
                assert forall|a: int, b: int| #[trigger] letter_run(v@, a, b) && a < i + 1 implies !subsecond_unit(
                    v@.subrange(a, b),
                ) by {
                    if a == i {
                        assert(unit_letter(v@[a]));
                    }
                }
            }
        }
        i = i + 1;
    }
    proof {
        assert(!s@.contains('.'));
        assert forall|a: int, b: int| #[trigger] letter_run(s@, a, b) implies !subsecond_unit(s@.subrange(a, b)) by {}
    }
    false
}

/// What parsing a quota window gives: a window that has more than
/// [`WINDOW_DIGITS`] digits and may name an amount below a second is
/// refused as a number overflow (the parser could panic on it); any other
/// is what `humantime::parse_duration` gives.
pub open spec fn window_parse(s: Seq<char>) -> Result<(u64, u32), DurationErrorKind> {
    if digit_count(s) > WINDOW_DIGITS && names_subsecond(s) {
        Err(DurationErrorKind::NumberOverflow)
    } else {
        humantime_duration(s)
    }
}

/// Parse a quota window (see [`window_parse`]).
pub fn parse_window(s: &str) -> (r: Result<(u64, u32), DurationErrorKind>)
    ensures
        r == window_parse(s@),
{
    if count_digits(s) > WINDOW_DIGITS && may_name_subsecond(s) {
        Err(DurationErrorKind::NumberOverflow)
    } else {
        parse_duration_text(s)
    }
}

/// The validation message for a window that failed to parse.
pub open spec fn window_error_message(kind: DurationErrorKind, window: Seq<char>) -> Seq<char> {
    match kind {
        DurationErrorKind::UnknownUnit => "unknown window suffix in '"@ + window + "'"@,
        _ => "invalid window '"@ + window + "'"@,
    }
}

/// The outcome of validating a quota given the parser's result for its
/// window: `max_requests` must be positive, the window must parse, and it
/// must be at least one second.
pub open spec fn quota_from_parsed(
    max_requests: u64,
    window: Seq<char>,
    parsed: Result<(u64, u32), DurationErrorKind>,
) -> Result<QuotaConfig, Seq<char>> {
    if max_requests == 0 {
        Err("max_requests must be > 0"@)
    } else {
        match parsed {
            Err(kind) => Err(window_error_message(kind, window)),
            Ok((secs, nanos)) => if secs == 0 {
                Err("window must be at least one second"@)
            } else {
                Ok(QuotaConfig { max_requests, window: WindowDuration { secs, nanos } })
            },
        }
    }
}

/// The outcome of validating a config quota.
pub open spec fn quota_outcome(q: ConfigQuotaConfig) -> Result<QuotaConfig, Seq<char>> {
    quota_from_parsed(q.max_requests, q.window@, window_parse(q.window@))
}

/// Validate a quota given the parser's result for its window.
pub fn quota_from_parsed_window(
    max_requests: u64,
    window: &str,
    parsed: Result<(u64, u32), DurationErrorKind>,
) -> (r: Result<QuotaConfig, ConfigError>)
    ensures
        match quota_from_parsed(max_requests, window@, parsed) {
            Ok(q) => r == Ok::<QuotaConfig, ConfigError>(q),
            Err(m) => r matches Err(ConfigError::Validation(e)) && e@ == m,
        },
{
    if max_requests == 0 {
        let mut v = Vec::new();
        push_str(&mut v, "max_requests must be > 0");
        return Err(ConfigError::Validation(string_of(&v)));
    }
    match parsed {
        Err(kind) => {
            let mut v = Vec::new();
            match kind {
                DurationErrorKind::UnknownUnit => {
                    push_str(&mut v, "unknown window suffix in '");
                },
                _ => {
                    push_str(&mut v, "invalid window '");
                },
            }
            push_str(&mut v, window);
            push_str(&mut v, "'");
            Err(ConfigError::Validation(string_of(&v)))
        },
        Ok((secs, nanos)) => {
            if secs == 0 {
                let mut v = Vec::new();
                push_str(&mut v, "window must be at least one second");
                Err(ConfigError::Validation(string_of(&v)))
            } else {
                Ok(QuotaConfig { max_requests, window: WindowDuration { secs, nanos } })
            }
        },
    }
}

impl ConfigQuotaConfig {
    /// Validate and convert to a library [`QuotaConfig`].
    pub fn into_library(self) -> (r: Result<QuotaConfig, ConfigError>)
        ensures
            match quota_outcome(self) {
                Ok(q) => r == Ok::<QuotaConfig, ConfigError>(q),
                Err(m) => r matches Err(ConfigError::Validation(e)) && e@ == m,
            },
    {
        let parsed = parse_window(self.window.as_str());
        quota_from_parsed_window(self.max_requests, self.window.as_str(), parsed)
    }
}

} // verus!
