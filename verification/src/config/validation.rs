//! Who may have written the configuration.

use vstd::prelude::*;
use crate::config::ConfigError;
use crate::strings::{decimal, decimal_chars, push_chars, push_str, string_of};

verus! {

/// `n` in octal digits.
pub open spec fn octal(n: nat) -> Seq<char>
    decreases n,
{
    if n < 8 {
        seq![crate::strings::digit(n)]
    } else {
        octal(n / 8) + seq![crate::strings::digit(n % 8)]
    }
}

/// The octal digits of `n`.
pub fn octal_chars(n: u32) -> (r: Vec<char>)
    ensures
        r@ == octal(n as nat),
    decreases n,
{
    if n < 8 {
        let mut v = Vec::new();
        v.push(digit_char(n));
        v
    } else {
        let mut v = octal_chars(n / 8);
        v.push(digit_char(n % 8));
        v
    }
}

fn digit_char(d: u32) -> (c: char)
    requires
        d < 8,
    ensures
        c == crate::strings::digit(d as nat),
{
    match d {
        0 => '0',
        1 => '1',
        2 => '2',
        3 => '3',
        4 => '4',
        5 => '5',
        6 => '6',
        _ => '7',
    }
}

/// A configuration file or directory must belong to the user running
/// celily (`euid`) and grant nothing to group or others (mode bits
/// `0o077` clear): otherwise someone else could have written it.
pub fn check_node_permissions(path: &str, owner: u32, euid: u32, mode: u32) -> (r: Result<(), ConfigError>)
    ensures
        match r {
            Ok(()) => owner == euid && mode & 0o077u32 == 0,
            Err(ConfigError::Validation(m)) => if owner != euid {
                m@ == path@ + " is owned by uid "@ + decimal(owner as nat) + " (expected "@ + decimal(
                    euid as nat,
                ) + "); refusing to load"@
            } else {
                mode & 0o077u32 != 0 && m@ == path@ + " has mode "@ + octal(mode as nat)
                    + "; group/other permissions must not be set"@
            },
            Err(_) => false,
        },
{
    let mut v = Vec::new();
    if owner != euid {
        push_str(&mut v, path);
        push_str(&mut v, " is owned by uid ");
        let a = decimal_chars(owner as u64);
        push_chars(&mut v, &a);
        push_str(&mut v, " (expected ");
        let b = decimal_chars(euid as u64);
        push_chars(&mut v, &b);
        push_str(&mut v, "); refusing to load");
        return Err(ConfigError::Validation(string_of(&v)));
    }
    if mode & 0o077u32 != 0 {
        push_str(&mut v, path);
        push_str(&mut v, " has mode ");
        let o = octal_chars(mode);
        push_chars(&mut v, &o);
        push_str(&mut v, "; group/other permissions must not be set");
        return Err(ConfigError::Validation(string_of(&v)));
    }
    Ok(())
}

/// The global configuration file is missing.
pub fn missing_config(path: &str) -> (r: ConfigError)
    ensures
        r matches ConfigError::Validation(m) && m@ == path@
            + " not found; a config file with distro is required"@,
{
    let mut v = Vec::new();
    push_str(&mut v, path);
    push_str(&mut v, " not found; a config file with distro is required");
    ConfigError::Validation(string_of(&v))
}

/// The global configuration does not name its distribution.
pub fn missing_distro(path: &str) -> (r: ConfigError)
    ensures
        r matches ConfigError::Validation(m) && m@ == path@
            + ": distro is required (e.g. distro = \"arch\")"@,
{
    let mut v = Vec::new();
    push_str(&mut v, path);
    push_str(&mut v, ": distro is required (e.g. distro = \"arch\")");
    ConfigError::Validation(string_of(&v))
}

/// A profile in the inheritance chain has no file.
pub fn missing_profile(name: &str, path: &str) -> (r: ConfigError)
    ensures
        r matches ConfigError::Validation(m) && m@ == "profile '"@ + name@ + "' not found at "@
            + path@,
{
    let mut v = Vec::new();
    push_str(&mut v, "profile '");
    push_str(&mut v, name);
    push_str(&mut v, "' not found at ");
    push_str(&mut v, path);
    ConfigError::Validation(string_of(&v))
}

} // verus!
