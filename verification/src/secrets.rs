//! Secret providers: where `auth.secret` names are looked up.

use vstd::prelude::*;
use crate::command::CommandError;
use crate::envmap::EnvMap;
use crate::strings::{chars_of, owned, push_str, str_eq, string_of, strings_view, trim_end, trim_end_chars};

verus! {

/// Errors that can occur when interacting with a [`SecretProvider`].
#[derive(Debug)]
pub enum SecretError {
    /// An `auth.secret` references a named secret but no provider is
    /// configured.
    NoProvider { secret: String },
    /// The `rbw` backend returned an error.
    Rbw(CommandError),
}

impl SecretError {
    /// The error text.
    pub fn message(&self) -> (r: String)
        ensures
            match self {
                SecretError::NoProvider { secret } => r@ == "auth.secret '"@ + secret@
                    + "' requires a secret provider, but none is configured (set secret_provider in your config)"@,
                SecretError::Rbw(_) => r@.len() >= 5 && r@.take(5) == "rbw: "@,
            },
    {
        let mut v = Vec::new();
        match self {
            SecretError::NoProvider { secret } => {
                push_str(&mut v, "auth.secret '");
                push_str(&mut v, secret.as_str());
                push_str(
                    &mut v,
                    "' requires a secret provider, but none is configured (set secret_provider in your config)",
                );
            },
            SecretError::Rbw(e) => {
                push_str(&mut v, "rbw: ");
                proof {
                    reveal_strlit("rbw: ");
                }
                let ghost head = v@;
                let m = e.message();
                push_str(&mut v, m.as_str());
                assert(v@.take(5) =~= head);
            },
        }
        string_of(&v)
    }
}

/// A backend that resolves named secret items to their values.
///
/// Running its commands is the caller's business: the provider says what
/// to run and how to read the answer.
pub trait SecretProvider {
    /// Human-readable name, matches the config value (e.g. `"rbw"`).
    fn name(&self) -> &'static str;

    /// The command that succeeds when the provider is usable (vault
    /// unlocked, CLI installed, etc.).
    fn availability_command(&self) -> Vec<String>;

    /// The command that prints the value of `item`.
    fn resolve_command(&self, item: &str) -> Vec<String>;

    /// The secret in what the resolve command printed.
    fn secret_from_output(&self, stdout: &str) -> String;
}

/// [Bitwarden](https://bitwarden.com/) via the `rbw` CLI.
#[derive(Debug, Clone, Copy)]
pub struct RbwProvider;

impl SecretProvider for RbwProvider {
    fn name(&self) -> (r: &'static str)
        ensures
            r@ == "rbw"@,
    {
        "rbw"
    }

    /// `rbw unlocked`.
    fn availability_command(&self) -> (r: Vec<String>)
        ensures
            strings_view(r@) == seq!["rbw"@, "unlocked"@],
    {
        let mut r = Vec::new();
        r.push(owned("rbw"));
        r.push(owned("unlocked"));
        assert(strings_view(r@) =~= seq!["rbw"@, "unlocked"@]);
        r
    }

    /// `rbw get <item>`.
    fn resolve_command(&self, item: &str) -> (r: Vec<String>)
        ensures
            strings_view(r@) == seq!["rbw"@, "get"@, item@],
    {
        let mut r = Vec::new();
        r.push(owned("rbw"));
        r.push(owned("get"));
        r.push(owned(item));
        assert(strings_view(r@) =~= seq!["rbw"@, "get"@, item@]);
        r
    }

    /// The output without trailing white space.
    fn secret_from_output(&self, stdout: &str) -> (r: String)
        ensures
            r@ == trim_end(stdout@),
    {
        let t = trim_end_chars(&chars_of(stdout));
        string_of(&t)
    }
}

/// Available secret providers, as named by the `secret_provider` config
/// key. Call [`resolve`](Self::resolve) to obtain the provider.
#[derive(Debug, Clone, Copy, PartialEq, Eq, Structural)]
pub enum Providers {
    /// Bitwarden via the `rbw` CLI.
    Rbw,
}

impl Providers {
    /// The provider this names.
    pub fn resolve(self) -> (r: RbwProvider)
        ensures
            self == Providers::Rbw,
    {
        match self {
            Providers::Rbw => RbwProvider,
        }
    }

    /// The provider named `s` in the config (`rbw`), lowercase.
    pub fn from_name(s: &str) -> (r: Option<Providers>)
        ensures
            r == (if s@ == "rbw"@ { Some(Providers::Rbw) } else { None }),
    {
        if str_eq(s, "rbw") {
            Some(Providers::Rbw)
        } else {
            None
        }
    }
}

/// What a resolve command printed, as text (nothing for a failure).
pub open spec fn answer_text(a: Result<String, CommandError>) -> Seq<char> {
    match a {
        Ok(t) => t@,
        Err(_) => Seq::empty(),
    }
}

/// Each of `names` mapped to the secret in the answer at the same place in
/// `answers`: the printed text without trailing white space.
pub open spec fn resolved_secrets(names: Seq<Seq<char>>, answers: Seq<Result<String, CommandError>>) -> Map<
    Seq<char>,
    Seq<char>,
>
    decreases names.len(),
{
    if names.len() == 0 {
        Map::empty()
    } else {
        let i = names.len() - 1;
        resolved_secrets(names.drop_last(), answers).insert(names[i], trim_end(answer_text(answers[i])))
    }
}

/// The secrets `names` resolve to with `provider`, given what its resolve
/// command answered for each in turn (`answers[i]` for `names[i]`; the
/// answers may stop early). The first failed command is the error.
pub fn collect_secrets(provider: &RbwProvider, names: &Vec<String>, answers: Vec<Result<String, CommandError>>) -> (r:
    Result<EnvMap, SecretError>)
    requires
        answers@.len() <= names@.len(),
    ensures
        match r {
            Ok(m) => (forall|i: int| 0 <= i < answers@.len() ==> #[trigger] answers@[i] is Ok) && m@
                == resolved_secrets(strings_view(names@).take(answers@.len() as int), answers@),
            Err(e) => exists|i: int|
                0 <= i < answers@.len() && (#[trigger] answers@[i] matches Err(ce) && e == SecretError::Rbw(ce))
                    && forall|j: int| 0 <= j < i ==> answers@[j] is Ok,
        },
        (forall|i: int| 0 <= i < answers@.len() ==> #[trigger] answers@[i] is Ok) ==> r is Ok,
{
    let ghost orig = answers@;
    let ghost nv = strings_view(names@);
    let mut rest = answers;
    let mut m = EnvMap::new();
    let n = names.len();
    let mut i: usize = 0;
    while rest.len() > 0
        invariant
            n == names@.len(),
            orig == answers@,
            orig.len() <= names@.len(),
            nv == strings_view(names@),
            i + rest@.len() == orig.len(),
            rest@ == orig.skip(i as int),
            m@ == resolved_secrets(nv.take(i as int), orig),
            forall|j: int| 0 <= j < i ==> #[trigger] orig[j] is Ok,
        decreases rest@.len(),
    {
        let a = rest.remove(0);
        proof {
            assert(a == orig[i as int]);
        }
        match a {
            Err(ce) => {
                proof {
                    assert(answers@[i as int] is Err);
                }
                return Err(SecretError::Rbw(ce));
            },
            Ok(out) => {
                let value = provider.secret_from_output(out.as_str());
                m.insert(names[i].clone(), value);
                proof {
                    let t = nv.take(i + 1);
                    assert(t.drop_last() =~= nv.take(i as int));
                    assert(t[i as int] == names@[i as int]@);
                    assert(rest@ =~= orig.skip(i + 1));
                    assert(i < n);
                }
                i = i + 1;
            },
        }
    }
    proof {
        assert(i == orig.len());
    }
    Ok(m)
}

/// Every name gets a secret: the resolved secrets have exactly the names
/// as keys, whatever the answers were.
pub proof fn law_every_name_is_resolved(names: Seq<Seq<char>>, answers: Seq<Result<String, CommandError>>)
    ensures
        resolved_secrets(names, answers).dom() == names.to_set(),
    decreases names.len(),
{
    if names.len() > 0 {
        let init = names.drop_last();
        law_every_name_is_resolved(init, answers);
        assert forall|x: Seq<char>| names.to_set().contains(x) <==> init.to_set().insert(names.last()).contains(x) by {
            if names.contains(x) {
                let i = choose|i: int| 0 <= i < names.len() && names[i] == x;
                if i < names.len() - 1 {
                    assert(init[i] == x);
                }
            }
            if init.contains(x) {
                let i = choose|i: int| 0 <= i < init.len() && init[i] == x;
                assert(names[i] == x);
            }
            if x == names.last() {
                assert(names[names.len() - 1] == x);
            }
        }
        assert(names.to_set() =~= init.to_set().insert(names.last()));
    } else {
        assert(names.to_set() =~= Set::<Seq<char>>::empty());
    }
}

} // verus!
