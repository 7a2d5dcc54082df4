//! Profile names, config file locations, inheritance and directory
//! mapping.

use vstd::prelude::*;
use crate::envmap::EnvMap;
use crate::path::{components, is_under_or_eq, join, join_path, path_components, under_or_eq};
use crate::strings::{chars_of, chars_eq, contains_char, push_str, str_eq, string_of};

verus! {

// ---------------------------------------------------------------------------
// Names and locations
// ---------------------------------------------------------------------------

/// A usable profile name: not empty, no `/` or `\`, not `.` or `..`.
pub open spec fn valid_profile_name(name: Seq<char>) -> bool {
    &&& name.len() > 0
    &&& !name.contains('/')
    &&& !name.contains('\\')
    &&& name != seq!['.']
    &&& name != seq!['.', '.']
}

/// Reject profile names that are empty, contain `/` or `\\`,
/// or are `.` / `..`.
pub fn is_valid_profile_name(name: &str) -> (r: bool)
    ensures
        r == valid_profile_name(name@),
{
    let v = chars_of(name);
    let dot = v.len() == 1 && v[0] == '.';
    let dotdot = v.len() == 2 && v[0] == '.' && v[1] == '.';
    proof {
        if v@ == seq!['.'] {
            assert(v@[0] == '.');
        }
        if v@ == seq!['.', '.'] {
            assert(v@[0] == '.' && v@[1] == '.');
        }
        if dot {
            assert(v@ =~= seq!['.']);
        }
        if dotdot {
            assert(v@ =~= seq!['.', '.']);
        }
    }
    v.len() > 0 && !contains_char(&v, '/') && !contains_char(&v, '\\') && !dot && !dotdot
}

/// `<config_dir>/celily/config.toml`.
pub fn config_path(config_dir: &str) -> (r: String)
    ensures
        r@ == join(join(config_dir@, "celily"@), "config.toml"@),
{
    let d = join_path(config_dir, "celily");
    join_path(d.as_str(), "config.toml")
}

/// `<config_dir>/celily/profiles.toml`.
pub fn profiles_toml_path(config_dir: &str) -> (r: String)
    ensures
        r@ == join(join(config_dir@, "celily"@), "profiles.toml"@),
{
    let d = join_path(config_dir, "celily");
    join_path(d.as_str(), "profiles.toml")
}

/// `<config_dir>/celily/profiles/<name>.toml`.
pub fn profile_path(config_dir: &str, name: &str) -> (r: String)
    ensures
        r@ == join(join(join(config_dir@, "celily"@), "profiles"@), name@ + ".toml"@),
{
    let d = join_path(config_dir, "celily");
    let p = join_path(d.as_str(), "profiles");
    let mut f = Vec::new();
    push_str(&mut f, name);
    push_str(&mut f, ".toml");
    let file = string_of(&f);
    join_path(p.as_str(), file.as_str())
}

// ---------------------------------------------------------------------------
// Inheritance
// ---------------------------------------------------------------------------

/// Why an inheritance chain cannot be built.
#[derive(Debug)]
pub enum ChainError {
    /// The requested profile name is not usable.
    InvalidProfile { name: String },
    /// A profile appears twice.
    Circular { name: String },
    /// A profile names itself as its parent.
    SelfInherit { name: String },
    /// A parent name is not usable.
    InvalidParent { parent: String, child: String },
}

/// Following parent links from `p` for `k` steps (stopping at a profile
/// without a parent): the profiles visited, leaf first.
pub open spec fn follow(m: Map<Seq<char>, Seq<char>>, p: Seq<char>, k: nat) -> Seq<Seq<char>>
    decreases k,
{
    if k == 0 {
        seq![p]
    } else {
        let s = follow(m, p, (k - 1) as nat);
        if m.dom().contains(s.last()) {
            s.push(m[s.last()])
        } else {
            s
        }
    }
}

/// The inheritance chain of `profile` (leaf first, root last) or the first
/// problem met while walking it: at each profile with a parent, the parent
/// must differ from it, be a usable name, and not appear earlier.
pub open spec fn chain_ok(m: Map<Seq<char>, Seq<char>>, profile: Seq<char>, chain: Seq<Seq<char>>) -> bool {
    &&& valid_profile_name(profile)
    &&& chain.len() >= 1
    &&& chain == follow(m, profile, (chain.len() - 1) as nat)
    &&& !m.dom().contains(chain.last())
    &&& chain.no_duplicates()
    &&& forall|i: int| 0 <= i < chain.len() ==> valid_profile_name(#[trigger] chain[i])
}

/// What walking the `[inherit]` table `m` from `profile` may give: the
/// chain (see [`chain_ok`]) or the first problem met on the way.
pub open spec fn chain_outcome(m: Map<Seq<char>, Seq<char>>, profile: Seq<char>, r: Result<Vec<String>, ChainError>) -> bool {
    match r {
        Ok(chain) => chain_ok(m, profile, crate::strings::strings_view(chain@)),
        Err(ChainError::InvalidProfile { name }) => !valid_profile_name(profile) && name@
            == profile,
        Err(ChainError::SelfInherit { name }) => exists|k: nat|
            {
                let s = #[trigger] follow(m, profile, k);
                &&& s.no_duplicates()
                &&& s.last() == name@
                &&& m.dom().contains(name@)
                &&& m[name@] == name@
            },
        Err(ChainError::InvalidParent { parent, child }) => exists|k: nat|
            {
                let s = #[trigger] follow(m, profile, k);
                &&& s.no_duplicates()
                &&& s.last() == child@
                &&& m.dom().contains(child@)
                &&& m[child@] == parent@
                &&& !valid_profile_name(parent@)
            },
        Err(ChainError::Circular { name }) => exists|k: nat|
            {
                let s = #[trigger] follow(m, profile, k);
                &&& s.no_duplicates()
                &&& m.dom().contains(s.last())
                &&& m[s.last()] == name@
                &&& s.contains(name@)
            },
    }
}

/// Walk the `[inherit]` table from `profile` to its root.
///
/// Each profile in the chain inherits from the next until a profile with
/// no `[inherit]` entry is reached. Self-inheritance and circular chains
/// are rejected.
pub fn inheritance_chain(profile: &str, inherit: &EnvMap) -> (r: Result<Vec<String>, ChainError>)
    ensures
        chain_outcome(inherit@, profile@, r),

{
    if !is_valid_profile_name(profile) {
        return Err(ChainError::InvalidProfile { name: crate::strings::owned(profile) });
    }
    let ghost m = inherit@;
    let n = inherit.len();
    proof {
        inherit.lemma_finite();
    }
    let mut chain: Vec<String> = Vec::new();
    chain.push(crate::strings::owned(profile));
    let mut current = crate::strings::owned(profile);
    let ghost mut k: nat = 0;
    loop
        invariant
            m == inherit@,
            m.dom().finite(),
            n == m.dom().len(),
            valid_profile_name(profile@),
            crate::strings::strings_view(chain@) == follow(m, profile@, k),
            chain@.len() == k + 1,
            current@ == chain@.last()@,
            follow(m, profile@, k).no_duplicates(),
            forall|i: int| 0 <= i < chain@.len() ==> valid_profile_name(#[trigger] chain@[i]@),
            forall|i: int| 0 <= i < k ==> m.dom().contains(#[trigger] follow(m, profile@, k)[i]),
        decreases n + 1 - chain@.len(),
    {
        let ghost s = follow(m, profile@, k);
        assert(s.last() == current@) by {
            assert(crate::strings::strings_view(chain@)[chain@.len() - 1] == chain@.last()@);
        }
        match inherit.get(current.as_str()) {
            None => {
                proof {
                    assert(crate::strings::strings_view(chain@) == s);
                }
                return Ok(chain);
            },
            Some(parent) => {
                if str_eq(parent.as_str(), current.as_str()) {
                    return Err(ChainError::SelfInherit { name: current });
                }
                if !is_valid_profile_name(parent.as_str()) {
                    return Err(ChainError::InvalidParent { parent, child: current });
                }
                // Already visited?
                let mut i: usize = 0;
                while i < chain.len()
                    invariant
                        i <= chain@.len(),
                        crate::strings::strings_view(chain@) == s,
                        s == follow(m, profile@, k),
                        m == inherit@,
                        s.no_duplicates(),
                        m.dom().contains(s.last()),
                        m[s.last()] == parent@,
                        forall|j: int| 0 <= j < i ==> s[j] != parent@,
                    decreases chain@.len() - i,
                {
                    if str_eq(chain[i].as_str(), parent.as_str()) {
                        proof {
                            assert(s[i as int] == parent@);
                            assert(s.contains(parent@));
                        }
                        return Err(ChainError::Circular { name: parent });
                    }
                    i = i + 1;
                }
                proof {
                    assert(!s.contains(parent@)) by {
                        if s.contains(parent@) {
                            let j = choose|j: int| 0 <= j < s.len() && s[j] == parent@;
                            assert(s[j] == parent@);
                        }
                    }
                    let t = follow(m, profile@, k + 1);
                    assert(t == s.push(parent@));
                    // Every profile but the new last one has a parent, and
                    // the chain has no repeats: it fits in the table.
                    assert(t.no_duplicates());
                    assert forall|j: int| 0 <= j < k + 1 implies m.dom().contains(#[trigger] t[j]) by {
                        if j < k {
                            assert(t[j] == s[j]);
                        } else {
                            assert(t[j] == s.last());
                        }
                    }
                    let keys = t.take(k + 1 as int);
                    assert(keys.no_duplicates());
                    keys.unique_seq_to_set();
                    assert(keys.to_set().subset_of(m.dom()));
                    vstd::set_lib::lemma_len_subset(keys.to_set(), m.dom());
                }
                let ghost old_chain = chain@;
                chain.push(parent.clone());
                current = parent;
                proof {
                    k = k + 1;
                    assert(crate::strings::strings_view(chain@) =~= follow(m, profile@, k));
                    assert forall|i: int| 0 <= i < chain@.len() implies valid_profile_name(#[trigger] chain@[i]@) by {
                        if i < old_chain.len() {
                            assert(chain@[i] == old_chain[i]);
                        }
                    }
                }
            },
        }
    }
}

/// The text of an inheritance error.
pub open spec fn chain_error_message(e: ChainError) -> Seq<char> {
    match e {
        ChainError::InvalidProfile { name } => "invalid profile name '"@ + name@
            + "': must not be empty, must not contain / or \\\\, must not be . or .."@,
        ChainError::Circular { name } => "circular inheritance: profile '"@ + name@
            + "' appears more than once in the inheritance chain"@,
        ChainError::SelfInherit { name } => "profile '"@ + name@ + "' cannot inherit from itself"@,
        ChainError::InvalidParent { parent, child } => "invalid parent profile name '"@ + parent@
            + "' in [inherit] for '"@ + child@
            + "': must not be empty, must not contain / or \\\\, must not be . or .."@,
    }
}

impl ChainError {
    /// The error text.
    pub fn message(&self) -> (r: String)
        ensures
            r@ == chain_error_message(*self),
    {
        let mut v = Vec::new();
        match self {
            ChainError::InvalidProfile { name } => {
                push_str(&mut v, "invalid profile name '");
                push_str(&mut v, name.as_str());
                push_str(&mut v, "': must not be empty, must not contain / or \\\\, must not be . or ..");
            },
            ChainError::Circular { name } => {
                push_str(&mut v, "circular inheritance: profile '");
                push_str(&mut v, name.as_str());
                push_str(&mut v, "' appears more than once in the inheritance chain");
            },
            ChainError::SelfInherit { name } => {
                push_str(&mut v, "profile '");
                push_str(&mut v, name.as_str());
                push_str(&mut v, "' cannot inherit from itself");
            },
            ChainError::InvalidParent { parent, child } => {
                push_str(&mut v, "invalid parent profile name '");
                push_str(&mut v, parent.as_str());
                push_str(&mut v, "' in [inherit] for '");
                push_str(&mut v, child.as_str());
                push_str(&mut v, "': must not be empty, must not contain / or \\\\, must not be . or ..");
            },
        }
        string_of(&v)
    }
}

// ---------------------------------------------------------------------------
// Directory mapping
// ---------------------------------------------------------------------------

/// One `profiles.toml` mapping entry, with the result of canonicalizing its
/// (tilde-expanded) directory.
#[derive(Debug)]
pub struct ProfileCandidate {
    pub name: String,
    pub canonical: Option<String>,
}

/// A candidate applies to `cwd`: a usable name, a directory that resolved,
/// and `cwd` at or below it.
pub open spec fn applies(c: ProfileCandidate, cwd: Seq<char>) -> bool {
    &&& valid_profile_name(c.name@)
    &&& c.canonical is Some
    &&& under_or_eq(cwd, c.canonical->0@)
}

/// Depth of a candidate's directory (number of components).
pub open spec fn depth(c: ProfileCandidate) -> nat {
    components(c.canonical->0@).len()
}

/// `i` is the chosen candidate: it applies, no applying candidate is
/// deeper, and none before it is as deep (the first deepest wins).
pub open spec fn best_candidate(cs: Seq<ProfileCandidate>, cwd: Seq<char>, i: int) -> bool {
    &&& 0 <= i < cs.len()
    &&& applies(cs[i], cwd)
    &&& forall|j: int| 0 <= j < cs.len() && applies(#[trigger] cs[j], cwd) ==> depth(cs[j]) <= depth(cs[i])
    &&& forall|j: int| 0 <= j < i && applies(#[trigger] cs[j], cwd) ==> depth(cs[j]) < depth(cs[i])
}

/// Choose the profile for `cwd` (canonical) by longest matching directory.
/// Returns the index of the chosen candidate, or `None` when none applies.
pub fn select_profile(cwd: &str, candidates: &Vec<ProfileCandidate>) -> (r: Option<usize>)
    ensures
        match r {
            Some(i) => best_candidate(candidates@, cwd@, i as int),
            None => forall|j: int| 0 <= j < candidates@.len() ==> !applies(#[trigger] candidates@[j], cwd@),
        },
{
    let mut best: Option<usize> = None;
    let mut best_depth: usize = 0;
    let mut i: usize = 0;
    while i < candidates.len()
        invariant
            i <= candidates@.len(),
            match best {
                Some(b) => b < i && best_candidate(candidates@.take(i as int), cwd@, b as int)
                    && best_depth == depth(candidates@[b as int]),
                None => forall|j: int| 0 <= j < i ==> !applies(#[trigger] candidates@[j], cwd@),
            },
        decreases candidates@.len() - i,
    {
        let c = &candidates[i];
        let ghost cs = candidates@.take(i + 1);
        assert(cs[i as int] == candidates@[i as int]);
        assert(forall|j: int| 0 <= j < i ==> cs[j] == candidates@.take(i as int)[j]);
        if is_valid_profile_name(c.name.as_str()) {
            match &c.canonical {
                Some(canon) => {
                    if is_under_or_eq(cwd, canon.as_str()) {
                        let d = path_components(&chars_of(canon.as_str())).len();
                        match best {
                            Some(b) => {
                                if d > best_depth {
                                    best = Some(i);
                                    best_depth = d;
                                }
                            },
                            None => {
                                best = Some(i);
                                best_depth = d;
                            },
                        }
                    }
                },
                None => {},
            }
        }
        proof {
            match best {
                Some(b) => {
                    assert forall|j: int| 0 <= j < cs.len() && applies(#[trigger] cs[j], cwd@) implies depth(cs[j]) <= depth(cs[b as int]) by {
                        if j < i {
                            assert(cs[j] == candidates@.take(i as int)[j]);
                        }
                    }
                },
                None => {},
            }
        }
        i = i + 1;
    }
    proof {
        assert(candidates@.take(candidates@.len() as int) =~= candidates@);
    }
    best
}

} // verus!
