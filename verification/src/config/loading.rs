//! Deciding on the configuration files once they have been read: the
//! global file must exist and name its distribution, and the profiles of
//! an inheritance chain are merged over it root first.

use vstd::prelude::*;
use crate::path::join;
use crate::strings::strings_view;
use super::{Config, ConfigError, merge_of, same_config};
use super::validation::{missing_config, missing_distro, missing_profile};
use crate::envmap::EnvMap;
use super::profiles::{
    applies, best_candidate, chain_error_message, chain_outcome, inheritance_chain, profile_path,
    select_profile, ChainError, ProfileCandidate,
};

verus! {

/// The global configuration as read from `path` (`None` when the file does
/// not exist): it must exist and name its distribution.
pub fn check_default(path: &str, loaded: Option<Config>) -> (r: Result<Config, ConfigError>)
    ensures
        match loaded {
            None => r matches Err(ConfigError::Validation(m)) && m@ == path@
                + " not found; a config file with distro is required"@,
            Some(c) => if c.distro is None {
                r matches Err(ConfigError::Validation(m)) && m@ == path@
                    + ": distro is required (e.g. distro = \"arch\")"@
            } else {
                r == Ok::<Config, ConfigError>(c)
            },
        },
{
    match loaded {
        None => Err(missing_config(path)),
        Some(c) => {
            if c.distro.is_none() {
                Err(missing_distro(path))
            } else {
                Ok(c)
            }
        },
    }
}

/// The order in which the profiles of an inheritance chain (leaf first)
/// are read and merged: root first.
pub fn root_first(chain: &Vec<String>) -> (r: Vec<String>)
    ensures
        strings_view(r@) == strings_view(chain@).reverse(),
{
    let mut r: Vec<String> = Vec::new();
    let mut i: usize = chain.len();
    while i > 0
        invariant
            i <= chain@.len(),
            strings_view(r@) == strings_view(chain@).skip(i as int).reverse(),
        decreases i,
    {
        i = i - 1;
        let ghost before = r@;
        r.push(chain[i].clone());
        proof {
            let cv = strings_view(chain@);
            assert(strings_view(r@) =~= strings_view(before).push(chain@[i as int]@));
            assert(cv.skip(i as int).reverse() =~= cv.skip(i + 1).reverse().push(cv[i as int]));
        }
    }
    assert(strings_view(chain@).skip(0) =~= strings_view(chain@));
    r
}

/// The profiles to merge for an inheritance walk's outcome `cr`: its chain
/// root first, or its problem as a configuration error.
pub open spec fn order_outcome(cr: Result<Vec<String>, ChainError>, r: Result<Vec<String>, ConfigError>) -> bool {
    match cr {
        Ok(chain) => r matches Ok(order) && strings_view(order@) == strings_view(chain@).reverse(),
        Err(ce) => r matches Err(ConfigError::Validation(m)) && m@ == chain_error_message(ce),
    }
}

/// The profiles to merge for `profile` (root first, ending with `profile`),
/// or the problem with its inheritance chain.
pub fn profile_order(profile: &str, inherit: &EnvMap) -> (r: Result<Vec<String>, ConfigError>)
    ensures
        exists|cr: Result<Vec<String>, ChainError>| #[trigger] chain_outcome(inherit@, profile@, cr) && order_outcome(cr, r),
{
    let cr = inheritance_chain(profile, inherit);
    let r = match &cr {
        Ok(chain) => Ok(root_first(chain)),
        Err(e) => Err(ConfigError::Validation(e.message())),
    };
    assert(chain_outcome(inherit@, profile@, cr) && order_outcome(cr, r));
    r
}

/// The profiles to merge for the working directory `cwd` (canonical):
/// none when no `profiles.toml` entry applies to it, else those of the
/// entry with the deepest directory (see [`select_profile`]).
pub fn dir_profile_order(cwd: &str, candidates: &Vec<ProfileCandidate>, inherit: &EnvMap) -> (r: Result<
    Vec<String>,
    ConfigError,
>)
    ensures
        (forall|j: int| 0 <= j < candidates@.len() ==> !applies(#[trigger] candidates@[j], cwd@))
            ==> (r matches Ok(order) && order@.len() == 0),
        forall|i: int| #[trigger] best_candidate(candidates@, cwd@, i) ==> exists|cr: Result<Vec<String>, ChainError>|
            #[trigger] chain_outcome(inherit@, candidates@[i].name@, cr) && order_outcome(cr, r),
{
    match select_profile(cwd, candidates) {
        None => Ok(Vec::new()),
        Some(i) => {
            let r = profile_order(candidates[i].name.as_str(), inherit);
            proof {
                assert forall|k: int| #[trigger] best_candidate(candidates@, cwd@, k) implies k == i by {
                    if k < i {
                        assert(applies(candidates@[k], cwd@));
                    } else if k > i {
                        assert(applies(candidates@[i as int], cwd@));
                    }
                }
            }
            r
        },
    }
}

/// `ms` are the configurations on the way from `d` to `r` when the
/// profiles of `fs` are merged over `d` one after another (each present).
pub open spec fn fold_steps(d: Config, fs: Seq<Option<Config>>, ms: Seq<Config>, r: Config) -> bool {
    &&& ms.len() == fs.len() + 1
    &&& ms[0] == d
    &&& ms[fs.len() as int] == r
    &&& forall|i: int| 0 <= i < fs.len() ==> (#[trigger] fs[i] matches Some(p) && merge_of(ms[i], p, ms[i + 1]))
}

/// `r` is `d` with the profiles of `fs` merged over it in order (each
/// present).
pub open spec fn left_fold(d: Config, fs: Seq<Option<Config>>, r: Config) -> bool {
    exists|ms: Seq<Config>| #[trigger] fold_steps(d, fs, ms, r)
}

/// Where the profile `name` lives under `config_dir`.
pub open spec fn profile_path_text(config_dir: Seq<char>, name: Seq<char>) -> Seq<char> {
    join(join(join(config_dir, "celily"@), "profiles"@), name + ".toml"@)
}

/// Merge the profiles `order` (root first, see [`root_first`]) over the
/// default; `files[i]` is the profile file of `order[i]` as read, `None`
/// when it does not exist. The first missing profile is an error.
pub fn merge_chain(default: Config, config_dir: &str, order: &Vec<String>, files: Vec<Option<Config>>) -> (r: Result<
    Config,
    ConfigError,
>)
    requires
        files@.len() == order@.len(),
    ensures
        order@.len() == 0 ==> r == Ok::<Config, ConfigError>(default),
        (forall|i: int| 0 <= i < files@.len() ==> #[trigger] files@[i] is Some) ==> r is Ok,
        match r {
            Ok(c) => left_fold(default, files@, c),
            Err(e) => exists|i: int|
                0 <= i < files@.len() && #[trigger] files@[i] is None && (forall|j: int|
                    0 <= j < i ==> files@[j] is Some) && (e matches ConfigError::Validation(m) && m@
                    == "profile '"@ + order@[i]@ + "' not found at "@ + profile_path_text(config_dir@, order@[i]@)),
        },
{
    let ghost orig = files@;
    let mut rest = files;
    let mut merged = default;
    let ghost d = merged;
    let n = order.len();
    let mut i: usize = 0;
    let ghost mut ms: Seq<Config> = seq![d];
    proof {
        assert(orig.take(0) =~= Seq::<Option<Config>>::empty());
    }
    while rest.len() > 0
        invariant
            orig == files@,
            orig.len() == order@.len(),
            n == order@.len(),
            i + rest@.len() == orig.len(),
            rest@ == orig.skip(i as int),
            fold_steps(d, orig.take(i as int), ms, merged),
            forall|j: int| 0 <= j < i ==> #[trigger] orig[j] is Some,
        decreases rest@.len(),
    {
        let f = rest.remove(0);
        proof {
            assert(f == orig[i as int]);
        }
        match f {
            None => {
                let path = profile_path(config_dir, order[i].as_str());
                let e = missing_profile(order[i].as_str(), path.as_str());
                proof {
                    assert(files@[i as int] is None);
                    assert(forall|j: int| 0 <= j < i ==> files@[j] is Some);
                }
                return Err(e);
            },
            Some(c) => {
                let ghost before = merged;
                merged = Config::merge(merged, c);
                proof {
                    let t = orig.take(i + 1);
                    let ms2 = ms.push(merged);
                    assert forall|j: int| 0 <= j < t.len() implies (#[trigger] t[j] matches Some(p) && merge_of(
                        ms2[j],
                        p,
                        ms2[j + 1],
                    )) by {
                        if j < i {
                            assert(t[j] == orig.take(i as int)[j]);
                        }
                    }
                    ms = ms2;
                    assert(rest@ =~= orig.skip(i + 1));
                    assert(i < n);
                }
                i = i + 1;
            },
        }
    }
    proof {
        assert(orig.take(i as int) =~= orig);
        assert(fold_steps(d, orig, ms, merged));
    }
    Ok(merged)
}

/// The profile a directory loads is well defined: at most one `profiles.toml`
/// entry is the deepest that applies (the first of equally deep ones).
pub proof fn law_directory_profile_unique(cands: Seq<ProfileCandidate>, cwd: Seq<char>, i: int, k: int)
    requires
        best_candidate(cands, cwd, i),
        best_candidate(cands, cwd, k),
    ensures
        i == k,
{
    if i < k {
        assert(applies(cands[i], cwd));
    } else if k < i {
        assert(applies(cands[k], cwd));
    }
}

/// Merging no profiles over a configuration leaves it as it is: a
/// directory without a mapping loads the global configuration unchanged.
pub proof fn law_no_profile_keeps_default(d: Config, r: Config)
    requires
        left_fold(d, Seq::<Option<Config>>::empty(), r),
    ensures
        r == d,
{
    let ms = choose|ms: Seq<Config>| #[trigger] fold_steps(d, Seq::<Option<Config>>::empty(), ms, r);
    assert(ms[0] == d);
}

} // verus!
