//! Mount and proxy-socket policy.
//!
//! Canonicalisation and file-type tests touch the file system; callers do
//! them and hand the results in, and the decisions are made here.

use vstd::prelude::*;
use crate::command::{error_text, CommandError};
use crate::path::{is_under_or_eq, paths_equal, same_path, under_or_eq};
use crate::strings::{chars_of, has_prefix, owned, push_str, slice_chars, string_of, u64_string, decimal};

verus! {

// ---------------------------------------------------------------------------
// Forbidden paths
// ---------------------------------------------------------------------------

/// Error returned when a path matches a [`Forbidden`] entry.
#[derive(Debug)]
pub enum ForbiddenError {
    Exact { label: &'static str },
    Subtree { label: &'static str },
}

impl ForbiddenError {
    /// The error text.
    pub fn message(&self) -> (r: String)
        ensures
            r@ == forbidden_message(*self),
    {
        let mut v = Vec::new();
        match self {
            ForbiddenError::Exact { label } => {
                push_str(&mut v, label);
                push_str(&mut v, " is forbidden");
            },
            ForbiddenError::Subtree { label } => {
                push_str(&mut v, "path is under ");
                push_str(&mut v, label);
                push_str(&mut v, " (forbidden)");
            },
        }
        string_of(&v)
    }
}

/// `{label} is forbidden` or `path is under {label} (forbidden)`.
pub open spec fn forbidden_message(e: ForbiddenError) -> Seq<char> {
    match e {
        ForbiddenError::Exact { label } => label@ + " is forbidden"@,
        ForbiddenError::Subtree { label } => "path is under "@ + label@ + " (forbidden)"@,
    }
}

/// A path that may not be bind-mounted into the container.
///
/// `Exact` forbids only the path itself - children remain mountable.
/// `Subtree` forbids the path and everything underneath it.
#[derive(Debug)]
pub enum Forbidden {
    Exact { canonical: String, label: &'static str },
    Subtree { canonical: String, label: &'static str },
}

/// Whether `f` forbids the canonical path `p`.
pub open spec fn forbids(f: Forbidden, p: Seq<char>) -> bool {
    match f {
        Forbidden::Exact { canonical, .. } => same_path(p, canonical@),
        Forbidden::Subtree { canonical, .. } => under_or_eq(p, canonical@),
    }
}

/// The error an entry reports.
pub open spec fn violation(f: Forbidden) -> ForbiddenError {
    match f {
        Forbidden::Exact { label, .. } => ForbiddenError::Exact { label },
        Forbidden::Subtree { label, .. } => ForbiddenError::Subtree { label },
    }
}

/// The label of an entry.
pub open spec fn forbidden_label(f: Forbidden) -> &'static str {
    match f {
        Forbidden::Exact { label, .. } => label,
        Forbidden::Subtree { label, .. } => label,
    }
}

impl Forbidden {
    /// Forbid only the exact canonical path.
    /// The caller must pass an already-canonicalized path.
    pub fn exact(canonical: String, label: &'static str) -> (r: Self)
        ensures
            r == (Forbidden::Exact { canonical, label }),
    {
        Forbidden::Exact { canonical, label }
    }

    /// Forbid a directory and all paths underneath, given the result of
    /// canonicalizing it (`base.join(segment)`, see
    /// [`Forbidden::under_target`]): `None` when that failed (e.g. the
    /// directory does not exist), which skips the entry.
    pub fn under(canonical: Option<String>, label: &'static str) -> (r: Option<Self>)
        ensures
            match canonical {
                Some(c) => r == Some(Forbidden::Subtree { canonical: c, label }),
                None => r is None,
            },
    {
        match canonical {
            Some(c) => Some(Forbidden::Subtree { canonical: c, label }),
            None => None,
        }
    }

    /// The path to canonicalize for [`Forbidden::under`]: `base` joined with
    /// `segment`.
    pub fn under_target(base: &str, segment: &str) -> (r: String)
        ensures
            r@ == crate::path::join(base@, segment@),
    {
        crate::path::join_path(base, segment)
    }

    /// Check whether a canonical path violates this forbidden entry.
    ///
    /// Returns `Ok(())` if allowed, or a [`ForbiddenError`] describing
    /// the violation.
    pub fn check(&self, canonical: &str) -> (r: Result<(), ForbiddenError>)
        ensures
            match r {
                Ok(()) => !forbids(*self, canonical@),
                Err(e) => forbids(*self, canonical@) && e == violation(*self),
            },
    {
        match self {
            Forbidden::Exact { canonical: blocked, label } => {
                if paths_equal(canonical, blocked.as_str()) {
                    Err(ForbiddenError::Exact { label: *label })
                } else {
                    Ok(())
                }
            },
            Forbidden::Subtree { canonical: blocked, label } => {
                if is_under_or_eq(canonical, blocked.as_str()) {
                    Err(ForbiddenError::Subtree { label: *label })
                } else {
                    Ok(())
                }
            },
        }
    }
}

/// The first entry of `list` that forbids `p`, if any.
pub open spec fn first_violation(list: Seq<Forbidden>, p: Seq<char>) -> Option<int>
    decreases list.len(),
{
    if list.len() == 0 {
        None
    } else if forbids(list[0], p) {
        Some(0)
    } else {
        match first_violation(list.drop_first(), p) {
            Some(i) => Some(i + 1),
            None => None,
        }
    }
}

proof fn lemma_first_violation(list: Seq<Forbidden>, p: Seq<char>, k: int)
    requires
        0 <= k <= list.len(),
        forall|j: int| 0 <= j < k ==> !forbids(#[trigger] list[j], p),
        k == list.len() || forbids(list[k], p),
    ensures
        first_violation(list, p) == (if k == list.len() {
            None::<int>
        } else {
            Some(k)
        }),
    decreases list.len(),
{
    if list.len() > 0 && k > 0 {
        let t = list.drop_first();
        assert forall|j: int| 0 <= j < k - 1 implies !forbids(#[trigger] t[j], p) by {
            assert(t[j] == list[j + 1]);
        }
        lemma_first_violation(t, p, k - 1);
    }
}

/// Index of the first entry of `list` that forbids `canonical`.
pub fn find_violation(list: &[Forbidden], canonical: &str) -> (r: Option<usize>)
    ensures
        match r {
            Some(i) => first_violation(list@, canonical@) == Some(i as int) && i < list@.len(),
            None => first_violation(list@, canonical@) is None,
        },
{
    let mut i: usize = 0;
    while i < list.len()
        invariant
            i <= list@.len(),
            forall|j: int| 0 <= j < i ==> !forbids(#[trigger] list@[j], canonical@),
        decreases list@.len() - i,
    {
        match list[i].check(canonical) {
            Err(_) => {
                proof {
                    lemma_first_violation(list@, canonical@, i as int);
                }
                return Some(i);
            },
            Ok(()) => {},
        }
        i = i + 1;
    }
    proof {
        lemma_first_violation(list@, canonical@, i as int);
    }
    None
}

/// Copy of an entry.
pub fn copy_forbidden(f: &Forbidden) -> (r: Forbidden)
    ensures
        r == *f,
{
    match f {
        Forbidden::Exact { canonical, label } => Forbidden::Exact { canonical: canonical.clone(), label: *label },
        Forbidden::Subtree { canonical, label } => Forbidden::Subtree { canonical: canonical.clone(), label: *label },
    }
}

// ---------------------------------------------------------------------------
// Mount sources
// ---------------------------------------------------------------------------

/// What the file system says about a mount source.
#[derive(Debug)]
pub enum Resolved {
    /// The path could not be canonicalized; the I/O error text.
    Unresolvable { reason: String },
    /// The canonical path, what it is, and whether the path as given is
    /// itself a symbolic link.
    Found { canonical: String, kind: NodeKind, link: bool },
}

/// The kind of file system node at a canonical path.
#[derive(Debug, Clone, Copy, PartialEq, Eq, Structural)]
pub enum NodeKind {
    Directory,
    File,
    /// Socket, device, FIFO, or anything else.
    Other,
}

/// Why a mount source was rejected.
#[derive(Debug)]
pub enum MountError {
    /// Neither allowlist has an entry.
    NoAllowlist,
    /// The path could not be canonicalized.
    Unresolvable { path: String, reason: String },
    /// The canonical path matches a forbidden entry.
    Forbidden { path: String, error: ForbiddenError },
    /// The canonical path is outside the home directory.
    OutsideHome { path: String, home: String },
    /// A directory that is not listed exactly in `allowed_dirs`.
    DirNotAllowed { path: String },
    /// A file that is not listed exactly in `allowed_files`.
    FileNotAllowed { path: String },
    /// Neither a regular file nor a directory.
    NotFileOrDir { path: String },
}

/// Whether `p` is one of `list` (as paths).
pub open spec fn listed(list: Seq<String>, p: Seq<char>) -> bool {
    exists|i: int| 0 <= i < list.len() && same_path(#[trigger] list[i]@, p)
}

/// The outcome of validating a mount source, as kinds of outcome.
pub enum MountVerdict {
    Allowed,
    NoAllowlist,
    Unresolvable,
    Forbidden(int),
    OutsideHome,
    DirNotAllowed,
    FileNotAllowed,
    NotFileOrDir,
}

/// The security rules, in order: an allowlist must exist; the path must
/// resolve; no forbidden entry may match; it must lie under `home`; the
/// path as given must not be a symbolic link; a directory must be listed
/// exactly in `allowed_dirs`, a file exactly in `allowed_files`; anything
/// else is rejected.
pub open spec fn mount_verdict(
    resolved: Resolved,
    home: Seq<char>,
    forbidden: Seq<Forbidden>,
    allowed_dirs: Seq<String>,
    allowed_files: Seq<String>,
) -> MountVerdict {
    if allowed_dirs.len() == 0 && allowed_files.len() == 0 {
        MountVerdict::NoAllowlist
    } else {
        match resolved {
            Resolved::Unresolvable { .. } => MountVerdict::Unresolvable,
            Resolved::Found { canonical, kind, link } => {
                match first_violation(forbidden, canonical@) {
                    Some(i) => MountVerdict::Forbidden(i),
                    None => if !under_or_eq(canonical@, home) {
                        MountVerdict::OutsideHome
                    } else if link {
                        MountVerdict::NotFileOrDir
                    } else {
                        match kind {
                            NodeKind::Directory => if listed(allowed_dirs, canonical@) {
                                MountVerdict::Allowed
                            } else {
                                MountVerdict::DirNotAllowed
                            },
                            NodeKind::File => if listed(allowed_files, canonical@) {
                                MountVerdict::Allowed
                            } else {
                                MountVerdict::FileNotAllowed
                            },
                            NodeKind::Other => MountVerdict::NotFileOrDir,
                        }
                    },
                }
            },
        }
    }
}

/// The error carries the verdict (and the texts it is built from).
pub open spec fn error_matches(
    e: MountError,
    v: MountVerdict,
    path: Seq<char>,
    resolved: Resolved,
    home: Seq<char>,
    forbidden: Seq<Forbidden>,
) -> bool {
    match v {
        MountVerdict::NoAllowlist => e is NoAllowlist,
        MountVerdict::Unresolvable => match (e, resolved) {
            (MountError::Unresolvable { path: p, reason }, Resolved::Unresolvable { reason: r }) =>
                p@ == path && reason@ == r@,
            _ => false,
        },
        MountVerdict::Forbidden(i) => match e {
            MountError::Forbidden { path: p, error } => p@ == path && error == violation(forbidden[i]),
            _ => false,
        },
        MountVerdict::OutsideHome => match e {
            MountError::OutsideHome { path: p, home: h } => p@ == path && h@ == home,
            _ => false,
        },
        MountVerdict::DirNotAllowed => match e {
            MountError::DirNotAllowed { path: p } => p@ == path,
            _ => false,
        },
        MountVerdict::FileNotAllowed => match e {
            MountError::FileNotAllowed { path: p } => p@ == path,
            _ => false,
        },
        MountVerdict::NotFileOrDir => match e {
            MountError::NotFileOrDir { path: p } => p@ == path,
            _ => false,
        },
        MountVerdict::Allowed => false,
    }
}

fn is_listed(list: &[String], p: &str) -> (r: bool)
    ensures
        r == listed(list@, p@),
{
    let mut i: usize = 0;
    while i < list.len()
        invariant
            i <= list@.len(),
            forall|j: int| 0 <= j < i ==> !same_path(#[trigger] list@[j]@, p@),
        decreases list@.len() - i,
    {
        if paths_equal(list[i].as_str(), p) {
            return true;
        }
        i = i + 1;
    }
    false
}

/// Validate that a mount source is authorized before binding it into the
/// container.
///
/// Security rules (enforced in order):
///
/// 1. At least one of `allowed_dirs` or `allowed_files` must be non-empty.
/// 2. The path must resolve (`resolved` is what canonicalizing `path` gave).
/// 3. The canonical path must pass every entry in `forbidden` - any match
///    (exact or subtree, depending on the variant) causes rejection.
/// 4. The canonical path must be under `home`.
/// 5. A directory must be an exact match for an entry in `allowed_dirs`, a
///    file for an entry in `allowed_files` (both pre-canonicalized).
///    A path that is itself a symbolic link, sockets, and other special
///    files are rejected.
///
/// On success the canonical path is returned.
pub fn validate_mount_source(
    path: &str,
    resolved: &Resolved,
    home: &str,
    forbidden: &[Forbidden],
    allowed_dirs: &[String],
    allowed_files: &[String],
) -> (r: Result<String, MountError>)
    ensures
        match r {
            Ok(c) => {
                &&& mount_verdict(*resolved, home@, forbidden@, allowed_dirs@, allowed_files@) is Allowed
                &&& (resolved matches Resolved::Found { canonical, .. } && c@ == canonical@)
            },
            Err(e) => error_matches(
                e,
                mount_verdict(*resolved, home@, forbidden@, allowed_dirs@, allowed_files@),
                path@,
                *resolved,
                home@,
                forbidden@,
            ) && !(mount_verdict(*resolved, home@, forbidden@, allowed_dirs@, allowed_files@) is Allowed),
        },
{
    if allowed_dirs.len() == 0 && allowed_files.len() == 0 {
        return Err(MountError::NoAllowlist);
    }
    match resolved {
        Resolved::Unresolvable { reason } => {
            Err(MountError::Unresolvable { path: owned(path), reason: reason.clone() })
        },
        Resolved::Found { canonical, kind, link } => {
            let c = canonical.as_str();
            match find_violation(forbidden, c) {
                Some(i) => {
                    let error = match forbidden[i].check(c) {
                        Err(e) => e,
                        Ok(()) => {
                            proof {
                                lemma_first_violation_forbids(forbidden@, c@);
                            }
                            ForbiddenError::Exact { label: "" }
                        },
                    };
                    return Err(MountError::Forbidden { path: owned(path), error });
                },
                None => {},
            }
            if !is_under_or_eq(c, home) {
                return Err(MountError::OutsideHome { path: owned(path), home: owned(home) });
            }
            if *link {
                return Err(MountError::NotFileOrDir { path: owned(path) });
            }
            match kind {
                NodeKind::Directory => {
                    if !is_listed(allowed_dirs, c) {
                        return Err(MountError::DirNotAllowed { path: owned(path) });
                    }
                },
                NodeKind::File => {
                    if !is_listed(allowed_files, c) {
                        return Err(MountError::FileNotAllowed { path: owned(path) });
                    }
                },
                NodeKind::Other => {
                    return Err(MountError::NotFileOrDir { path: owned(path) });
                },
            }
            Ok(canonical.clone())
        },
    }
}

proof fn lemma_first_violation_forbids(list: Seq<Forbidden>, p: Seq<char>)
    ensures
        first_violation(list, p) matches Some(i) ==> 0 <= i < list.len() && forbids(list[i], p),
    decreases list.len(),
{
    if list.len() > 0 && !forbids(list[0], p) {
        lemma_first_violation_forbids(list.drop_first(), p);
    }
}

/// A mount source that a forbidden entry matches is never accepted.
pub proof fn law_forbidden_never_mounted(
    resolved: Resolved,
    home: Seq<char>,
    forbidden: Seq<Forbidden>,
    allowed_dirs: Seq<String>,
    allowed_files: Seq<String>,
    i: int,
)
    requires
        0 <= i < forbidden.len(),
        resolved matches Resolved::Found { canonical, .. } && forbids(forbidden[i], canonical@),
    ensures
        !(mount_verdict(resolved, home, forbidden, allowed_dirs, allowed_files) is Allowed),
{
    if let Resolved::Found { canonical, .. } = resolved {
        lemma_some_violation(forbidden, canonical@, i);
    }
}

proof fn lemma_some_violation(list: Seq<Forbidden>, p: Seq<char>, i: int)
    requires
        0 <= i < list.len(),
        forbids(list[i], p),
    ensures
        first_violation(list, p) is Some,
    decreases list.len(),
{
    if i > 0 && !forbids(list[0], p) {
        assert(list.drop_first()[i - 1] == list[i]);
        lemma_some_violation(list.drop_first(), p, i - 1);
    }
}

/// A path that is itself a symbolic link is never mounted, whatever it
/// points to.
pub proof fn law_symlink_never_mounted(
    canonical: String,
    kind: NodeKind,
    home: Seq<char>,
    forbidden: Seq<Forbidden>,
    allowed_dirs: Seq<String>,
    allowed_files: Seq<String>,
)
    ensures
        !(mount_verdict(
            Resolved::Found { canonical, kind, link: true },
            home,
            forbidden,
            allowed_dirs,
            allowed_files,
        ) is Allowed),
{
}

/// An accepted mount source is under `home` and listed exactly in the
/// allowlist for its kind.
pub proof fn law_accepted_mount_is_listed(
    resolved: Resolved,
    home: Seq<char>,
    forbidden: Seq<Forbidden>,
    allowed_dirs: Seq<String>,
    allowed_files: Seq<String>,
)
    requires
        mount_verdict(resolved, home, forbidden, allowed_dirs, allowed_files) is Allowed,
    ensures
        resolved matches Resolved::Found { canonical, kind, link } && !link && under_or_eq(canonical@, home) && (
        (kind == NodeKind::Directory && listed(allowed_dirs, canonical@)) || (kind == NodeKind::File
            && listed(allowed_files, canonical@))),
{
}

/// The text of a mount error.
pub open spec fn mount_error_message(e: MountError) -> Seq<char> {
    match e {
        MountError::NoAllowlist =>
            "allowed_dirs and allowed_files are empty: configure at least one in ~/.config/celily/config.toml"@,
        MountError::Unresolvable { path, reason } => "cannot resolve "@ + path@ + ": "@ + reason@,
        MountError::Forbidden { path, error } => "cannot mount "@ + path@ + ": "@ + forbidden_message(error),
        MountError::OutsideHome { path, home } => path@ + " is not under "@ + home@,
        MountError::DirNotAllowed { path } => "directory "@ + path@
            + " is not in the allowed_dirs list (exact match required, subtrees are not allowed)"@,
        MountError::FileNotAllowed { path } => "file "@ + path@
            + " is not in the allowed_files list (exact match required)"@,
        MountError::NotFileOrDir { path } => path@ + " is neither a regular file nor a directory"@,
    }
}

impl MountError {
    /// The error text, context first (as `{:#}` prints it).
    pub fn message(&self) -> (r: String)
        ensures
            r@ == mount_error_message(*self),
    {
        let mut v = Vec::new();
        match self {
            MountError::NoAllowlist => {
                push_str(
                    &mut v,
                    "allowed_dirs and allowed_files are empty: configure at least one in ~/.config/celily/config.toml",
                );
            },
            MountError::Unresolvable { path, reason } => {
                push_str(&mut v, "cannot resolve ");
                push_str(&mut v, path.as_str());
                push_str(&mut v, ": ");
                push_str(&mut v, reason.as_str());
            },
            MountError::Forbidden { path, error } => {
                push_str(&mut v, "cannot mount ");
                push_str(&mut v, path.as_str());
                push_str(&mut v, ": ");
                let m = error.message();
                push_str(&mut v, m.as_str());
            },
            MountError::OutsideHome { path, home } => {
                push_str(&mut v, path.as_str());
                push_str(&mut v, " is not under ");
                push_str(&mut v, home.as_str());
            },
            MountError::DirNotAllowed { path } => {
                push_str(&mut v, "directory ");
                push_str(&mut v, path.as_str());
                push_str(
                    &mut v,
                    " is not in the allowed_dirs list (exact match required, subtrees are not allowed)",
                );
            },
            MountError::FileNotAllowed { path } => {
                push_str(&mut v, "file ");
                push_str(&mut v, path.as_str());
                push_str(&mut v, " is not in the allowed_files list (exact match required)");
            },
            MountError::NotFileOrDir { path } => {
                push_str(&mut v, path.as_str());
                push_str(&mut v, " is neither a regular file nor a directory");
            },
        }
        string_of(&v)
    }
}

// ---------------------------------------------------------------------------
// The mount forbidden list
// ---------------------------------------------------------------------------

/// The forbidden list for mount sources, from canonicalized locations:
/// `$HOME` and `~/.config` exactly; `~/.local/share` and `~/.local`
/// exactly when `~/.local` exists (`~/.local/share` only if it exists
/// too); then the subtrees `~/.config/celily`, `~/.ssh`, `~/.gnupg` and
/// `~/.local/share/keyrings` that exist.
pub fn mount_forbidden_list(
    home: String,
    config: String,
    local: Option<String>,
    local_share: Option<String>,
    celily: Option<String>,
    ssh: Option<String>,
    gnupg: Option<String>,
    keyrings: Option<String>,
) -> (r: Vec<Forbidden>)
    ensures
        r@ == Seq::empty().push(Forbidden::Exact { canonical: home, label: "$HOME" }).push(
            Forbidden::Exact { canonical: config, label: "~/.config" },
        ) + (match local {
            Some(l) => (match local_share {
                Some(s) => seq![Forbidden::Exact { canonical: s, label: "~/.local/share" }],
                None => Seq::empty(),
            }) + seq![Forbidden::Exact { canonical: l, label: "~/.local" }],
            None => Seq::empty(),
        }) + subtree_entry(celily, "~/.config/celily") + subtree_entry(ssh, "~/.ssh")
            + subtree_entry(gnupg, "~/.gnupg") + subtree_entry(keyrings, "~/.local/share/keyrings"),
{
    let mut r: Vec<Forbidden> = Vec::new();
    r.push(Forbidden::exact(home, "$HOME"));
    r.push(Forbidden::exact(config, "~/.config"));
    let ghost base = r@;
    match local {
        Some(l) => {
            match local_share {
                Some(s) => r.push(Forbidden::exact(s, "~/.local/share")),
                None => {},
            }
            r.push(Forbidden::exact(l, "~/.local"));
        },
        None => {},
    }
    let ghost mid = r@;
    assert(mid =~= base + (match local {
        Some(l) => (match local_share {
            Some(s) => seq![Forbidden::Exact { canonical: s, label: "~/.local/share" }],
            None => Seq::empty(),
        }) + seq![Forbidden::Exact { canonical: l, label: "~/.local" }],
        None => Seq::empty(),
    }));
    push_subtree(&mut r, celily, "~/.config/celily");
    push_subtree(&mut r, ssh, "~/.ssh");
    push_subtree(&mut r, gnupg, "~/.gnupg");
    push_subtree(&mut r, keyrings, "~/.local/share/keyrings");
    r
}

/// A subtree entry for an existing location, nothing otherwise.
pub open spec fn subtree_entry(c: Option<String>, label: &'static str) -> Seq<Forbidden> {
    match c {
        Some(c) => seq![Forbidden::Subtree { canonical: c, label }],
        None => Seq::empty(),
    }
}

fn push_subtree(r: &mut Vec<Forbidden>, c: Option<String>, label: &'static str)
    ensures
        final(r)@ == old(r)@ + subtree_entry(c, label),
{
    match c {
        Some(c) => {
            r.push(Forbidden::Subtree { canonical: c, label });
        },
        None => {
            assert(old(r)@ + Seq::<Forbidden>::empty() =~= old(r)@);
        },
    }
}

// ---------------------------------------------------------------------------
// Proxy sockets
// ---------------------------------------------------------------------------

/// The socket path of an LXD/Incus `unix:` connect string.
pub open spec fn proxy_socket_path(connect: Seq<char>) -> Option<Seq<char>> {
    if has_prefix(connect, "unix:"@) {
        Some(connect.skip(5))
    } else {
        None
    }
}

/// The socket path of `connect` (`unix:<path>`), or `None` when it is not
/// a Unix socket.
pub fn proxy_connect_path(connect: &str) -> (r: Option<String>)
    ensures
        match r {
            Some(p) => proxy_socket_path(connect@) == Some(p@),
            None => proxy_socket_path(connect@) is None,
        },
{
    let v = chars_of(connect);
    let prefix = chars_of("unix:");
    proof {
        reveal_strlit("unix:");
    }
    if crate::strings::starts_with(&v, &prefix) {
        let rest = slice_chars(&v, 5, v.len());
        Some(string_of(&rest))
    } else {
        None
    }
}

/// The default `$XDG_RUNTIME_DIR` for `uid`: `/run/user/<uid>`.
pub fn default_runtime_dir(uid: u32) -> (r: String)
    ensures
        r@ == "/run/user/"@ + decimal(uid as nat),
{
    let mut v = Vec::new();
    push_str(&mut v, "/run/user/");
    let d = u64_string(uid as u64);
    push_str(&mut v, d.as_str());
    string_of(&v)
}

/// The locations whose canonical forms make up the proxy forbidden list:
/// subtrees `~/.ssh/agent` and, under the runtime directory, `gnupg`,
/// `keyring`, `rbw`, `gcr`, `p11-kit`, `systemd` and `podman`; then the
/// session bus socket `bus` exactly. Each is (path, label, exact).
pub fn proxy_forbidden_targets(home: &str, runtime_dir: &str) -> (r: Vec<(String, &'static str, bool)>)
    ensures
        r@.len() == 9,
        r@[0].0@ == crate::path::join(home@, ".ssh/agent"@) && r@[0].1 == "~/.ssh/agent" && !r@[0].2,
        r@[1].0@ == crate::path::join(runtime_dir@, "gnupg"@) && !r@[1].2,
        r@[2].0@ == crate::path::join(runtime_dir@, "keyring"@) && !r@[2].2,
        r@[3].0@ == crate::path::join(runtime_dir@, "rbw"@) && !r@[3].2,
        r@[4].0@ == crate::path::join(runtime_dir@, "gcr"@) && !r@[4].2,
        r@[5].0@ == crate::path::join(runtime_dir@, "p11-kit"@) && !r@[5].2,
        r@[6].0@ == crate::path::join(runtime_dir@, "systemd"@) && !r@[6].2,
        r@[7].0@ == crate::path::join(runtime_dir@, "podman"@) && !r@[7].2,
        r@[8].0@ == crate::path::join(runtime_dir@, "bus"@) && r@[8].1 == "$XDG_RUNTIME_DIR/bus" && r@[8].2,
{
    let mut r = Vec::new();
    r.push((crate::path::join_path(home, ".ssh/agent"), "~/.ssh/agent", false));
    r.push((crate::path::join_path(runtime_dir, "gnupg"), "$XDG_RUNTIME_DIR/gnupg", false));
    r.push((crate::path::join_path(runtime_dir, "keyring"), "$XDG_RUNTIME_DIR/keyring", false));
    r.push((crate::path::join_path(runtime_dir, "rbw"), "$XDG_RUNTIME_DIR/rbw", false));
    r.push((crate::path::join_path(runtime_dir, "gcr"), "$XDG_RUNTIME_DIR/gcr", false));
    r.push((crate::path::join_path(runtime_dir, "p11-kit"), "$XDG_RUNTIME_DIR/p11-kit", false));
    r.push((crate::path::join_path(runtime_dir, "systemd"), "$XDG_RUNTIME_DIR/systemd", false));
    r.push((crate::path::join_path(runtime_dir, "podman"), "$XDG_RUNTIME_DIR/podman", false));
    r.push((crate::path::join_path(runtime_dir, "bus"), "$XDG_RUNTIME_DIR/bus", true));
    r
}

/// The forbidden list built from resolved targets: each target that
/// canonicalized (`resolved[i]` is `Some`) becomes an entry with its label,
/// exact or subtree as the target says; the others are skipped.
pub fn build_proxy_forbidden_list(
    targets: &Vec<(String, &'static str, bool)>,
    resolved: Vec<Option<String>>,
) -> (r: Vec<Forbidden>)
    requires
        resolved@.len() == targets@.len(),
    ensures
        r@ == resolved_entries(targets@, resolved@),
{
    let mut r: Vec<Forbidden> = Vec::new();
    let mut i: usize = 0;
    let mut res = resolved;
    let ghost all = res@;
    // Reverse the resolutions so that popping yields them front to back.
    let mut items: Vec<Option<String>> = Vec::new();
    while res.len() > 0
        invariant
            items@.len() + res@.len() == all.len(),
            forall|k: int| 0 <= k < items@.len() ==> items@[k] == all[all.len() - 1 - k],
            forall|k: int| 0 <= k < res@.len() ==> res@[k] == all[k],
        decreases res@.len(),
    {
        let x = res.pop().unwrap();
        items.push(x);
    }
    // `items` holds the resolutions back to front.
    while i < targets.len()
        invariant
            i <= targets@.len(),
            targets@.len() == all.len(),
            items@.len() == all.len() - i,
            forall|k: int| 0 <= k < items@.len() ==> items@[k] == all[all.len() - 1 - k],
            r@ == resolved_entries(targets@.take(i as int), all.take(i as int)),
        decreases targets@.len() - i,
    {
        let x = items.pop().unwrap();
        assert(x == all[i as int]);
        let t = &targets[i];
        let ghost tt = targets@.take(i + 1);
        let ghost aa = all.take(i + 1);
        assert(tt.drop_last() =~= targets@.take(i as int));
        assert(aa.drop_last() =~= all.take(i as int));
        match x {
            Some(c) => {
                if t.2 {
                    r.push(Forbidden::Exact { canonical: c, label: t.1 });
                } else {
                    r.push(Forbidden::Subtree { canonical: c, label: t.1 });
                }
            },
            None => {
                assert(r@ + Seq::<Forbidden>::empty() =~= r@);
            },
        }
        i = i + 1;
    }
    assert(targets@.take(targets@.len() as int) =~= targets@);
    assert(all.take(all.len() as int) =~= all);
    r
}

/// The entry for one resolved target.
pub open spec fn resolved_entry(t: (String, &'static str, bool), c: Option<String>) -> Seq<Forbidden> {
    match c {
        Some(c) => if t.2 {
            seq![Forbidden::Exact { canonical: c, label: t.1 }]
        } else {
            seq![Forbidden::Subtree { canonical: c, label: t.1 }]
        },
        None => Seq::empty(),
    }
}

/// Entries for each resolved target, in order.
pub open spec fn resolved_entries(
    targets: Seq<(String, &'static str, bool)>,
    resolved: Seq<Option<String>>,
) -> Seq<Forbidden>
    decreases targets.len(),
{
    if targets.len() == 0 || resolved.len() == 0 {
        Seq::empty()
    } else {
        resolved_entries(targets.drop_last(), resolved.drop_last()) + resolved_entry(
            targets.last(),
            resolved.last(),
        )
    }
}

/// Why a proxy socket was rejected.
#[derive(Debug)]
pub enum ProxyConnectError {
    /// The connect string does not start with `unix:`.
    NotUnix,
    /// The socket path could not be canonicalized.
    Unresolvable { path: String, reason: String },
    /// A forbidden entry matches.
    Forbidden { path: String, error: ForbiddenError },
    /// Neither under `$HOME` nor under the runtime directory.
    OutsideAllowed { path: String, home: String, runtime_dir: String },
}

/// Validate a proxy device's socket once its path has been resolved: the
/// canonical path must pass every entry of the proxy forbidden list and lie
/// under `home` or `runtime_dir`.
pub fn check_proxy_socket(
    path: &str,
    resolved: &Result<String, String>,
    home: &str,
    runtime_dir: &str,
    forbidden: &[Forbidden],
) -> (r: Result<(), ProxyConnectError>)
    ensures
        match resolved {
            Err(reason) => r matches Err(ProxyConnectError::Unresolvable { path: p, reason: q }) && p@
                == path@ && q@ == reason@,
            Ok(c) => match first_violation(forbidden@, c@) {
                Some(i) => r matches Err(ProxyConnectError::Forbidden { path: p, error }) && p@
                    == path@ && error == violation(forbidden@[i]),
                None => if under_or_eq(c@, home@) || under_or_eq(c@, runtime_dir@) {
                    r is Ok
                } else {
                    r matches Err(ProxyConnectError::OutsideAllowed { .. })
                },
            },
        },
{
    match resolved {
        Err(reason) => Err(ProxyConnectError::Unresolvable { path: owned(path), reason: reason.clone() }),
        Ok(c) => {
            match find_violation(forbidden, c.as_str()) {
                Some(i) => {
                    let error = match forbidden[i].check(c.as_str()) {
                        Err(e) => e,
                        Ok(()) => {
                            proof {
                                lemma_first_violation_forbids(forbidden@, c@);
                            }
                            ForbiddenError::Exact { label: "" }
                        },
                    };
                    Err(ProxyConnectError::Forbidden { path: owned(path), error })
                },
                None => {
                    if !is_under_or_eq(c.as_str(), home) && !is_under_or_eq(c.as_str(), runtime_dir) {
                        Err(
                            ProxyConnectError::OutsideAllowed {
                                path: owned(path),
                                home: owned(home),
                                runtime_dir: owned(runtime_dir),
                            },
                        )
                    } else {
                        Ok(())
                    }
                },
            }
        },
    }
}

// ---------------------------------------------------------------------------
// Worktree preconditions
// ---------------------------------------------------------------------------

/// What the file system says about the project's `.git` and `.gitmodules`.
#[derive(Debug, Clone, Copy)]
pub struct GitLayout {
    pub dotgit_exists: bool,
    pub dotgit_is_symlink: bool,
    pub dotgit_is_dir: bool,
    pub gitmodules_exists: bool,
}

/// Why the project cannot use worktree mode (before asking git).
#[derive(Debug, Clone, Copy, PartialEq, Eq, Structural)]
pub enum WorktreeLayoutError {
    NoGitDir,
    GitDirIsSymlink,
    GitDirIsFile,
    HasSubmodules,
}

/// The layout checks, in order: `.git` exists, is not a symlink, is a
/// directory, and there is no `.gitmodules`.
pub open spec fn layout_verdict(l: GitLayout) -> Option<WorktreeLayoutError> {
    if !l.dotgit_exists {
        Some(WorktreeLayoutError::NoGitDir)
    } else if l.dotgit_is_symlink {
        Some(WorktreeLayoutError::GitDirIsSymlink)
    } else if !l.dotgit_is_dir {
        Some(WorktreeLayoutError::GitDirIsFile)
    } else if l.gitmodules_exists {
        Some(WorktreeLayoutError::HasSubmodules)
    } else {
        None
    }
}

/// Check the repository layout for worktree mode.
pub fn check_worktree_layout(l: GitLayout) -> (r: Result<(), WorktreeLayoutError>)
    ensures
        match layout_verdict(l) {
            Some(e) => r == Err::<(), WorktreeLayoutError>(e),
            None => r is Ok,
        },
{
    if !l.dotgit_exists {
        Err(WorktreeLayoutError::NoGitDir)
    } else if l.dotgit_is_symlink {
        Err(WorktreeLayoutError::GitDirIsSymlink)
    } else if !l.dotgit_is_dir {
        Err(WorktreeLayoutError::GitDirIsFile)
    } else if l.gitmodules_exists {
        Err(WorktreeLayoutError::HasSubmodules)
    } else {
        Ok(())
    }
}

/// The text of a layout error, for the project directory and its `.git`.
pub open spec fn layout_error_text(e: WorktreeLayoutError, project_dir: Seq<char>, dotgit: Seq<char>) -> Seq<char> {
    match e {
        WorktreeLayoutError::NoGitDir => "worktree mode requires a git repository (no .git directory found in "@
            + project_dir + ")"@,
        WorktreeLayoutError::GitDirIsSymlink => "worktree mode requires .git to be a directory (found symlink at "@
            + dotgit + ")"@,
        WorktreeLayoutError::GitDirIsFile => "worktree mode requires .git to be a directory (found file at "@ + dotgit
            + ")"@,
        WorktreeLayoutError::HasSubmodules => "worktree mode does not support submodules (.gitmodules detected in "@
            + project_dir + ")"@,
    }
}

impl WorktreeLayoutError {
    /// The error text, for the project directory and its `.git`.
    pub fn message(&self, project_dir: &str, dotgit: &str) -> (r: String)
        ensures
            r@ == layout_error_text(*self, project_dir@, dotgit@),
            r@ == match *self {
                WorktreeLayoutError::NoGitDir => "worktree mode requires a git repository (no .git directory found in "@
                    + project_dir@ + ")"@,
                WorktreeLayoutError::GitDirIsSymlink => "worktree mode requires .git to be a directory (found symlink at "@
                    + dotgit@ + ")"@,
                WorktreeLayoutError::GitDirIsFile => "worktree mode requires .git to be a directory (found file at "@
                    + dotgit@ + ")"@,
                WorktreeLayoutError::HasSubmodules => "worktree mode does not support submodules (.gitmodules detected in "@
                    + project_dir@ + ")"@,
            },
    {
        let mut v = Vec::new();
        match self {
            WorktreeLayoutError::NoGitDir => {
                push_str(&mut v, "worktree mode requires a git repository (no .git directory found in ");
                push_str(&mut v, project_dir);
            },
            WorktreeLayoutError::GitDirIsSymlink => {
                push_str(&mut v, "worktree mode requires .git to be a directory (found symlink at ");
                push_str(&mut v, dotgit);
            },
            WorktreeLayoutError::GitDirIsFile => {
                push_str(&mut v, "worktree mode requires .git to be a directory (found file at ");
                push_str(&mut v, dotgit);
            },
            WorktreeLayoutError::HasSubmodules => {
                push_str(&mut v, "worktree mode does not support submodules (.gitmodules detected in ");
                push_str(&mut v, project_dir);
            },
        }
        push_str(&mut v, ")");
        string_of(&v)
    }
}

/// `git -C <dir> rev-parse HEAD`: succeeds when the repository has a
/// commit.
pub fn rev_parse_head_command(project_dir: &str) -> (r: Vec<String>)
    ensures
        crate::strings::strings_view(r@) == seq!["git"@, "-C"@, project_dir@, "rev-parse"@, "HEAD"@],
{
    let mut r = Vec::new();
    r.push(crate::strings::owned("git"));
    r.push(crate::strings::owned("-C"));
    r.push(crate::strings::owned(project_dir));
    r.push(crate::strings::owned("rev-parse"));
    r.push(crate::strings::owned("HEAD"));
    assert(crate::strings::strings_view(r@) =~= seq!["git"@, "-C"@, project_dir@, "rev-parse"@, "HEAD"@]);
    r
}

/// `git check-ref-format --branch <branch>`: succeeds when the branch name
/// is valid.
pub fn check_ref_format_command(branch: &str) -> (r: Vec<String>)
    ensures
        crate::strings::strings_view(r@) == seq!["git"@, "check-ref-format"@, "--branch"@, branch@],
{
    let mut r = Vec::new();
    r.push(crate::strings::owned("git"));
    r.push(crate::strings::owned("check-ref-format"));
    r.push(crate::strings::owned("--branch"));
    r.push(crate::strings::owned(branch));
    assert(crate::strings::strings_view(r@) =~= seq!["git"@, "check-ref-format"@, "--branch"@, branch@]);
    r
}

/// Why worktree mode cannot be used: the layout, or a git check that failed
/// with the command's error.
#[derive(Debug)]
pub enum WorktreeCheckError {
    Layout(WorktreeLayoutError),
    /// `git rev-parse HEAD` failed: the repository has no commit.
    NoCommit(CommandError),
    /// `git check-ref-format --branch` refused the branch name.
    BadBranch(CommandError),
}

/// The worktree preconditions in order: the layout (see
/// [`check_worktree_layout`]), then what `git rev-parse HEAD` answered
/// (`head`, asked once the layout passed), then what `git check-ref-format`
/// answered for the branch (`branch_check`, asked once `head` succeeded).
pub fn worktree_preconditions(
    l: GitLayout,
    head: Option<Result<(), CommandError>>,
    branch_check: Option<Result<(), CommandError>>,
) -> (r: Result<(), WorktreeCheckError>)
    requires
        layout_verdict(l) is None ==> head is Some,
        layout_verdict(l) is None && head == Some(Ok::<(), CommandError>(())) ==> branch_check is Some,
    ensures
        match layout_verdict(l) {
            Some(e) => r == Err::<(), WorktreeCheckError>(WorktreeCheckError::Layout(e)),
            None => match head {
                Some(Err(ce)) => r == Err::<(), WorktreeCheckError>(WorktreeCheckError::NoCommit(ce)),
                _ => match branch_check {
                    Some(Err(ce)) => r == Err::<(), WorktreeCheckError>(WorktreeCheckError::BadBranch(ce)),
                    _ => r is Ok,
                },
            },
        },
{
    match check_worktree_layout(l) {
        Err(e) => Err(WorktreeCheckError::Layout(e)),
        Ok(()) => match head {
            Some(Err(ce)) => Err(WorktreeCheckError::NoCommit(ce)),
            _ => match branch_check {
                Some(Err(ce)) => Err(WorktreeCheckError::BadBranch(ce)),
                _ => Ok(()),
            },
        },
    }
}

impl WorktreeCheckError {
    /// The error text, for the project directory, its `.git` and the
    /// branch: a failed git check is explained, then the command's error.
    pub fn message(&self, project_dir: &str, dotgit: &str, branch: &str) -> (r: String)
        ensures
            match self {
                WorktreeCheckError::Layout(e) => r@ == layout_error_text(*e, project_dir@, dotgit@),
                WorktreeCheckError::NoCommit(ce) => r@ == "worktree mode requires at least one commit in the repository: "@
                    + error_text(*ce),
                WorktreeCheckError::BadBranch(ce) => r@ == "invalid worktree branch name '"@ + branch@ + "': "@
                    + error_text(*ce),
            },
    {
        match self {
            WorktreeCheckError::Layout(e) => e.message(project_dir, dotgit),
            WorktreeCheckError::NoCommit(ce) => {
                let mut v = Vec::new();
                push_str(&mut v, "worktree mode requires at least one commit in the repository: ");
                push_str(&mut v, ce.message().as_str());
                string_of(&v)
            },
            WorktreeCheckError::BadBranch(ce) => {
                let mut v = Vec::new();
                push_str(&mut v, "invalid worktree branch name '");
                push_str(&mut v, branch);
                push_str(&mut v, "': ");
                push_str(&mut v, ce.message().as_str());
                string_of(&v)
            },
        }
    }
}

} // verus!
