//! Host and container paths.
//!
//! Paths are carried as text. Like `std::path::Path` on Unix, two paths are
//! the same when they have the same components: repeated separators, a
//! trailing separator and interior `.` segments do not count, a leading `/`
//! is a root component and a leading `.` segment is kept.

use vstd::prelude::*;
use crate::strings::{chars_eq, chars_of, copy_chars, has_prefix, owned, push_chars, slice_chars, string_of};

verus! {

// ---------------------------------------------------------------------------
// Model
// ---------------------------------------------------------------------------

/// `s` split on every `sep` (`str::split`): always at least one piece.
pub open spec fn split_on(s: Seq<char>, sep: char) -> Seq<Seq<char>>
    decreases s.len(),
{
    if s.len() == 0 {
        seq![Seq::<char>::empty()]
    } else if s.last() == sep {
        split_on(s.drop_last(), sep).push(Seq::<char>::empty())
    } else {
        let p = split_on(s.drop_last(), sep);
        p.update(p.len() - 1, p.last().push(s.last()))
    }
}

/// A segment that names something: neither empty nor `.`.
pub open spec fn is_named(g: Seq<char>) -> bool {
    g.len() > 0 && g != seq!['.']
}

/// The named segments of `segs`, in order.
pub open spec fn named_segments(segs: Seq<Seq<char>>) -> Seq<Seq<char>>
    decreases segs.len(),
{
    if segs.len() == 0 {
        segs
    } else {
        named_segments(segs.drop_last()) + (if is_named(segs.last()) {
            seq![segs.last()]
        } else {
            Seq::<Seq<char>>::empty()
        })
    }
}

/// The root component, written `/`.
pub open spec fn root_component() -> Seq<char> {
    seq!['/']
}

/// The components of a path (`Path::components`), each as text: `/` for the
/// root, `.` for a leading current-directory segment, else the segment.
pub open spec fn components(s: Seq<char>) -> Seq<Seq<char>> {
    let segs = split_on(s, '/');
    let head = if s.len() > 0 && s[0] == '/' {
        seq![root_component()]
    } else if segs[0] == seq!['.'] {
        seq![seq!['.']]
    } else {
        Seq::<Seq<char>>::empty()
    };
    head + named_segments(segs)
}

/// `p` is a prefix of `s`.
pub open spec fn is_prefix_of<A>(p: Seq<A>, s: Seq<A>) -> bool {
    p.len() <= s.len() && s.take(p.len() as int) == p
}

/// Two paths name the same place component for component (`Path == Path`).
pub open spec fn same_path(a: Seq<char>, b: Seq<char>) -> bool {
    components(a) == components(b)
}

/// `path` equals `parent` or lies below it (`Path::starts_with`).
pub open spec fn under_or_eq(path: Seq<char>, parent: Seq<char>) -> bool {
    is_prefix_of(components(parent), components(path))
}

/// `base` extended by `rest` (`PathBuf::push` on Unix): an absolute `rest`
/// replaces `base`; otherwise a `/` is inserted when `base` is non-empty and
/// does not already end in one.
pub open spec fn join(base: Seq<char>, rest: Seq<char>) -> Seq<char> {
    if rest.len() > 0 && rest[0] == '/' {
        rest
    } else if base.len() > 0 && base.last() != '/' {
        base + seq!['/'] + rest
    } else {
        base + rest
    }
}

/// Tilde expansion: `~` alone becomes `home`, `~/rest` becomes `home`
/// joined with `rest`, anything else (including `~user/...`) is unchanged.
pub open spec fn expand_tilde(path: Seq<char>, home: Seq<char>) -> Seq<char> {
    if path == seq!['~'] {
        home
    } else if has_prefix(path, seq!['~', '/']) {
        join(home, path.skip(2))
    } else {
        path
    }
}

// ---------------------------------------------------------------------------
// Lemmas
// ---------------------------------------------------------------------------

proof fn lemma_split_nonempty(s: Seq<char>, sep: char)
    ensures
        split_on(s, sep).len() >= 1,
    decreases s.len(),
{
    if s.len() > 0 {
        lemma_split_nonempty(s.drop_last(), sep);
    }
}

/// Every path lies under itself.
pub proof fn law_under_or_eq_reflexive(p: Seq<char>)
    ensures
        under_or_eq(p, p),
{
    assert(components(p).take(components(p).len() as int) =~= components(p));
}

/// Lying under is transitive: what lies under `b`, which lies under `c`,
/// lies under `c`.
pub proof fn law_under_or_eq_transitive(a: Seq<char>, b: Seq<char>, c: Seq<char>)
    requires
        under_or_eq(a, b),
        under_or_eq(b, c),
    ensures
        under_or_eq(a, c),
{
    let ca = components(a);
    let cb = components(b);
    let cc = components(c);
    assert(ca.take(cc.len() as int) =~= cb.take(cc.len() as int)) by {
        assert forall|i: int| 0 <= i < cc.len() implies ca.take(cc.len() as int)[i] == cb.take(
            cc.len() as int,
        )[i] by {
            assert(ca.take(cb.len() as int)[i] == cb[i]);
        }
    }
}

/// Two paths that lie under each other are the same path.
pub proof fn law_under_or_eq_antisymmetric(a: Seq<char>, b: Seq<char>)
    requires
        under_or_eq(a, b),
        under_or_eq(b, a),
    ensures
        same_path(a, b),
{
    let ca = components(a);
    let cb = components(b);
    assert(ca.len() == cb.len());
    assert(ca =~= cb) by {
        assert(ca.take(cb.len() as int) =~= ca);
    }
}

// ---------------------------------------------------------------------------
// Executable
// ---------------------------------------------------------------------------

/// The components of `s` (see [`components`]).
pub fn path_components(s: &Vec<char>) -> (r: Vec<Vec<char>>)
    ensures
        r@.len() == components(s@).len(),
        forall|i: int| 0 <= i < r@.len() ==> #[trigger] r@[i]@ == components(s@)[i],
{
    let ghost segs = split_on(s@, '/');
    let mut done: Vec<Vec<char>> = Vec::new();
    let mut cur: Vec<char> = Vec::new();
    let mut i: usize = 0;
    proof {
        assert(s@.take(0) == Seq::<char>::empty());
    }
    while i < s.len()
        invariant
            i <= s.len(),
            split_on(s@.take(i as int), '/').len() >= 1,
            cur@ == split_on(s@.take(i as int), '/').last(),
            done@.len() == named_segments(split_on(s@.take(i as int), '/').drop_last()).len(),
            forall|k: int|
                0 <= k < done@.len() ==> #[trigger] done@[k]@ == named_segments(
                    split_on(s@.take(i as int), '/').drop_last(),
                )[k],
        decreases s.len() - i,
    {
        let ghost p = split_on(s@.take(i as int), '/');
        let ghost pre = named_segments(p.drop_last());
        assert(s@.take(i + 1).drop_last() == s@.take(i as int));
        assert(s@.take(i + 1).last() == s@[i as int]);
        if s[i] == '/' {
            let ghost q = split_on(s@.take(i + 1), '/');
            assert(q == p.push(Seq::<char>::empty()));
            assert(q.drop_last() == p);
            assert(p.drop_last().push(p.last()) == p);
            let is_dot = cur.len() == 1 && cur[0] == '.';
            if cur.len() > 0 && !is_dot {
                assert(is_named(cur@)) by {
                    if cur@ == seq!['.'] {
                        assert(cur@[0] == '.');
                    }
                }
                assert(named_segments(p) == pre + seq![cur@]);
                let ghost old_done = done@;
                done.push(cur);
                assert forall|k: int| 0 <= k < done@.len() implies #[trigger] done@[k]@
                    == named_segments(q.drop_last())[k] by {
                    if k < old_done.len() {
                        assert(done@[k] == old_done[k]);
                    }
                }
            } else {
                assert(!is_named(cur@)) by {
                    if cur@.len() == 1 && cur@[0] == '.' {
                        assert(cur@ =~= seq!['.']);
                    }
                }
                assert(named_segments(p) == pre + Seq::<Seq<char>>::empty());
                assert(named_segments(p) =~= pre);
            }
            cur = Vec::new();
            assert(q.last() == Seq::<char>::empty());
        } else {
            let ghost q = split_on(s@.take(i + 1), '/');
            assert(q == p.update(p.len() - 1, p.last().push(s@[i as int])));
            assert(q.drop_last() =~= p.drop_last());
            cur.push(s[i]);
        }
        i = i + 1;
        proof {
            lemma_split_nonempty(s@.take(i as int), '/');
        }
    }
    assert(s@.take(s.len() as int) == s@);
    let ghost p = split_on(s@, '/');
    assert(p.drop_last().push(p.last()) == p);
    let is_dot = cur.len() == 1 && cur[0] == '.';
    if cur.len() > 0 && !is_dot {
        assert(is_named(cur@)) by {
            if cur@ == seq!['.'] {
                assert(cur@[0] == '.');
            }
        }
        assert(named_segments(p) == named_segments(p.drop_last()) + seq![cur@]);
        let ghost old_done = done@;
        done.push(cur);
        assert(done@.len() == named_segments(p).len());
        assert forall|k: int| 0 <= k < done@.len() implies #[trigger] done@[k]@
            == named_segments(p)[k] by {
            if k < old_done.len() {
                assert(done@[k] == old_done[k]);
            }
        }
    } else {
        assert(!is_named(cur@)) by {
            if cur@.len() == 1 && cur@[0] == '.' {
                assert(cur@ =~= seq!['.']);
            }
        }
        assert(named_segments(p) =~= named_segments(p.drop_last()));
    }
    assert(done@.len() == named_segments(p).len());
    assert(forall|k: int| 0 <= k < done@.len() ==> #[trigger] done@[k]@ == named_segments(p)[k]);
    // `done` now holds the named segments of the whole path.
    let mut r: Vec<Vec<char>> = Vec::new();
    let rooted = s.len() > 0 && s[0] == '/';
    let mut lead_dot = false;
    if !rooted {
        // The first piece of the split is "." exactly when the path starts
        // with "." followed by "/" or by nothing.
        let mut k: usize = 0;
        while k < s.len() && s[k] != '/'
            invariant
                k <= s.len(),
                forall|j: int| 0 <= j < k ==> s@[j] != '/',
            decreases s.len() - k,
        {
            k = k + 1;
        }
        lead_dot = k == 1 && s[0] == '.';
        proof {
            lemma_first_piece(s@, k as int);
            if lead_dot {
                assert(s@.take(1) =~= seq!['.']);
            } else if p[0] == seq!['.'] {
                assert(s@.take(k as int).len() == 1);
                assert(s@.take(k as int)[0] == '.');
                assert(s@[0] == '.');
                assert(false);
            }
            assert(lead_dot == (p[0] == seq!['.']));
        }
    }
    if rooted {
        let mut root = Vec::new();
        root.push('/');
        r.push(root);
    } else if lead_dot {
        let mut dot = Vec::new();
        dot.push('.');
        r.push(dot);
    }
    let ghost head = r@;
    let ghost hv = Seq::new(head.len(), |k: int| head[k]@);
    assert(hv =~= components(s@).take(head.len() as int)) by {
        if rooted {
            assert(head[0]@ == root_component());
        } else if lead_dot {
            assert(head[0]@ =~= seq!['.']);
        }
    }
    let ghost dv = done@;
    r.append(&mut done);
    proof {
        let c = components(s@);
        let hs = if rooted {
            seq![root_component()]
        } else if lead_dot {
            seq![seq!['.']]
        } else {
            Seq::<Seq<char>>::empty()
        };
        assert(!rooted ==> (lead_dot == (p[0] == seq!['.'])));
        assert(c == hs + named_segments(p));
        assert(hs.len() == head.len());
        assert(c.len() == head.len() + dv.len());
        assert forall|i: int| 0 <= i < r@.len() implies #[trigger] r@[i]@ == c[i] by {
            if i < head.len() {
                assert(r@[i] == head[i]);
                assert(hv[i] == c.take(head.len() as int)[i]);
            } else {
                assert(r@[i] == dv[i - head.len()]);
            }
        }
    }
    r
}

/// The first piece of `s` split on `/` is `s[..k]` when `k` is the first
/// separator position (or the length).
proof fn lemma_first_piece(s: Seq<char>, k: int)
    requires
        0 <= k <= s.len(),
        forall|j: int| 0 <= j < k ==> s[j] != '/',
        k == s.len() || s[k] == '/',
    ensures
        split_on(s, '/')[0] == s.take(k),
    decreases s.len(),
{
    lemma_split_nonempty(s, '/');
    if s.len() == 0 {
    } else if k == s.len() {
        let t = s.drop_last();
        lemma_first_piece(t, k - 1);
        lemma_split_nonempty(t, '/');
        let p = split_on(t, '/');
        // No separator at all: a single piece.
        lemma_no_sep_single(t);
        assert(p.len() == 1);
        assert(split_on(s, '/')[0] == p[0].push(s.last()));
        assert(t.take(k - 1).push(s.last()) =~= s.take(k));
    } else {
        let t = s.drop_last();
        if k == s.len() - 1 {
            lemma_no_sep_single(t);
            lemma_split_nonempty(t, '/');
            assert(split_on(t, '/')[0] == t);
            assert(t =~= s.take(k));
        } else {
            lemma_first_piece(t, k);
            lemma_split_nonempty(t, '/');
            assert(t.take(k) =~= s.take(k));
            assert(split_on(t, '/').len() >= 2) by {
                lemma_sep_count(t, k);
            }
        }
    }
}

/// A text without separators splits into one piece: itself.
proof fn lemma_no_sep_single(s: Seq<char>)
    requires
        forall|j: int| 0 <= j < s.len() ==> s[j] != '/',
    ensures
        split_on(s, '/') == seq![s],
    decreases s.len(),
{
    if s.len() > 0 {
        let t = s.drop_last();
        lemma_no_sep_single(t);
        assert(t.push(s.last()) =~= s);
        let p = split_on(t, '/');
        assert(p.update(p.len() - 1, p.last().push(s.last())) =~= seq![s]);
    } else {
        assert(s =~= Seq::<char>::empty());
        assert(split_on(s, '/') =~= seq![s]);
    }
}

/// A separator at position `k` yields at least two pieces.
proof fn lemma_sep_count(s: Seq<char>, k: int)
    requires
        0 <= k < s.len(),
        s[k] == '/',
    ensures
        split_on(s, '/').len() >= 2,
    decreases s.len(),
{
    lemma_split_nonempty(s.drop_last(), '/');
    if k < s.len() - 1 {
        lemma_sep_count(s.drop_last(), k);
    }
}

/// Whether two component lists are equal.
fn components_eq(a: &Vec<Vec<char>>, b: &Vec<Vec<char>>, n: usize) -> (r: bool)
    requires
        n <= a.len(),
        n <= b.len(),
    ensures
        r == (forall|i: int| 0 <= i < n ==> #[trigger] a@[i]@ == b@[i]@),
{
    let mut i: usize = 0;
    while i < n
        invariant
            i <= n,
            n <= a.len(),
            n <= b.len(),
            forall|j: int| 0 <= j < i ==> #[trigger] a@[j]@ == b@[j]@,
        decreases n - i,
    {
        if !chars_eq(&a[i], &b[i]) {
            return false;
        }
        i = i + 1;
    }
    true
}

/// Whether `a` and `b` are the same path (`Path == Path`).
pub fn paths_equal(a: &str, b: &str) -> (r: bool)
    ensures
        r == same_path(a@, b@),
{
    let ca = path_components(&chars_of(a));
    let cb = path_components(&chars_of(b));
    if ca.len() != cb.len() {
        return false;
    }
    let r = components_eq(&ca, &cb, ca.len());
    proof {
        let x = components(a@);
        let y = components(b@);
        if r {
            assert forall|i: int| 0 <= i < x.len() implies x[i] == y[i] by {
                assert(ca@[i]@ == x[i]);
                assert(cb@[i]@ == y[i]);
                assert(ca@[i]@ == cb@[i]@);
            }
            assert(x =~= y);
        } else if x == y {
            assert(forall|i: int| 0 <= i < ca.len() ==> #[trigger] ca@[i]@ == cb@[i]@);
        }
    }
    r
}

/// Return true if `path` is equal to `parent` or is a proper descendant of
/// it, comparing whole components (so `/ab` is not under `/a`).
///
/// Does not resolve symlinks - canonical paths should be used if symlinks
/// are a concern.
pub fn is_under_or_eq(path: &str, parent: &str) -> (r: bool)
    ensures
        r == under_or_eq(path@, parent@),
{
    let cp = path_components(&chars_of(path));
    let cq = path_components(&chars_of(parent));
    if cq.len() > cp.len() {
        return false;
    }
    let r = components_eq(&cq, &cp, cq.len());
    proof {
        let x = components(parent@);
        let y = components(path@);
        if r {
            assert forall|i: int| 0 <= i < x.len() implies y.take(x.len() as int)[i] == x[i] by {
                assert(cq@[i]@ == x[i]);
                assert(cp@[i]@ == y[i]);
                assert(cq@[i]@ == cp@[i]@);
            }
            assert(y.take(x.len() as int) =~= x);
        } else if is_prefix_of(x, y) {
            assert forall|i: int| 0 <= i < cq.len() implies #[trigger] cq@[i]@ == cp@[i]@ by {
                assert(y.take(x.len() as int)[i] == y[i]);
            }
        }
    }
    r
}

/// `base` joined with `rest` (see [`join`]).
pub fn join_chars(base: &Vec<char>, rest: &Vec<char>) -> (r: Vec<char>)
    ensures
        r@ == join(base@, rest@),
{
    if rest.len() > 0 && rest[0] == '/' {
        copy_chars(rest)
    } else if base.len() > 0 && base[base.len() - 1] != '/' {
        let mut r = copy_chars(base);
        r.push('/');
        push_chars(&mut r, rest);
        r
    } else {
        let mut r = copy_chars(base);
        push_chars(&mut r, rest);
        r
    }
}

/// `base` joined with `rest` (`Path::join`).
pub fn join_path(base: &str, rest: &str) -> (r: String)
    ensures
        r@ == join(base@, rest@),
{
    let v = join_chars(&chars_of(base), &chars_of(rest));
    string_of(&v)
}

fn expand_tilde_chars(path: &str, home: &str) -> (r: String)
    ensures
        r@ == expand_tilde(path@, home@),
{
    let p = chars_of(path);
    if p.len() == 1 && p[0] == '~' {
        assert(p@ =~= seq!['~']);
        return owned(home);
    }
    assert(p@ != seq!['~']) by {
        if p@ == seq!['~'] {
            assert(p@.len() == 1 && p@[0] == '~');
        }
    }
    if p.len() >= 2 && p[0] == '~' && p[1] == '/' {
        assert(p@.take(2) =~= seq!['~', '/']);
        let rest = slice_chars(&p, 2, p.len());
        assert(rest@ == p@.skip(2));
        let v = join_chars(&chars_of(home), &rest);
        return string_of(&v);
    }
    assert(!has_prefix(p@, seq!['~', '/'])) by {
        if has_prefix(p@, seq!['~', '/']) {
            assert(p@.take(2)[0] == '~' && p@.take(2)[1] == '/');
        }
    }
    owned(path)
}

/// Expand a leading `~` in a host path to `home`.
///
/// Only `~` alone or `~/...` are expanded. Paths like `~user/...` are
/// returned unchanged -- resolving another user's home directory is outside
/// the scope of this function (standard POSIX behaviour for non-shell
/// tilde expansion).
///
/// Paths without a leading `~` are returned unchanged.
pub fn expand_host_tilde(path: &str, home: &str) -> (r: String)
    ensures
        r@ == expand_tilde(path@, home@),
{
    expand_tilde_chars(path, home)
}

/// Expand a leading `~` in a container path to the container's home directory.
///
/// Only `~` alone or `~/...` are expanded. Paths like `~user/...` are
/// returned unchanged.
///
/// Paths without a leading `~` are returned unchanged.
pub fn expand_container_tilde(path: &str, container_home: &str) -> (r: String)
    ensures
        r@ == expand_tilde(path@, container_home@),
{
    expand_tilde_chars(path, container_home)
}

} // verus!
