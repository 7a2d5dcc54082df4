//! Directories between the container home and the mount targets.
//!
//! LXD creates the missing parents of a mount target owned by root; the
//! ones under the container home are handed back to the container user.
//! They are visited in the order of `BTreeSet<PathBuf>`: component by
//! component, the root before `.` before `..` before any name, names by
//! character.

use vstd::prelude::*;
use crate::naming::render_components;
use crate::order::{
    char_order, chars_less, lemma_char_order, lemma_lex_irreflexive, lemma_lex_step,
    lemma_lex_strict_total, lemma_lex_total, lemma_lex_transitive, lex_lt, strict_total,
};
use crate::path::{components, is_prefix_of, path_components};
use crate::strings::{chars_eq, chars_of, string_of, strings_view};

verus! {

// ---------------------------------------------------------------------------
// Order
// ---------------------------------------------------------------------------

/// The rank of a component: the root, `.`, `..`, then names.
pub open spec fn comp_rank(c: Seq<char>) -> int {
    if c == seq!['/'] {
        1
    } else if c == seq!['.'] {
        2
    } else if c == seq!['.', '.'] {
        3
    } else {
        4
    }
}

/// `Component` order: by rank, names by character.
pub open spec fn comp_lt(x: Seq<char>, y: Seq<char>) -> bool {
    comp_rank(x) < comp_rank(y) || (comp_rank(x) == 4 && comp_rank(y) == 4 && lex_lt(
        x,
        y,
        char_order(),
    ))
}

pub open spec fn comp_order() -> spec_fn(Seq<char>, Seq<char>) -> bool {
    |x: Seq<char>, y: Seq<char>| comp_lt(x, y)
}

/// `Path` order on component lists.
pub open spec fn path_lt(a: Seq<Seq<char>>, b: Seq<Seq<char>>) -> bool {
    lex_lt(a, b, comp_order())
}

/// Strictly increasing under [`path_lt`] (so without repeats).
pub open spec fn strictly_sorted(s: Seq<Seq<Seq<char>>>) -> bool {
    forall|i: int, j: int| 0 <= i < j < s.len() ==> path_lt(#[trigger] s[i], #[trigger] s[j])
}

proof fn lemma_comp_order()
    ensures
        strict_total(comp_order()),
{
    lemma_char_order();
    lemma_lex_strict_total(char_order());
    let f = comp_order();
    assert forall|x: Seq<char>| !(#[trigger] f(x, x)) by {
        lemma_lex_irreflexive(x, char_order());
    }
    assert forall|x: Seq<char>, y: Seq<char>, z: Seq<char>| #[trigger] f(x, y) && #[trigger] f(y, z)
        implies f(x, z) by {
        if comp_rank(x) == 4 && comp_rank(y) == 4 && comp_rank(z) == 4 {
            if lex_lt(x, y, char_order()) && lex_lt(y, z, char_order()) {
                lemma_lex_transitive(x, y, z, char_order());
            }
        }
    }
    assert forall|x: Seq<char>, y: Seq<char>| x == y || #[trigger] f(x, y) || f(y, x) by {
        lemma_lex_total(x, y, char_order());
    }
}

/// [`path_lt`] is a strict total order.
pub proof fn lemma_path_order()
    ensures
        strict_total(|a: Seq<Seq<char>>, b: Seq<Seq<char>>| path_lt(a, b)),
{
    lemma_comp_order();
    lemma_lex_strict_total(comp_order());
    let f = |a: Seq<Seq<char>>, b: Seq<Seq<char>>| lex_lt(a, b, comp_order());
    let g = |a: Seq<Seq<char>>, b: Seq<Seq<char>>| path_lt(a, b);
    assert forall|x: Seq<Seq<char>>| !(#[trigger] g(x, x)) by {
        assert(!f(x, x));
    }
    assert forall|x: Seq<Seq<char>>, y: Seq<Seq<char>>, z: Seq<Seq<char>>| #[trigger] g(x, y)
        && #[trigger] g(y, z) implies g(x, z) by {
        assert(f(x, y) && f(y, z));
    }
    assert forall|x: Seq<Seq<char>>, y: Seq<Seq<char>>| x == y || #[trigger] g(x, y) || g(y, x) by {
        assert(x == y || f(x, y) || f(y, x));
    }
}

// ---------------------------------------------------------------------------
// Executable comparisons
// ---------------------------------------------------------------------------

/// Component lists held as character vectors, taken as text.
pub open spec fn comps_view(v: Seq<Vec<char>>) -> Seq<Seq<char>> {
    Seq::new(v.len(), |i: int| v[i]@)
}

/// Lists of component lists, taken as text.
pub open spec fn paths_view(v: Seq<Vec<Vec<char>>>) -> Seq<Seq<Seq<char>>> {
    Seq::new(v.len(), |i: int| comps_view(v[i]@))
}

/// The rank of a component (see [`comp_rank`]).
fn rank(c: &Vec<char>) -> (r: u8)
    ensures
        r == comp_rank(c@),
{
    let root = chars_of("/");
    let cur = chars_of(".");
    let up = chars_of("..");
    proof {
        reveal_strlit("/");
        reveal_strlit(".");
        reveal_strlit("..");
        assert("/"@ =~= seq!['/']);
        assert("."@ =~= seq!['.']);
        assert(".."@ =~= seq!['.', '.']);
    }
    if chars_eq(c, &root) {
        1
    } else if chars_eq(c, &cur) {
        2
    } else if chars_eq(c, &up) {
        3
    } else {
        4
    }
}

fn comp_less(a: &Vec<char>, b: &Vec<char>) -> (r: bool)
    ensures
        r == comp_lt(a@, b@),
{
    let ra = rank(a);
    let rb = rank(b);
    if ra < rb {
        true
    } else if ra == 4 && rb == 4 {
        chars_less(a, b)
    } else {
        false
    }
}

/// Two component lists are the same.
fn comps_equal(a: &Vec<Vec<char>>, b: &Vec<Vec<char>>) -> (r: bool)
    ensures
        r == (comps_view(a@) == comps_view(b@)),
{
    if a.len() != b.len() {
        assert(comps_view(a@).len() != comps_view(b@).len());
        return false;
    }
    let mut i: usize = 0;
    while i < a.len()
        invariant
            i <= a@.len(),
            a@.len() == b@.len(),
            forall|j: int| 0 <= j < i ==> a@[j]@ == b@[j]@,
        decreases a@.len() - i,
    {
        if !chars_eq(&a[i], &b[i]) {
            assert(comps_view(a@)[i as int] != comps_view(b@)[i as int]);
            return false;
        }
        i = i + 1;
    }
    assert(comps_view(a@) =~= comps_view(b@));
    true
}

/// `p` is a prefix of `a`, component for component.
fn comps_prefix(p: &Vec<Vec<char>>, a: &Vec<Vec<char>>) -> (r: bool)
    ensures
        r == is_prefix_of(comps_view(p@), comps_view(a@)),
{
    if p.len() > a.len() {
        return false;
    }
    let mut i: usize = 0;
    while i < p.len()
        invariant
            i <= p@.len(),
            p@.len() <= a@.len(),
            forall|j: int| 0 <= j < i ==> p@[j]@ == a@[j]@,
        decreases p@.len() - i,
    {
        if !chars_eq(&p[i], &a[i]) {
            assert(comps_view(a@).take(p@.len() as int)[i as int] != comps_view(p@)[i as int]);
            return false;
        }
        i = i + 1;
    }
    assert(comps_view(a@).take(p@.len() as int) =~= comps_view(p@));
    true
}

fn path_less(a: &Vec<Vec<char>>, b: &Vec<Vec<char>>) -> (r: bool)
    ensures
        r == path_lt(comps_view(a@), comps_view(b@)),
{
    let ghost x = comps_view(a@);
    let ghost y = comps_view(b@);
    let mut i: usize = 0;
    proof {
        assert(x.skip(0) =~= x);
        assert(y.skip(0) =~= y);
    }
    while i < a.len() && i < b.len()
        invariant
            i <= a@.len(),
            i <= b@.len(),
            x == comps_view(a@),
            y == comps_view(b@),
            path_lt(x, y) == lex_lt(x.skip(i as int), y.skip(i as int), comp_order()),
        decreases a@.len() - i,
    {
        if !chars_eq(&a[i], &b[i]) {
            proof {
                assert(x.skip(i as int)[0] == x[i as int]);
                assert(y.skip(i as int)[0] == y[i as int]);
            }
            return comp_less(&a[i], &b[i]);
        }
        proof {
            lemma_lex_step(x, y, i as int, comp_order());
        }
        i = i + 1;
    }
    i == a.len() && i < b.len()
}

// ---------------------------------------------------------------------------
// Sorted insertion
// ---------------------------------------------------------------------------

fn copy_comps(v: &Vec<Vec<char>>, n: usize) -> (r: Vec<Vec<char>>)
    requires
        n <= v@.len(),
    ensures
        comps_view(r@) == comps_view(v@).take(n as int),
{
    let mut r: Vec<Vec<char>> = Vec::new();
    let mut i: usize = 0;
    while i < n
        invariant
            i <= n,
            n <= v@.len(),
            comps_view(r@) == comps_view(v@).take(i as int),
            r@.len() == i,
        decreases n - i,
    {
        let c = crate::strings::copy_chars(&v[i]);
        let ghost before = r@;
        r.push(c);
        proof {
            assert(r@[i as int]@ == v@[i as int]@);
            assert forall|j: int| 0 <= j < i implies r@[j]@ == v@[j]@ by {
                assert(r@[j] == before[j]);
                assert(comps_view(before)[j] == comps_view(v@).take(i as int)[j]);
            }
            assert(comps_view(r@) =~= comps_view(v@).take(i + 1));
        }
        i = i + 1;
    }
    r
}

/// Insert `x` into the strictly sorted `acc`, unless it is there already.
fn insert_sorted(acc: &mut Vec<Vec<Vec<char>>>, x: Vec<Vec<char>>)
    requires
        strictly_sorted(paths_view(old(acc)@)),
    ensures
        strictly_sorted(paths_view(final(acc)@)),
        paths_view(final(acc)@).to_set() == paths_view(old(acc)@).to_set().insert(comps_view(x@)),
{
    proof {
        lemma_path_order();
    }
    let ghost s = paths_view(acc@);
    let ghost xv = comps_view(x@);
    let mut k: usize = 0;
    while k < acc.len()
        invariant
            k <= acc@.len(),
            s == paths_view(acc@),
            xv == comps_view(x@),
            forall|i: int| 0 <= i < k ==> path_lt(#[trigger] s[i], xv),
        ensures
            k <= acc@.len(),
            forall|i: int| 0 <= i < k ==> path_lt(#[trigger] s[i], xv),
            k < acc@.len() ==> !path_lt(s[k as int], xv),
        decreases acc@.len() - k,
    {
        if !path_less(&acc[k], &x) {
            break;
        }
        k = k + 1;
    }
    if k < acc.len() && comps_equal(&acc[k], &x) {
        proof {
            assert(s[k as int] == xv);
            assert(s.to_set().insert(xv) =~= s.to_set());
        }
        return;
    }
    let ghost old_acc = acc@;
    acc.insert(k, x);
    proof {
        let t = paths_view(acc@);
        assert(t =~= s.insert(k as int, xv));
        let f = |a: Seq<Seq<char>>, b: Seq<Seq<char>>| path_lt(a, b);
        if k < s.len() {
            // x comes before the element it was put in front of
            assert(!path_lt(s[k as int], xv));
            assert(s[k as int] != xv);
            assert(f(xv, s[k as int]) || f(s[k as int], xv));
        }
        assert forall|i: int, j: int| 0 <= i < j < t.len() implies path_lt(#[trigger] t[i], #[trigger] t[j]) by {
            if j < k {
                assert(t[i] == s[i] && t[j] == s[j]);
            } else if j == k {
                assert(t[j] == xv && t[i] == s[i]);
            } else if i == k {
                assert(t[i] == xv && t[j] == s[j - 1]);
                if j - 1 > k {
                    assert(path_lt(s[k as int], s[j - 1]));
                    assert(f(xv, s[k as int]) && f(s[k as int], s[j - 1]));
                }
            } else if i < k {
                assert(t[i] == s[i] && t[j] == s[j - 1]);
                assert(path_lt(s[i], xv));
                if j - 1 == k as int {
                    assert(f(s[i], xv) && f(xv, s[k as int]));
                } else {
                    assert(path_lt(s[k as int], s[j - 1]));
                    assert(f(xv, s[k as int]) && f(s[k as int], s[j - 1]));
                    assert(f(s[i], xv) && f(xv, s[j - 1]));
                }
            } else {
                assert(t[i] == s[i - 1] && t[j] == s[j - 1]);
            }
        }
        assert forall|p: Seq<Seq<char>>| t.to_set().contains(p) <==> s.to_set().insert(xv).contains(p) by {
            if t.to_set().contains(p) {
                let i = choose|i: int| 0 <= i < t.len() && t[i] == p;
                if i < k {
                    assert(s[i] == p);
                } else if i > k {
                    assert(s[i - 1] == p);
                }
            }
            if s.to_set().contains(p) {
                let i = choose|i: int| 0 <= i < s.len() && s[i] == p;
                if i < k {
                    assert(t[i] == p);
                } else {
                    assert(t[i + 1] == p);
                }
            }
            if p == xv {
                assert(t[k as int] == p);
            }
        }
        assert(t.to_set() =~= s.to_set().insert(xv));
    }
}

// ---------------------------------------------------------------------------
// The parents
// ---------------------------------------------------------------------------

/// Walking up from a mount target stops at `a`: it is the home, is not
/// under the home, or is itself a mount target.
pub open spec fn walk_stops(a: Seq<Seq<char>>, home: Seq<Seq<char>>, targets: Seq<Seq<Seq<char>>>) -> bool {
    a == home || !is_prefix_of(home, a) || targets.contains(a)
}

/// The ancestors of `t` visited walking up from its first `j + 1`
/// components until a stop.
pub open spec fn walk(t: Seq<Seq<char>>, j: int, home: Seq<Seq<char>>, targets: Seq<Seq<Seq<char>>>) -> Set<
    Seq<Seq<char>>,
>
    decreases j + 1,
{
    if j < 0 {
        Set::empty()
    } else if walk_stops(t.take(j), home, targets) {
        Set::empty()
    } else {
        walk(t, j - 1, home, targets).insert(t.take(j))
    }
}

/// The parents visited for the first `n` targets.
pub open spec fn parents_upto(targets: Seq<Seq<Seq<char>>>, home: Seq<Seq<char>>, n: nat) -> Set<
    Seq<Seq<char>>,
>
    decreases n,
{
    if n == 0 {
        Set::empty()
    } else {
        let t = targets[n - 1];
        parents_upto(targets, home, (n - 1) as nat).union(walk(t, t.len() - 1, home, targets))
    }
}

/// The components of each path.
pub open spec fn components_all(paths: Seq<Seq<char>>) -> Seq<Seq<Seq<char>>> {
    Seq::new(paths.len(), |i: int| components(paths[i]))
}

/// The directories strictly between the home and each mount target that
/// are not mount targets themselves, as component lists.
pub open spec fn mount_parents(targets: Seq<Seq<char>>, home: Seq<char>) -> Set<Seq<Seq<char>>> {
    parents_upto(components_all(targets), components(home), targets.len())
}

proof fn lemma_walk_members(t: Seq<Seq<char>>, j: int, home: Seq<Seq<char>>, targets: Seq<Seq<Seq<char>>>, p: Seq<Seq<char>>)
    requires
        walk(t, j, home, targets).contains(p),
    ensures
        !walk_stops(p, home, targets),
    decreases j + 1,
{
    if j >= 0 && !walk_stops(t.take(j), home, targets) && p != t.take(j) {
        lemma_walk_members(t, j - 1, home, targets, p);
    }
}

proof fn lemma_parents_members(targets: Seq<Seq<Seq<char>>>, home: Seq<Seq<char>>, n: nat, p: Seq<Seq<char>>)
    requires
        parents_upto(targets, home, n).contains(p),
    ensures
        !walk_stops(p, home, targets),
    decreases n,
{
    if n > 0 {
        let t = targets[n - 1];
        if parents_upto(targets, home, (n - 1) as nat).contains(p) {
            lemma_parents_members(targets, home, (n - 1) as nat, p);
        } else {
            lemma_walk_members(t, t.len() - 1, home, targets, p);
        }
    }
}

/// Every directory handed to the container user lies strictly under the
/// container home and is not itself a mount target.
pub proof fn law_chown_parents_under_home(targets: Seq<Seq<char>>, home: Seq<char>, p: Seq<Seq<char>>)
    requires
        mount_parents(targets, home).contains(p),
    ensures
        is_prefix_of(components(home), p),
        p != components(home),
        !components_all(targets).contains(p),
{
    lemma_parents_members(components_all(targets), components(home), targets.len(), p);
}

/// A component list written out: `/` then the names joined by `/` for an
/// absolute path, else the names joined by `/`.
pub open spec fn path_text(c: Seq<Seq<char>>) -> Seq<char> {
    if c.len() > 0 && c[0] == seq!['/'] {
        seq!['/'] + render_components(c.skip(1))
    } else {
        render_components(c)
    }
}

fn path_string(c: &Vec<Vec<char>>) -> (r: String)
    ensures
        r@ == path_text(comps_view(c@)),
{
    let ghost cv = comps_view(c@);
    let mut v: Vec<char> = Vec::new();
    let root = c.len() > 0 && c[0].len() == 1 && c[0][0] == '/';
    proof {
        if c@.len() > 0 {
            assert(cv[0] == c@[0]@);
            if c@[0]@.len() == 1 && c@[0]@[0] == '/' {
                assert(c@[0]@ =~= seq!['/']);
            }
        }
    }
    let start: usize = if root {
        v.push('/');
        1
    } else {
        0
    };
    let ghost rest = cv.skip(start as int);
    let mut i: usize = start;
    while i < c.len()
        invariant
            start <= i <= c@.len(),
            cv == comps_view(c@),
            rest == cv.skip(start as int),
            v@ == (if start == 1 { seq!['/'] } else { Seq::<char>::empty() }) + render_components(
                rest.take(i - start),
            ),
        decreases c@.len() - i,
    {
        let ghost before = v@;
        if i > start {
            v.push('/');
        }
        crate::strings::push_chars(&mut v, &c[i]);
        proof {
            let p = rest.take(i + 1 - start);
            assert(p.drop_last() =~= rest.take(i - start));
            assert(p.last() == c@[i as int]@);
            if i > start {
                assert(render_components(p) == render_components(p.drop_last()) + seq!['/'] + p.last());
            } else {
                assert(p.len() == 1);
                assert(render_components(rest.take(0)) =~= Seq::<char>::empty());
            }
            assert(v@ =~= (if start == 1 { seq!['/'] } else { Seq::<char>::empty() })
                + render_components(p));
        }
        i = i + 1;
    }
    proof {
        assert(rest.take(c@.len() - start) =~= rest);
        if start == 0 {
            assert(rest =~= cv);
            assert(v@ =~= render_components(cv));
        }
    }
    string_of(&v)
}

/// The first `j` components.
fn prefix_comps(t: &Vec<Vec<char>>, j: usize) -> (r: Vec<Vec<char>>)
    requires
        j <= t@.len(),
    ensures
        comps_view(r@) == comps_view(t@).take(j as int),
{
    copy_comps(t, j)
}

/// `a` is one of the targets.
fn is_target(a: &Vec<Vec<char>>, targets: &Vec<Vec<Vec<char>>>) -> (r: bool)
    ensures
        r == paths_view(targets@).contains(comps_view(a@)),
{
    let mut i: usize = 0;
    while i < targets.len()
        invariant
            i <= targets@.len(),
            forall|j: int| 0 <= j < i ==> paths_view(targets@)[j] != comps_view(a@),
        decreases targets@.len() - i,
    {
        if comps_equal(&targets[i], a) {
            assert(paths_view(targets@)[i as int] == comps_view(a@));
            return true;
        }
        i = i + 1;
    }
    false
}

/// The directories to hand to the container user, for mounts at
/// `targets`: walking up from each target, every directory until one that
/// is the home, is not under it, or is itself a mount target. Each
/// appears once, in `Path` order, written out (see [`path_text`]).
pub fn mount_parents_to_chown(targets: &Vec<String>, home: &str) -> (r: Vec<String>)
    ensures
        exists|cs: Seq<Seq<Seq<char>>>|
            {
                &&& strictly_sorted(cs)
                &&& cs.to_set() == mount_parents(strings_view(targets@), home@)
                &&& strings_view(r@) == Seq::new(cs.len(), |i: int| path_text(cs[i]))
            },
{
    let ghost tv = components_all(strings_view(targets@));
    let hc = path_components(&chars_of(home));
    let ghost hv = components(home@);
    assert(comps_view(hc@) =~= hv);
    let mut tcs: Vec<Vec<Vec<char>>> = Vec::new();
    let mut i: usize = 0;
    while i < targets.len()
        invariant
            i <= targets@.len(),
            tv == components_all(strings_view(targets@)),
            paths_view(tcs@) == tv.take(i as int),
            tcs@.len() == i,
        decreases targets@.len() - i,
    {
        let c = path_components(&chars_of(targets[i].as_str()));
        assert(comps_view(c@) =~= components(targets@[i as int]@));
        let ghost before = tcs@;
        tcs.push(c);
        proof {
            assert(strings_view(targets@)[i as int] == targets@[i as int]@);
            assert(tv[i as int] == components(targets@[i as int]@));
            assert(paths_view(tcs@)[i as int] == comps_view(c@));
            assert forall|j: int| 0 <= j < i implies paths_view(tcs@)[j] == tv[j] by {
                assert(tcs@[j] == before[j]);
                assert(paths_view(before)[j] == tv.take(i as int)[j]);
            }
            assert(paths_view(tcs@) =~= tv.take(i + 1));
        }
        i = i + 1;
    }
    assert(tv.take(targets@.len() as int) =~= tv);
    let mut acc: Vec<Vec<Vec<char>>> = Vec::new();
    proof {
        assert(paths_view(acc@).to_set() =~= Set::<Seq<Seq<char>>>::empty());
    }
    let mut n: usize = 0;
    while n < tcs.len()
        invariant
            n <= tcs@.len(),
            paths_view(tcs@) == tv,
            tv.len() == targets@.len(),
            comps_view(hc@) == hv,
            hv == components(home@),
            strictly_sorted(paths_view(acc@)),
            paths_view(acc@).to_set() == parents_upto(tv, hv, n as nat),
        decreases tcs@.len() - n,
    {
        let t = &tcs[n];
        let ghost tc = tv[n as int];
        assert(comps_view(t@) == tc);
        let ghost base = paths_view(acc@).to_set();
        let ghost mut added: Set<Seq<Seq<char>>> = Set::empty();
        let mut k: usize = t.len();
        proof {
            assert(walk(tc, tc.len() - 1, hv, tv) =~= added.union(walk(tc, k - 1, hv, tv)));
        }
        while k > 0
            invariant
                k <= tc.len(),
                tc == comps_view(t@),
                tc == tv[n as int],
                paths_view(tcs@) == tv,
                comps_view(hc@) == hv,
                strictly_sorted(paths_view(acc@)),
                paths_view(acc@).to_set() == base.union(added),
                walk(tc, tc.len() - 1, hv, tv) == added.union(walk(tc, k - 1, hv, tv)),
            ensures
                strictly_sorted(paths_view(acc@)),
                paths_view(acc@).to_set() == base.union(added),
                walk(tc, tc.len() - 1, hv, tv) == added.union(walk(tc, k - 1, hv, tv)),
                walk(tc, k - 1, hv, tv) == Set::<Seq<Seq<char>>>::empty(),
            decreases k,
        {
            let a = prefix_comps(t, k - 1);
            let ghost av = tc.take(k - 1);
            assert(comps_view(a@) == av);
            let stop = comps_equal(&a, &hc) || !comps_prefix(&hc, &a) || is_target(&a, &tcs);
            if stop {
                proof {
                    assert(walk_stops(av, hv, tv));
                    assert(walk(tc, k - 1, hv, tv) == Set::<Seq<Seq<char>>>::empty());
                    assert(added.union(Set::<Seq<Seq<char>>>::empty()) =~= added);
                }
                break;
            }
            insert_sorted(&mut acc, a);
            proof {
                assert(!walk_stops(av, hv, tv));
                assert(walk(tc, k - 1, hv, tv) == walk(tc, k - 2, hv, tv).insert(av));
                assert(added.union(walk(tc, k - 1, hv, tv)) =~= added.insert(av).union(
                    walk(tc, k - 2, hv, tv),
                ));
                assert(base.union(added).insert(av) =~= base.union(added.insert(av)));
                added = added.insert(av);
            }
            k = k - 1;
        }
        proof {
            assert(added.union(Set::<Seq<Seq<char>>>::empty()) =~= added);
            assert(parents_upto(tv, hv, (n + 1) as nat) == parents_upto(tv, hv, n as nat).union(
                walk(tc, tc.len() - 1, hv, tv),
            ));
        }
        n = n + 1;
    }
    let mut r: Vec<String> = Vec::new();
    let mut m: usize = 0;
    while m < acc.len()
        invariant
            m <= acc@.len(),
            strings_view(r@) == Seq::new(m as nat, |i: int| path_text(paths_view(acc@)[i])),
            r@.len() == m,
        decreases acc@.len() - m,
    {
        let s = path_string(&acc[m]);
        let ghost before = r@;
        r.push(s);
        proof {
            assert(paths_view(acc@)[m as int] == comps_view(acc@[m as int]@));
            assert forall|j: int| 0 <= j < m implies strings_view(r@)[j] == path_text(paths_view(acc@)[j]) by {
                assert(r@[j] == before[j]);
                assert(strings_view(before)[j] == Seq::new(m as nat, |i: int| path_text(paths_view(acc@)[i]))[j]);
            }
            assert(strings_view(r@) =~= Seq::new((m + 1) as nat, |i: int| path_text(paths_view(acc@)[i])));
        }
        m = m + 1;
    }
    proof {
        let cs = paths_view(acc@);
        assert(strings_view(r@) =~= Seq::new(cs.len(), |i: int| path_text(cs[i])));
        assert(tv == components_all(strings_view(targets@)));
    }
    r
}

} // verus!
