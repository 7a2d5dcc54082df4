//! Strict orders on sequences: lexicographic order, sortedness and the
//! uniqueness of sorted lists.

use vstd::prelude::*;
use crate::strings::{chars_of, str_eq, strings_view};

verus! {

/// Lexicographic order of sequences under the strict element order `lt`:
/// a proper prefix comes first.
pub open spec fn lex_lt<T>(a: Seq<T>, b: Seq<T>, lt: spec_fn(T, T) -> bool) -> bool
    decreases a.len(),
{
    if b.len() == 0 {
        false
    } else if a.len() == 0 {
        true
    } else if a[0] != b[0] {
        lt(a[0], b[0])
    } else {
        lex_lt(a.skip(1), b.skip(1), lt)
    }
}

/// `lt` is a strict total order.
pub open spec fn strict_total<T>(lt: spec_fn(T, T) -> bool) -> bool {
    &&& forall|x: T| !(#[trigger] lt(x, x))
    &&& forall|x: T, y: T, z: T| #[trigger] lt(x, y) && #[trigger] lt(y, z) ==> lt(x, z)
    &&& forall|x: T, y: T| x == y || #[trigger] lt(x, y) || lt(y, x)
}

/// Characters by code point (the order of their UTF-8 bytes).
pub open spec fn char_order() -> spec_fn(char, char) -> bool {
    |x: char, y: char| (x as int) < (y as int)
}

pub proof fn lemma_lex_irreflexive<T>(a: Seq<T>, lt: spec_fn(T, T) -> bool)
    requires
        strict_total(lt),
    ensures
        !lex_lt(a, a, lt),
    decreases a.len(),
{
    if a.len() > 0 {
        lemma_lex_irreflexive(a.skip(1), lt);
    }
}

pub proof fn lemma_lex_transitive<T>(a: Seq<T>, b: Seq<T>, c: Seq<T>, lt: spec_fn(T, T) -> bool)
    requires
        strict_total(lt),
        lex_lt(a, b, lt),
        lex_lt(b, c, lt),
    ensures
        lex_lt(a, c, lt),
    decreases a.len(),
{
    if a.len() > 0 && b.len() > 0 && c.len() > 0 {
        if a[0] != b[0] {
            assert(lt(a[0], b[0]));
            if b[0] != c[0] {
                assert(lt(b[0], c[0]));
                assert(lt(a[0], c[0]));
                assert(!lt(a[0], a[0]));
            } else {
                assert(lt(a[0], c[0]));
            }
        } else if b[0] != c[0] {
            assert(lt(a[0], c[0]));
        } else {
            lemma_lex_transitive(a.skip(1), b.skip(1), c.skip(1), lt);
        }
    }
}

pub proof fn lemma_lex_total<T>(a: Seq<T>, b: Seq<T>, lt: spec_fn(T, T) -> bool)
    requires
        strict_total(lt),
    ensures
        a == b || lex_lt(a, b, lt) || lex_lt(b, a, lt),
    decreases a.len(),
{
    if a.len() == 0 && b.len() == 0 {
        assert(a =~= b);
    } else if a.len() > 0 && b.len() > 0 {
        if a[0] == b[0] {
            lemma_lex_total(a.skip(1), b.skip(1), lt);
            if a.skip(1) == b.skip(1) {
                assert forall|i: int| 0 <= i < a.len() implies a[i] == b[i] by {
                    if i > 0 {
                        assert(a[i] == a.skip(1)[i - 1]);
                        assert(b[i] == b.skip(1)[i - 1]);
                    }
                }
                assert(a =~= b);
            }
        } else {
            assert(lt(a[0], b[0]) || lt(b[0], a[0]));
        }
    }
}

pub proof fn lemma_lex_strict_total<T>(lt: spec_fn(T, T) -> bool)
    requires
        strict_total(lt),
    ensures
        strict_total(|a: Seq<T>, b: Seq<T>| lex_lt(a, b, lt)),
{
    let f = |a: Seq<T>, b: Seq<T>| lex_lt(a, b, lt);
    assert forall|x: Seq<T>| !(#[trigger] f(x, x)) by {
        lemma_lex_irreflexive(x, lt);
    }
    assert forall|x: Seq<T>, y: Seq<T>, z: Seq<T>| #[trigger] f(x, y) && #[trigger] f(y, z) implies f(
        x,
        z,
    ) by {
        lemma_lex_transitive(x, y, z, lt);
    }
    assert forall|x: Seq<T>, y: Seq<T>| x == y || #[trigger] f(x, y) || f(y, x) by {
        lemma_lex_total(x, y, lt);
    }
}

pub proof fn lemma_char_order()
    ensures
        strict_total(char_order()),
{
    let f = char_order();
    assert forall|x: char, y: char| x == y || #[trigger] f(x, y) || f(y, x) by {
        if (x as int) == (y as int) {
            assert(x == y);
        }
    }
}

pub proof fn lemma_lex_step<T>(a: Seq<T>, b: Seq<T>, i: int, lt: spec_fn(T, T) -> bool)
    requires
        0 <= i < a.len(),
        i < b.len(),
        a[i] == b[i],
    ensures
        lex_lt(a.skip(i), b.skip(i), lt) == lex_lt(a.skip(i + 1), b.skip(i + 1), lt),
{
    assert(a.skip(i).skip(1) =~= a.skip(i + 1));
    assert(b.skip(i).skip(1) =~= b.skip(i + 1));
}

pub fn chars_less(a: &Vec<char>, b: &Vec<char>) -> (r: bool)
    ensures
        r == lex_lt(a@, b@, char_order()),
{
    let mut i: usize = 0;
    proof {
        assert(a@.skip(0) =~= a@);
        assert(b@.skip(0) =~= b@);
    }
    while i < a.len() && i < b.len()
        invariant
            i <= a@.len(),
            i <= b@.len(),
            lex_lt(a@, b@, char_order()) == lex_lt(a@.skip(i as int), b@.skip(i as int), char_order()),
        decreases a@.len() - i,
    {
        if a[i] != b[i] {
            proof {
                assert(a@.skip(i as int)[0] == a@[i as int]);
                assert(b@.skip(i as int)[0] == b@[i as int]);
            }
            return a[i] < b[i];
        }
        proof {
            lemma_lex_step(a@, b@, i as int, char_order());
        }
        i = i + 1;
    }
    i == a.len() && i < b.len()
}


/// Strictly increasing under `lt` (so without repeats).
pub open spec fn sorted_by<T>(s: Seq<T>, lt: spec_fn(T, T) -> bool) -> bool {
    forall|i: int, j: int| 0 <= i < j < s.len() ==> lt(#[trigger] s[i], #[trigger] s[j])
}

/// A list sorted strictly under a strict total order is determined by its
/// elements.
pub proof fn lemma_sorted_unique<T>(a: Seq<T>, b: Seq<T>, lt: spec_fn(T, T) -> bool)
    requires
        strict_total(lt),
        sorted_by(a, lt),
        sorted_by(b, lt),
        a.to_set() == b.to_set(),
    ensures
        a == b,
    decreases a.len(),
{
    if a.len() == 0 {
        if b.len() > 0 {
            assert(b.to_set().contains(b[0]));
        }
        assert(a =~= b);
    } else if b.len() == 0 {
        assert(a.to_set().contains(a[0]));
    } else {
        assert(b.to_set().contains(a[0]));
        assert(a.to_set().contains(b[0]));
        let i = choose|i: int| 0 <= i < a.len() && a[i] == b[0];
        let j = choose|j: int| 0 <= j < b.len() && b[j] == a[0];
        if i > 0 && j > 0 {
            assert(lt(a[0], a[i]));
            assert(lt(b[0], b[j]));
            assert(lt(a[0], b[0]) && lt(b[0], a[0]));
            assert(lt(a[0], a[0]));
        } else if i > 0 {
            assert(b[0] == a[0]);
            assert(lt(a[0], a[i]));
            assert(a[i] == a[0]);
        } else if j > 0 {
            assert(lt(b[0], b[j]));
        }
        assert(a[0] == b[0]);
        let a1 = a.skip(1);
        let b1 = b.skip(1);
        assert forall|x: T| a1.to_set().contains(x) <==> b1.to_set().contains(x) by {
            if a1.to_set().contains(x) {
                let k = choose|k: int| 0 <= k < a1.len() && a1[k] == x;
                assert(a[k + 1] == x);
                assert(lt(a[0], a[k + 1]));
                assert(b.to_set().contains(x));
                let m = choose|m: int| 0 <= m < b.len() && b[m] == x;
                if m == 0 {
                    assert(lt(x, x));
                }
                assert(b1[m - 1] == x);
            }
            if b1.to_set().contains(x) {
                let k = choose|k: int| 0 <= k < b1.len() && b1[k] == x;
                assert(b[k + 1] == x);
                assert(lt(b[0], b[k + 1]));
                assert(a.to_set().contains(x));
                let m = choose|m: int| 0 <= m < a.len() && a[m] == x;
                if m == 0 {
                    assert(lt(x, x));
                }
                assert(a1[m - 1] == x);
            }
        }
        assert(a1.to_set() =~= b1.to_set());
        assert forall|p: int, q: int| 0 <= p < q < a1.len() implies lt(#[trigger] a1[p], #[trigger] a1[q]) by {
            assert(a1[p] == a[p + 1] && a1[q] == a[q + 1]);
        }
        assert forall|p: int, q: int| 0 <= p < q < b1.len() implies lt(#[trigger] b1[p], #[trigger] b1[q]) by {
            assert(b1[p] == b[p + 1] && b1[q] == b[q + 1]);
        }
        lemma_sorted_unique(a1, b1, lt);
        assert forall|k: int| 0 <= k < a.len() implies a[k] == b[k] by {
            if k > 0 {
                assert(a[k] == a1[k - 1]);
                assert(b[k] == b1[k - 1]);
            }
        }
        assert(a =~= b);
    }
}

/// Text by character, lexicographically (the order of `String`).
pub open spec fn text_order() -> spec_fn(Seq<char>, Seq<char>) -> bool {
    |a: Seq<char>, b: Seq<char>| lex_lt(a, b, char_order())
}

/// [`text_order`] is a strict total order.
pub proof fn lemma_text_order()
    ensures
        strict_total(text_order()),
{
    lemma_char_order();
    lemma_lex_strict_total(char_order());
    let f = |a: Seq<char>, b: Seq<char>| lex_lt(a, b, char_order());
    let g = text_order();
    assert forall|x: Seq<char>| !(#[trigger] g(x, x)) by {
        assert(!f(x, x));
    }
    assert forall|x: Seq<char>, y: Seq<char>, z: Seq<char>| #[trigger] g(x, y) && #[trigger] g(y, z)
        implies g(x, z) by {
        assert(f(x, y) && f(y, z));
    }
    assert forall|x: Seq<char>, y: Seq<char>| x == y || #[trigger] g(x, y) || g(y, x) by {
        assert(x == y || f(x, y) || f(y, x));
    }
}

/// Insert `x` into the list `acc` sorted strictly by text, unless it is
/// there already.
pub fn insert_sorted_text(acc: &mut Vec<String>, x: String)
    requires
        sorted_by(strings_view(old(acc)@), text_order()),
    ensures
        sorted_by(strings_view(final(acc)@), text_order()),
        strings_view(final(acc)@).to_set() == strings_view(old(acc)@).to_set().insert(x@),
{
    proof {
        lemma_text_order();
    }
    let ghost s = strings_view(acc@);
    let ghost xv = x@;
    let ghost f = text_order();
    let xc = chars_of(x.as_str());
    let mut k: usize = 0;
    while k < acc.len()
        invariant
            k <= acc@.len(),
            s == strings_view(acc@),
            xv == x@,
            xc@ == x@,
            f == text_order(),
            forall|i: int| 0 <= i < k ==> f(#[trigger] s[i], xv),
        ensures
            k <= acc@.len(),
            forall|i: int| 0 <= i < k ==> f(#[trigger] s[i], xv),
            k < acc@.len() ==> !f(s[k as int], xv),
        decreases acc@.len() - k,
    {
        let ac = chars_of(acc[k].as_str());
        if !chars_less(&ac, &xc) {
            break;
        }
        k = k + 1;
    }
    if k < acc.len() && str_eq(acc[k].as_str(), x.as_str()) {
        proof {
            assert(s[k as int] == xv);
            assert(s.to_set().insert(xv) =~= s.to_set());
        }
        return;
    }
    acc.insert(k, x);
    proof {
        let t = strings_view(acc@);
        assert(t =~= s.insert(k as int, xv));
        if k < s.len() {
            assert(s[k as int] != xv);
            assert(f(xv, s[k as int]) || f(s[k as int], xv));
        }
        assert forall|i: int, j: int| 0 <= i < j < t.len() implies f(#[trigger] t[i], #[trigger] t[j]) by {
            if j < k {
                assert(t[i] == s[i] && t[j] == s[j]);
            } else if j == k {
                assert(t[j] == xv && t[i] == s[i]);
            } else if i == k {
                assert(t[i] == xv && t[j] == s[j - 1]);
                if j - 1 > k {
                    assert(f(s[k as int], s[j - 1]));
                    assert(f(xv, s[k as int]) && f(s[k as int], s[j - 1]));
                }
            } else if i < k {
                assert(t[i] == s[i] && t[j] == s[j - 1]);
                assert(f(s[i], xv));
                if j - 1 == k as int {
                    assert(f(s[i], xv) && f(xv, s[k as int]));
                } else {
                    assert(f(s[k as int], s[j - 1]));
                    assert(f(xv, s[k as int]) && f(s[k as int], s[j - 1]));
                    assert(f(s[i], xv) && f(xv, s[j - 1]));
                }
            } else {
                assert(t[i] == s[i - 1] && t[j] == s[j - 1]);
            }
        }
        assert forall|p: Seq<char>| t.to_set().contains(p) <==> s.to_set().insert(xv).contains(p) by {
            if t.to_set().contains(p) {
                let i = choose|i: int| 0 <= i < t.len() && t[i] == p;
                if i < k {
                    assert(s[i] == p);
                } else if i > k {
                    assert(s[i - 1] == p);
                }
            }
            if s.to_set().contains(p) {
                let i = choose|i: int| 0 <= i < s.len() && s[i] == p;
                if i < k {
                    assert(t[i] == p);
                } else {
                    assert(t[i + 1] == p);
                }
            }
            if p == xv {
                assert(t[k as int] == p);
            }
        }
        assert(t.to_set() =~= s.to_set().insert(xv));
    }
}

} // verus!
