//! A strict total order on names (lexicographic by code point) and the
//! canonical form of a set of names: a strictly ascending sequence.
use vstd::prelude::*;

verus! {

/// The names held in a vector, as character sequences.
pub open spec fn views(v: Seq<String>) -> Seq<Seq<char>> {
    v.map_values(|s: String| s@)
}

/// Lexicographic order by code point; a proper prefix comes first.
pub open spec fn lex_lt(a: Seq<char>, b: Seq<char>) -> bool
    decreases a.len(),
{
    if a.len() == 0 {
        b.len() > 0
    } else if b.len() == 0 {
        false
    } else if a[0] < b[0] {
        true
    } else if a[0] == b[0] {
        lex_lt(a.drop_first(), b.drop_first())
    } else {
        false
    }
}

/// Every earlier element is strictly below every later one.
pub open spec fn strictly_sorted(s: Seq<Seq<char>>) -> bool {
    forall|i: int, j: int| 0 <= i < j < s.len() ==> lex_lt(#[trigger] s[i], #[trigger] s[j])
}

pub proof fn lemma_lex_irreflexive(a: Seq<char>)
    ensures
        !lex_lt(a, a),
    decreases a.len(),
{
    if a.len() > 0 {
        lemma_lex_irreflexive(a.drop_first());
    }
}

pub proof fn lemma_lex_asymmetric(a: Seq<char>, b: Seq<char>)
    ensures
        !(lex_lt(a, b) && lex_lt(b, a)),
    decreases a.len(),
{
    if a.len() > 0 && b.len() > 0 && a[0] == b[0] {
        lemma_lex_asymmetric(a.drop_first(), b.drop_first());
    }
}

pub proof fn lemma_lex_total(a: Seq<char>, b: Seq<char>)
    ensures
        a != b ==> lex_lt(a, b) || lex_lt(b, a),
    decreases a.len(),
{
    if a.len() > 0 && b.len() > 0 {
        if a[0] == b[0] {
            lemma_lex_total(a.drop_first(), b.drop_first());
            if a.drop_first() == b.drop_first() {
                assert(a == seq![a[0]] + a.drop_first());
                assert(b == seq![b[0]] + b.drop_first());
            }
        }
    } else if a.len() == 0 && b.len() == 0 {
        assert(a == b);
    }
}

pub proof fn lemma_lex_transitive(a: Seq<char>, b: Seq<char>, c: Seq<char>)
    requires
        lex_lt(a, b),
        lex_lt(b, c),
    ensures
        lex_lt(a, c),
    decreases a.len(),
{
    if a.len() > 0 && a[0] == b[0] && b[0] == c[0] {
        lemma_lex_transitive(a.drop_first(), b.drop_first(), c.drop_first());
    }
}

/// Two strictly ascending sequences that hold the same names are equal:
/// the ascending form of a set is unique.
pub proof fn lemma_sorted_unique(s: Seq<Seq<char>>, t: Seq<Seq<char>>)
    requires
        strictly_sorted(s),
        strictly_sorted(t),
        s.to_set() == t.to_set(),
    ensures
        s == t,
    decreases s.len(),
{
    if s.len() == 0 {
        if t.len() > 0 {
            assert(t.to_set().contains(t[0]));
        }
        assert(s == t);
    } else {
        assert(s.to_set().contains(s[0]));
        assert(t.contains(s[0]));
        let j = choose|j: int| 0 <= j < t.len() && t[j] == s[0];
        assert(t.to_set().contains(t[0]));
        assert(s.contains(t[0]));
        let k = choose|k: int| 0 <= k < s.len() && s[k] == t[0];
        if j > 0 {
            assert(lex_lt(t[0], t[j]));
            if k > 0 {
                assert(lex_lt(s[0], s[k]));
                lemma_lex_asymmetric(s[0], s[k]);
            } else {
                lemma_lex_irreflexive(s[0]);
            }
        }
        assert(s[0] == t[0]);
        let s1 = s.drop_first();
        let t1 = t.drop_first();
        assert forall|x: Seq<char>| s1.to_set().contains(x) <==> t1.to_set().contains(x) by {
            if s1.contains(x) {
                let i = choose|i: int| 0 <= i < s1.len() && s1[i] == x;
                assert(s[i + 1] == x);
                assert(lex_lt(s[0], x));
                lemma_lex_irreflexive(x);
                assert(s.to_set().contains(x));
                let m = choose|m: int| 0 <= m < t.len() && t[m] == x;
                assert(m != 0);
                assert(t1[m - 1] == x);
            }
            if t1.contains(x) {
                let i = choose|i: int| 0 <= i < t1.len() && t1[i] == x;
                assert(t[i + 1] == x);
                assert(lex_lt(t[0], x));
                lemma_lex_irreflexive(x);
                assert(t.to_set().contains(x));
                let m = choose|m: int| 0 <= m < s.len() && s[m] == x;
                assert(m != 0);
                assert(s1[m - 1] == x);
            }
        }
        assert(s1.to_set() == t1.to_set());
        lemma_sorted_unique(s1, t1);
        assert(s == seq![s[0]] + s1);
        assert(t == seq![t[0]] + t1);
    }
}

/// The ascending form of a finite set of names.
pub open spec fn canonical(set: Set<Seq<char>>) -> Seq<Seq<char>> {
    choose|s: Seq<Seq<char>>| strictly_sorted(s) && s.to_set() == set
}

/// A strictly ascending sequence is the ascending form of its own set.
pub proof fn lemma_canonical(s: Seq<Seq<char>>)
    requires
        strictly_sorted(s),
    ensures
        canonical(s.to_set()) == s,
{
    let c = canonical(s.to_set());
    assert(strictly_sorted(c) && c.to_set() == s.to_set());
    lemma_sorted_unique(c, s);
}

/// Whether `a` comes strictly before `b`.
pub fn lex_less(a: &String, b: &String) -> (r: bool)
    ensures
        r == lex_lt(a@, b@),
{
    let la = a.as_str().unicode_len();
    let lb = b.as_str().unicode_len();
    let mut i: usize = 0;
    assert(a@.skip(0) =~= a@);
    assert(b@.skip(0) =~= b@);
    while i < la && i < lb
        invariant
            la == a@.len(),
            lb == b@.len(),
            i <= la,
            i <= lb,
            lex_lt(a@, b@) == lex_lt(a@.skip(i as int), b@.skip(i as int)),
        decreases la - i,
    {
        let ca = a.as_str().get_char(i);
        let cb = b.as_str().get_char(i);
        assert(a@.skip(i as int)[0] == ca);
        assert(b@.skip(i as int)[0] == cb);
        if ca < cb {
            return true;
        } else if ca != cb {
            return false;
        }
        assert(a@.skip(i as int).drop_first() == a@.skip(i + 1));
        assert(b@.skip(i as int).drop_first() == b@.skip(i + 1));
        i = i + 1;
    }
    i == la && i < lb
}

/// Adds `x` to a strictly ascending vector of names, keeping it strictly
/// ascending; a name already present leaves the vector as it is.
pub fn insert_sorted(v: &mut Vec<String>, x: String)
    requires
        strictly_sorted(views(old(v)@)),
    ensures
        strictly_sorted(views(final(v)@)),
        views(final(v)@).to_set() == views(old(v)@).to_set().insert(x@),
        views(old(v)@).contains(x@) ==> final(v)@ == old(v)@,
{
    let ghost xv = x@;
    let ghost before = views(v@);
    let n = v.len();
    let mut i: usize = 0;
    while i < n
        invariant
            n == v@.len(),
            i <= n,
            before == views(v@),
            xv == x@,
            forall|k: int| 0 <= k < i ==> lex_lt(#[trigger] before[k], xv),
        ensures
            i < n ==> !lex_lt(before[i as int], xv),
        decreases n - i,
    {
        assert(before[i as int] == v@[i as int]@);
        if !lex_less(&v[i], &x) {
            break;
        }
        i = i + 1;
    }
    if i < n && v[i] == x {
        assert(before[i as int] == xv);
        assert(before.contains(xv));
        assert(before.to_set().insert(xv) =~= before.to_set());
        return;
    }
    proof {
        if i < n {
            assert(before[i as int] == v@[i as int]@);
        }
        if before.contains(xv) {
            let m = choose|m: int| 0 <= m < before.len() && before[m] == xv;
            if m < i {
                lemma_lex_irreflexive(xv);
            } else if m > i {
                assert(lex_lt(before[i as int], before[m]));
                lemma_lex_asymmetric(before[i as int], xv);
                lemma_lex_total(before[i as int], xv);
            }
        }
    }
    v.insert(i, x);
    let ghost after = views(v@);
    assert(after =~= before.insert(i as int, xv));
    proof {
        if i < n {
            lemma_lex_total(before[i as int], xv);
            assert(lex_lt(xv, before[i as int]));
        }
        assert forall|p: int, q: int| 0 <= p < q < after.len() implies lex_lt(
            #[trigger] after[p],
            #[trigger] after[q],
        ) by {
            if q < i {
            } else if q == i {
            } else if p < i {
                assert(after[q] == before[q - 1]);
                if q - 1 > i {
                    assert(lex_lt(before[i as int], before[q - 1]));
                    lemma_lex_transitive(xv, before[i as int], before[q - 1]);
                }
                lemma_lex_transitive(before[p], xv, before[q - 1]);
            } else if p == i {
                if q - 1 > i {
                    assert(lex_lt(before[i as int], before[q - 1]));
                    lemma_lex_transitive(xv, before[i as int], before[q - 1]);
                }
            } else {
                assert(lex_lt(before[p - 1], before[q - 1]));
            }
        }
        assert forall|y: Seq<char>| #[trigger] after.contains(y) <==> before.to_set().insert(
            xv,
        ).contains(y) by {
            if after.contains(y) {
                let m = choose|m: int| 0 <= m < after.len() && after[m] == y;
                if m < i {
                    assert(before[m] == y);
                } else if m > i {
                    assert(before[m - 1] == y);
                }
            }
            if before.contains(y) {
                let m = choose|m: int| 0 <= m < before.len() && before[m] == y;
                if m < i {
                    assert(after[m] == y);
                } else {
                    assert(after[m + 1] == y);
                }
            }
            if y == xv {
                assert(after[i as int] == y);
            }
        }
        assert(after.to_set() =~= before.to_set().insert(xv));
    }
}

} // verus!
