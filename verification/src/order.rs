//! Lexicographic order on texts, and sorted lists of distinct texts.
use vstd::prelude::*;
use crate::pipeline::strings_view;

verus! {

/// `a` comes before `b` in character order.
pub open spec fn lex_lt(a: Seq<char>, b: Seq<char>) -> bool
    decreases a.len(),
{
    if a.len() == 0 {
        b.len() > 0
    } else if b.len() == 0 {
        false
    } else if a[0] != b[0] {
        (a[0] as int) < (b[0] as int)
    } else {
        lex_lt(a.drop_first(), b.drop_first())
    }
}

pub proof fn lemma_lex_irreflexive(a: Seq<char>)
    ensures
        !lex_lt(a, a),
    decreases a.len(),
{
    if a.len() > 0 {
        lemma_lex_irreflexive(a.drop_first());
    }
}

pub proof fn lemma_lex_total(a: Seq<char>, b: Seq<char>)
    ensures
        a == b || lex_lt(a, b) || lex_lt(b, a),
    decreases a.len(),
{
    if a.len() > 0 && b.len() > 0 && a[0] == b[0] {
        lemma_lex_total(a.drop_first(), b.drop_first());
        if a.drop_first() == b.drop_first() {
            assert(a =~= seq![a[0]] + a.drop_first());
            assert(b =~= seq![b[0]] + b.drop_first());
        }
    } else if a.len() == 0 && b.len() == 0 {
        assert(a =~= b);
    }
}

pub proof fn lemma_lex_asym(a: Seq<char>, b: Seq<char>)
    ensures
        !(lex_lt(a, b) && lex_lt(b, a)),
    decreases a.len(),
{
    if a.len() > 0 && b.len() > 0 && a[0] == b[0] {
        lemma_lex_asym(a.drop_first(), b.drop_first());
    }
}

pub proof fn lemma_lex_trans(a: Seq<char>, b: Seq<char>, c: Seq<char>)
    requires
        lex_lt(a, b),
        lex_lt(b, c),
    ensures
        lex_lt(a, c),
    decreases a.len(),
{
    if a.len() > 0 && b.len() > 0 && c.len() > 0 && a[0] == b[0] && b[0] == c[0] {
        lemma_lex_trans(a.drop_first(), b.drop_first(), c.drop_first());
    }
}

/// The texts are in strictly increasing order.
pub open spec fn strictly_sorted(s: Seq<Seq<char>>) -> bool {
    forall|i: int, j: int| 0 <= i < j < s.len() ==> lex_lt(#[trigger] s[i], #[trigger] s[j])
}

/// Whether `a` comes before `b`.
pub fn lex_less(a: &str, b: &str) -> (r: bool)
    ensures
        r == lex_lt(a@, b@),
{
    let x = crate::text::chars_of(a);
    let y = crate::text::chars_of(b);
    let mut i: usize = 0;
    assert(a@.skip(0) =~= a@);
    assert(b@.skip(0) =~= b@);
    while i < x.len() && i < y.len()
        invariant
            i <= x.len(),
            i <= y.len(),
            x@ == a@,
            y@ == b@,
            x@.take(i as int) == y@.take(i as int),
            lex_lt(a@, b@) == lex_lt(a@.skip(i as int), b@.skip(i as int)),
        decreases x.len() - i,
    {
        if x[i] != y[i] {
            proof {
                assert(a@.skip(i as int)[0] == x@[i as int]);
                assert(b@.skip(i as int)[0] == y@[i as int]);
            }
            return x[i] < y[i];
        }
        proof {
            assert(a@.skip(i as int).drop_first() =~= a@.skip(i + 1));
            assert(b@.skip(i as int).drop_first() =~= b@.skip(i + 1));
            assert(x@.take(i + 1) =~= x@.take(i as int).push(x@[i as int]));
            assert(y@.take(i + 1) =~= y@.take(i as int).push(y@[i as int]));
        }
        i = i + 1;
    }
    proof {
        assert(a@.skip(i as int).len() == a@.len() - i);
        assert(b@.skip(i as int).len() == b@.len() - i);
    }
    i == x.len() && i < y.len()
}

/// The distinct texts of `v`, in increasing order.
pub fn sorted_unique(v: &Vec<String>) -> (r: Vec<String>)
    ensures
        strictly_sorted(strings_view(r@)),
        strings_view(r@).to_set() == strings_view(v@).to_set(),
{
    let ghost vs = strings_view(v@);
    let mut out: Vec<String> = Vec::new();
    let mut i: usize = 0;
    while i < v.len()
        invariant
            i <= v.len(),
            vs == strings_view(v@),
            strictly_sorted(strings_view(out@)),
            strings_view(out@).to_set() == vs.take(i as int).to_set(),
        decreases v.len() - i,
    {
        let x = &v[i];
        let ghost os = strings_view(out@);
        // position of the first entry not before x
        let mut k: usize = 0;
        while k < out.len() && lex_less(out[k].as_str(), x.as_str())
            invariant
                k <= out.len(),
                os == strings_view(out@),
                forall|j: int| 0 <= j < k ==> lex_lt(#[trigger] os[j], x@),
            decreases out.len() - k,
        {
            k = k + 1;
        }
        assert(vs[i as int] == x@);
        assert(vs.take(i + 1) =~= vs.take(i as int).push(x@));
        proof {
            vs.take(i as int).lemma_push_to_set_commute(x@);
        }
        if k < out.len() && crate::text::str_eq(out[k].as_str(), x.as_str()) {
            proof {
                assert(os[k as int] == x@);
                assert(os.to_set().contains(x@));
                assert(os.to_set().insert(x@) =~= os.to_set());
            }
        } else {
            out.insert(k, x.clone());
            proof {
                let ns = strings_view(out@);
                assert(ns =~= os.insert(k as int, x@));
                if k < os.len() {
                    lemma_lex_total(os[k as int], x@);
                    assert(lex_lt(x@, os[k as int]));
                }
                assert forall|a: int, b: int| 0 <= a < b < ns.len() implies lex_lt(
                    #[trigger] ns[a],
                    #[trigger] ns[b],
                ) by {
                    if a < k && b < k {
                        assert(lex_lt(os[a], os[b]));
                    } else if a < k && b == k {
                    } else if a < k && b > k {
                        assert(lex_lt(os[a], x@));
                        if b - 1 > k {
                            assert(lex_lt(os[k as int], os[b - 1]));
                            lemma_lex_trans(x@, os[k as int], os[b - 1]);
                        }
                        lemma_lex_trans(os[a], x@, os[b - 1]);
                    } else if a == k {
                        if b - 1 > k {
                            assert(lex_lt(os[k as int], os[b - 1]));
                            lemma_lex_trans(x@, os[k as int], os[b - 1]);
                        }
                    } else {
                        assert(lex_lt(os[a - 1], os[b - 1]));
                    }
                }
                assert(ns.to_set() =~= os.to_set().insert(x@)) by {
                    assert forall|y: Seq<char>| ns.to_set().contains(y) implies os.to_set().insert(
                        x@,
                    ).contains(y) by {
                        let m = choose|m: int| 0 <= m < ns.len() && ns[m] == y;
                        if m < k {
                            assert(os[m] == y);
                        } else if m > k {
                            assert(os[m - 1] == y);
                        }
                    }
                    assert forall|y: Seq<char>| os.to_set().insert(x@).contains(y) implies ns.to_set().contains(
                        y,
                    ) by {
                        if y == x@ {
                            assert(ns[k as int] == y);
                        } else {
                            let m = choose|m: int| 0 <= m < os.len() && os[m] == y;
                            if m < k {
                                assert(ns[m] == y);
                            } else {
                                assert(ns[m + 1] == y);
                            }
                        }
                    }
                }
            }
        }
        i = i + 1;
    }
    assert(vs.take(i as int) =~= vs);
    out
}

} // verus!
