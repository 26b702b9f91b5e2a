//! Strict orders, sequences sorted by them, and three-way comparisons.
use vstd::prelude::*;

use crate::strmap::{lemma_lex_asymmetric, lemma_lex_irreflexive, lemma_lex_total,
    lemma_lex_transitive, lex_lt};

verus! {

/// `before` is irreflexive and transitive.
pub open spec fn strict_order<A>(before: spec_fn(A, A) -> bool) -> bool {
    &&& forall|a: A| !#[trigger] before(a, a)
    &&& forall|a: A, b: A, c: A| #[trigger] before(a, b) && #[trigger] before(b, c) ==> before(a, c)
}

/// Every element comes before every later one.
pub open spec fn sorted_by<A>(s: Seq<A>, before: spec_fn(A, A) -> bool) -> bool {
    forall|i: int, j: int| 0 <= i < j < s.len() ==> before(#[trigger] s[i], #[trigger] s[j])
}

/// Inserting `x` where the first element it comes before stands keeps the
/// sequence sorted, when `x` comes after every element before that place.
pub proof fn lemma_insert_sorted<A>(s: Seq<A>, x: A, p: int, before: spec_fn(A, A) -> bool)
    requires
        strict_order(before),
        sorted_by(s, before),
        0 <= p <= s.len(),
        forall|q: int| 0 <= q < p ==> before(#[trigger] s[q], x),
        p < s.len() ==> before(x, s[p]),
    ensures
        sorted_by(s.insert(p, x), before),
{
    let n = s.insert(p, x);
    assert forall|a: int, b: int| 0 <= a < b < n.len() implies before(
        #[trigger] n[a],
        #[trigger] n[b],
    ) by {
        if b < p {
            assert(n[a] == s[a] && n[b] == s[b]);
        } else if b == p {
            assert(n[a] == s[a]);
        } else if a < p {
            assert(n[a] == s[a] && n[b] == s[b - 1]);
        } else if a == p {
            assert(n[b] == s[b - 1]);
            if b - 1 > p {
                assert(before(s[p], s[b - 1]));
            }
        } else {
            assert(n[a] == s[a - 1] && n[b] == s[b - 1]);
        }
    }
}

/// Two sequences sorted by the same strict order and holding the same
/// elements are equal.
pub proof fn lemma_sorted_unique<A>(r1: Seq<A>, r2: Seq<A>, before: spec_fn(A, A) -> bool)
    requires
        strict_order(before),
        sorted_by(r1, before),
        sorted_by(r2, before),
        forall|x: A| r1.contains(x) <==> r2.contains(x),
    ensures
        r1 == r2,
    decreases r1.len(),
{
    if r1.len() == 0 {
        if r2.len() > 0 {
            assert(r2.contains(r2[0]));
        }
        assert(r1 =~= r2);
    } else {
        assert(r1.contains(r1[0]));
        let a = r1[0];
        let b = r2[0];
        assert(r2.contains(b));
        if a != b {
            let k = choose|k: int| 0 <= k < r2.len() && r2[k] == a;
            let j = choose|j: int| 0 <= j < r1.len() && r1[j] == b;
            assert(k != 0 && j != 0);
            assert(before(r2[0], r2[k]));
            assert(before(r1[0], r1[j]));
            assert(before(a, a));
        }
        let t1 = r1.drop_first();
        let t2 = r2.drop_first();
        assert forall|x: A| t1.contains(x) <==> t2.contains(x) by {
            if t1.contains(x) {
                let i = choose|i: int| 0 <= i < t1.len() && t1[i] == x;
                assert(r1[i + 1] == x);
                assert(before(r1[0], r1[i + 1]));
                assert(r2.contains(x));
                let q = choose|q: int| 0 <= q < r2.len() && r2[q] == x;
                assert(q != 0);
                assert(t2[q - 1] == x);
            }
            if t2.contains(x) {
                let i = choose|i: int| 0 <= i < t2.len() && t2[i] == x;
                assert(r2[i + 1] == x);
                assert(before(r2[0], r2[i + 1]));
                assert(r1.contains(x));
                let q = choose|q: int| 0 <= q < r1.len() && r1[q] == x;
                assert(q != 0);
                assert(t1[q - 1] == x);
            }
        }
        assert(sorted_by(t1, before)) by {
            assert forall|i: int, j: int| 0 <= i < j < t1.len() implies before(
                #[trigger] t1[i],
                #[trigger] t1[j],
            ) by {
                assert(t1[i] == r1[i + 1] && t1[j] == r1[j + 1]);
            }
        }
        assert(sorted_by(t2, before)) by {
            assert forall|i: int, j: int| 0 <= i < j < t2.len() implies before(
                #[trigger] t2[i],
                #[trigger] t2[j],
            ) by {
                assert(t2[i] == r2[i + 1] && t2[j] == r2[j + 1]);
            }
        }
        lemma_sorted_unique(t1, t2, before);
        assert(r1 =~= seq![a] + t1);
        assert(r2 =~= seq![b] + t2);
    }
}

/// Three-way comparison of numbers: -1, 0 or 1.
pub open spec fn order_nat(a: nat, b: nat) -> int {
    if a < b {
        -1
    } else if a > b {
        1
    } else {
        0
    }
}

/// Three-way comparison of optional numbers, a missing one first.
pub open spec fn order_opt(a: Option<u64>, b: Option<u64>) -> int {
    match a {
        None => match b {
            None => 0,
            Some(_) => -1,
        },
        Some(x) => match b {
            None => 1,
            Some(y) => order_nat(x as nat, y as nat),
        },
    }
}

/// Three-way comparison of texts in lexicographic order.
pub open spec fn order_str(a: Seq<char>, b: Seq<char>) -> int {
    if a == b {
        0
    } else if lex_lt(a, b) {
        -1
    } else {
        1
    }
}

/// The first comparison, or the second where the first finds a tie.
pub open spec fn then_by(c: int, d: int) -> int {
    if c != 0 {
        c
    } else {
        d
    }
}

/// A three-way comparison, as `c` over three values, is one of a total
/// preorder: its sign flips with its arguments and both `<= 0` and `== 0`
/// carry over.
pub open spec fn preorder3(ab: int, ba: int, bc: int, ac: int) -> bool {
    &&& -1 <= ab <= 1
    &&& ba == -ab
    &&& (ab <= 0 && bc <= 0 ==> ac <= 0)
    &&& (ab == 0 && bc == 0 ==> ac == 0)
    &&& (ab < 0 && bc <= 0 ==> ac < 0)
    &&& (ab <= 0 && bc < 0 ==> ac < 0)
}

pub proof fn lemma_order_nat(a: nat, b: nat, c: nat)
    ensures
        preorder3(order_nat(a, b), order_nat(b, a), order_nat(b, c), order_nat(a, c)),
        order_nat(a, a) == 0,
{
}

pub proof fn lemma_order_opt(a: Option<u64>, b: Option<u64>, c: Option<u64>)
    ensures
        preorder3(order_opt(a, b), order_opt(b, a), order_opt(b, c), order_opt(a, c)),
        order_opt(a, a) == 0,
{
}

pub proof fn lemma_order_str(a: Seq<char>, b: Seq<char>, c: Seq<char>)
    ensures
        preorder3(order_str(a, b), order_str(b, a), order_str(b, c), order_str(a, c)),
        order_str(a, b) == 0 <==> a == b,
{
    lemma_lex_total(a, b);
    lemma_lex_total(b, c);
    lemma_lex_total(a, c);
    if lex_lt(a, b) {
        lemma_lex_asymmetric(a, b);
    }
    if lex_lt(b, a) {
        lemma_lex_asymmetric(b, a);
    }
    if lex_lt(a, b) && lex_lt(b, c) {
        lemma_lex_transitive(a, b, c);
    }
    if lex_lt(a, c) {
        lemma_lex_asymmetric(a, c);
    }
    if lex_lt(c, a) && a != c {
        if lex_lt(a, b) {
            lemma_lex_transitive(c, a, b);
            lemma_lex_asymmetric(c, b);
        }
        if lex_lt(b, c) {
            lemma_lex_transitive(b, c, a);
            lemma_lex_asymmetric(b, a);
        }
    }
    lemma_lex_irreflexive(a);
}

/// Combining two preorder comparisons lexicographically gives one.
pub proof fn lemma_then_by(
    ab1: int,
    ba1: int,
    bc1: int,
    ac1: int,
    ab2: int,
    ba2: int,
    bc2: int,
    ac2: int,
)
    requires
        preorder3(ab1, ba1, bc1, ac1),
        preorder3(ab2, ba2, bc2, ac2),
    ensures
        preorder3(
            then_by(ab1, ab2),
            then_by(ba1, ba2),
            then_by(bc1, bc2),
            then_by(ac1, ac2),
        ),
{
}

/// Three-way comparison of optional texts, a missing one first.
pub open spec fn order_opt_str(a: Option<Seq<char>>, b: Option<Seq<char>>) -> int {
    match a {
        None => match b {
            None => 0,
            Some(_) => -1,
        },
        Some(x) => match b {
            None => 1,
            Some(y) => order_str(x, y),
        },
    }
}

pub proof fn lemma_order_opt_str(a: Option<Seq<char>>, b: Option<Seq<char>>, c: Option<Seq<char>>)
    ensures
        preorder3(order_opt_str(a, b), order_opt_str(b, a), order_opt_str(b, c), order_opt_str(a, c)),
        order_opt_str(a, a) == 0,
{
    match (a, b, c) {
        (Some(x), Some(y), Some(z)) => {
            lemma_order_str(x, y, z);
        },
        _ => {
            if let Some(x) = a {
                if let Some(y) = b {
                    lemma_order_str(x, y, x);
                }
                lemma_order_str(x, x, x);
            }
            if let Some(y) = b {
                if let Some(z) = c {
                    lemma_order_str(y, z, y);
                }
            }
            if let Some(x) = a {
                if let Some(z) = c {
                    lemma_order_str(x, z, x);
                }
            }
        },
    }
}

} // verus!
