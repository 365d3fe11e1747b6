//! Strict total orders: the order of characters, lexicographic orders on
//! sequences and on pairs, and executable three-way comparisons for them.
use vstd::prelude::*;

verus! {

/// The outcome of a three-way comparison.
#[derive(Debug, Clone, Copy, PartialEq, Eq, Structural)]
pub enum Order {
    Less,
    Equal,
    Greater,
}

/// `lt` is a strict total order: irreflexive, transitive and total.
pub open spec fn strict_total<T>(lt: spec_fn(T, T) -> bool) -> bool {
    &&& forall|x: T| !#[trigger] lt(x, x)
    &&& forall|x: T, y: T, z: T| #[trigger] lt(x, y) && #[trigger] lt(y, z) ==> lt(x, z)
    &&& forall|x: T, y: T| #![trigger lt(x, y)] x != y ==> lt(x, y) || lt(y, x)
}

/// `r` is the three-way comparison of `a` with `b` under `lt`.
pub open spec fn order_agrees<T>(r: Order, a: T, b: T, lt: spec_fn(T, T) -> bool) -> bool {
    &&& (r == Order::Less) == lt(a, b)
    &&& (r == Order::Equal) == (a == b)
    &&& (r == Order::Greater) == lt(b, a)
}

/// Lexicographic comparison of `a` and `b` from position `i` on; shorter
/// sequences come first when one is a prefix of the other.
pub open spec fn lex_lt_from<T>(a: Seq<T>, b: Seq<T>, i: nat, lt: spec_fn(T, T) -> bool) -> bool
    decreases a.len() - i,
{
    if i >= a.len() {
        i < b.len()
    } else if i >= b.len() {
        false
    } else if a[i as int] != b[i as int] {
        lt(a[i as int], b[i as int])
    } else {
        lex_lt_from(a, b, i + 1, lt)
    }
}

/// Lexicographic order on sequences induced by `lt`.
pub open spec fn lex_lt<T>(a: Seq<T>, b: Seq<T>, lt: spec_fn(T, T) -> bool) -> bool {
    lex_lt_from(a, b, 0, lt)
}

/// The lexicographic order induced by `lt`, as a relation.
pub open spec fn lex_order<T>(lt: spec_fn(T, T) -> bool) -> spec_fn(Seq<T>, Seq<T>) -> bool {
    |a: Seq<T>, b: Seq<T>| lex_lt(a, b, lt)
}

/// Order on pairs: by the first component, then by the second.
pub open spec fn pair_order<A, B>(lt1: spec_fn(A, A) -> bool, lt2: spec_fn(B, B) -> bool) -> spec_fn(
    (A, B),
    (A, B),
) -> bool {
    |p: (A, B), q: (A, B)| lt1(p.0, q.0) || (p.0 == q.0 && lt2(p.1, q.1))
}

/// The order of characters by code point (which is also the byte order of
/// their UTF-8 encodings).
pub open spec fn char_order() -> spec_fn(char, char) -> bool {
    |x: char, y: char| x < y
}

/// The order of strings as Rust's `Ord for str` gives it.
pub open spec fn chars_lt(a: Seq<char>, b: Seq<char>) -> bool {
    (lex_order(char_order()))(a, b)
}

pub proof fn lemma_char_order_strict_total()
    ensures
        strict_total(char_order()),
{
}

proof fn lemma_lex_irreflexive<T>(a: Seq<T>, i: nat, lt: spec_fn(T, T) -> bool)
    requires
        strict_total(lt),
    ensures
        !lex_lt_from(a, a, i, lt),
    decreases a.len() - i,
{
    if i < a.len() {
        lemma_lex_irreflexive(a, i + 1, lt);
    }
}

proof fn lemma_lex_transitive<T>(a: Seq<T>, b: Seq<T>, c: Seq<T>, i: nat, lt: spec_fn(T, T) -> bool)
    requires
        strict_total(lt),
        lex_lt_from(a, b, i, lt),
        lex_lt_from(b, c, i, lt),
    ensures
        lex_lt_from(a, c, i, lt),
    decreases a.len() - i,
{
    if i < a.len() && i < b.len() && i < c.len() {
        if a[i as int] == b[i as int] && b[i as int] == c[i as int] {
            lemma_lex_transitive(a, b, c, i + 1, lt);
        } else {
            assert(lt(a[i as int], c[i as int]) || a[i as int] == c[i as int] ==> lex_lt_from(a, c, i, lt) || a[i as int] == c[i as int]);
            if a[i as int] != b[i as int] && b[i as int] != c[i as int] {
                assert(lt(a[i as int], b[i as int]) && lt(b[i as int], c[i as int]));
                assert(lt(a[i as int], c[i as int]));
            }
        }
    }
}

proof fn lemma_lex_total<T>(a: Seq<T>, b: Seq<T>, i: nat, lt: spec_fn(T, T) -> bool)
    requires
        strict_total(lt),
        i <= a.len(),
        i <= b.len(),
        forall|j: int| 0 <= j < i ==> a[j] == b[j],
        a != b,
    ensures
        lex_lt_from(a, b, i, lt) || lex_lt_from(b, a, i, lt),
    decreases a.len() - i,
{
    if i == a.len() && i == b.len() {
        assert(a =~= b);
    } else if i < a.len() && i < b.len() {
        if a[i as int] == b[i as int] {
            lemma_lex_total(a, b, i + 1, lt);
        } else {
            assert(lt(a[i as int], b[i as int]) || lt(b[i as int], a[i as int]));
        }
    }
}

/// A strict total order induces a strict total lexicographic order.
pub proof fn lemma_lex_strict_total<T>(lt: spec_fn(T, T) -> bool)
    requires
        strict_total(lt),
    ensures
        strict_total(lex_order(lt)),
{
    let l = lex_order(lt);
    assert forall|x: Seq<T>| !#[trigger] l(x, x) by {
        lemma_lex_irreflexive(x, 0, lt);
    }
    assert forall|x: Seq<T>, y: Seq<T>, z: Seq<T>| #[trigger] l(x, y) && #[trigger] l(y, z) implies l(
        x,
        z,
    ) by {
        lemma_lex_transitive(x, y, z, 0, lt);
    }
    assert forall|x: Seq<T>, y: Seq<T>| #![trigger l(x, y)] x != y implies l(x, y) || l(y, x) by {
        lemma_lex_total(x, y, 0, lt);
    }
}

/// Two strict total orders induce a strict total order on pairs.
pub proof fn lemma_pair_strict_total<A, B>(lt1: spec_fn(A, A) -> bool, lt2: spec_fn(B, B) -> bool)
    requires
        strict_total(lt1),
        strict_total(lt2),
    ensures
        strict_total(pair_order(lt1, lt2)),
{
    let l = pair_order(lt1, lt2);
    assert forall|x: (A, B), y: (A, B), z: (A, B)| #[trigger] l(x, y) && #[trigger] l(y, z) implies l(
        x,
        z,
    ) by {
        if lt1(x.0, y.0) && lt1(y.0, z.0) {
            assert(lt1(x.0, z.0));
        }
    }
    assert forall|x: (A, B), y: (A, B)| #![trigger l(x, y)] x != y implies l(x, y) || l(y, x) by {
        if x.0 != y.0 {
            assert(lt1(x.0, y.0) || lt1(y.0, x.0));
        } else {
            assert(x.1 != y.1);
            assert(lt2(x.1, y.1) || lt2(y.1, x.1));
        }
    }
}

/// Three-way comparison of two character sequences in string order.
pub fn compare_chars(a: &Vec<char>, b: &Vec<char>) -> (r: Order)
    ensures
        order_agrees(r, a@, b@, lex_order(char_order())),
{
    let ghost lt = char_order();
    proof {
        lemma_char_order_strict_total();
        lemma_lex_strict_total(lt);
    }
    let mut i: usize = 0;
    while i < a.len() && i < b.len()
        invariant
            lt == char_order(),
            i <= a@.len(),
            i <= b@.len(),
            forall|j: int| 0 <= j < i ==> a@[j] == b@[j],
            lex_lt(a@, b@, lt) == lex_lt_from(a@, b@, i as nat, lt),
            lex_lt(b@, a@, lt) == lex_lt_from(b@, a@, i as nat, lt),
        decreases a@.len() - i,
    {
        if a[i] != b[i] {
            assert(a@[i as int] != b@[i as int]);
            if a[i] < b[i] {
                return Order::Less;
            } else {
                return Order::Greater;
            }
        }
        i = i + 1;
    }
    if a.len() == b.len() {
        assert(a@ =~= b@);
        Order::Equal
    } else if a.len() < b.len() {
        Order::Less
    } else {
        Order::Greater
    }
}

/// Three-way comparison of two strings in Rust's string order.
pub fn compare_str(a: &str, b: &str) -> (r: Order)
    ensures
        order_agrees(r, a@, b@, lex_order(char_order())),
{
    let ca = crate::text::chars_of(a);
    let cb = crate::text::chars_of(b);
    compare_chars(&ca, &cb)
}

} // verus!
