//! A count per file extension, kept in ascending order of the extension (the
//! order in which a sorted map of strings would hold them).
use vstd::prelude::*;

use crate::order::{chars_lt, compare_str, lemma_char_order_strict_total, lemma_lex_strict_total, char_order, lex_order, strict_total, Order};
use crate::text::owned;

verus! {

/// An entry's key and count.
pub type CountView = (Seq<char>, nat);

/// Counts per key, with keys in strictly ascending string order.
pub struct ExtensionCounts {
    entries: Vec<(String, usize)>,
}

/// The count that `s` holds for `k` (0 if `k` is absent).
pub open spec fn count_in(s: Seq<CountView>, k: Seq<char>) -> nat
    decreases s.len(),
{
    if s.len() == 0 {
        0
    } else if s.last().0 == k {
        s.last().1
    } else {
        count_in(s.drop_last(), k)
    }
}

/// The sum of all counts in `s`.
pub open spec fn total_in(s: Seq<CountView>) -> nat
    decreases s.len(),
{
    if s.len() == 0 {
        0
    } else {
        total_in(s.drop_last()) + s.last().1
    }
}

/// The keys of `s` ascend strictly.
pub open spec fn keys_ascending(s: Seq<CountView>) -> bool {
    forall|i: int, j: int| 0 <= i < j < s.len() ==> chars_lt(#[trigger] s[i].0, #[trigger] s[j].0)
}

/// The entries are as counts keep them: keys strictly ascending, every
/// listed key counted at least once.
pub open spec fn entries_ordered(s: Seq<CountView>) -> bool {
    &&& keys_ascending(s)
    &&& forall|i: int| 0 <= i < s.len() ==> #[trigger] s[i].1 >= 1
}

/// `k` is the key of some entry of `s`.
pub open spec fn has_key(s: Seq<CountView>, k: Seq<char>) -> bool {
    exists|i: int| 0 <= i < s.len() && #[trigger] s[i].0 == k
}

proof fn lemma_count_absent(s: Seq<CountView>, k: Seq<char>)
    requires
        !has_key(s, k),
    ensures
        count_in(s, k) == 0,
    decreases s.len(),
{
    if s.len() > 0 {
        assert(s.last() == s[s.len() - 1]);
        assert(!has_key(s.drop_last(), k)) by {
            if has_key(s.drop_last(), k) {
                let i = choose|i: int| 0 <= i < s.drop_last().len() && #[trigger] s.drop_last()[i].0 == k;
                assert(s[i].0 == k);
            }
        }
        lemma_count_absent(s.drop_last(), k);
    }
}

proof fn lemma_count_at(s: Seq<CountView>, p: int)
    requires
        0 <= p < s.len(),
        forall|i: int| 0 <= i < s.len() && i != p ==> #[trigger] s[i].0 != s[p].0,
    ensures
        count_in(s, s[p].0) == s[p].1,
    decreases s.len(),
{
    if p < s.len() - 1 {
        assert forall|i: int| 0 <= i < s.drop_last().len() && i != p implies #[trigger] s.drop_last()[i].0
            != s.drop_last()[p].0 by {
            assert(s.drop_last()[i] == s[i]);
        }
        lemma_count_at(s.drop_last(), p);
        assert(s.last() == s[s.len() - 1]);
    }
}

proof fn lemma_update(s: Seq<CountView>, p: int, v: nat, k2: Seq<char>)
    requires
        0 <= p < s.len(),
        k2 != s[p].0,
    ensures
        count_in(s.update(p, (s[p].0, v)), k2) == count_in(s, k2),
    decreases s.len(),
{
    let t = s.update(p, (s[p].0, v));
    if p == s.len() - 1 {
        assert(t.drop_last() =~= s.drop_last());
    } else {
        assert(t.drop_last() =~= s.drop_last().update(p, (s[p].0, v)));
        lemma_update(s.drop_last(), p, v, k2);
    }
}

proof fn lemma_update_total(s: Seq<CountView>, p: int, v: nat)
    requires
        0 <= p < s.len(),
    ensures
        total_in(s.update(p, (s[p].0, v))) + s[p].1 == total_in(s) + v,
    decreases s.len(),
{
    let t = s.update(p, (s[p].0, v));
    if p == s.len() - 1 {
        assert(t.drop_last() =~= s.drop_last());
    } else {
        assert(t.drop_last() =~= s.drop_last().update(p, (s[p].0, v)));
        lemma_update_total(s.drop_last(), p, v);
    }
}

proof fn lemma_insert(s: Seq<CountView>, p: int, e: CountView, k2: Seq<char>)
    requires
        0 <= p <= s.len(),
        k2 != e.0,
    ensures
        count_in(s.insert(p, e), k2) == count_in(s, k2),
    decreases s.len(),
{
    let t = s.insert(p, e);
    if p == s.len() {
        assert(t.drop_last() =~= s);
    } else {
        assert(t.drop_last() =~= s.drop_last().insert(p, e));
        lemma_insert(s.drop_last(), p, e, k2);
    }
}

proof fn lemma_insert_total(s: Seq<CountView>, p: int, e: CountView)
    requires
        0 <= p <= s.len(),
    ensures
        total_in(s.insert(p, e)) == total_in(s) + e.1,
    decreases s.len(),
{
    let t = s.insert(p, e);
    if p == s.len() {
        assert(t.drop_last() =~= s);
    } else {
        assert(t.drop_last() =~= s.drop_last().insert(p, e));
        lemma_insert_total(s.drop_last(), p, e);
    }
}

proof fn lemma_count_le_total(s: Seq<CountView>, k: Seq<char>)
    ensures
        count_in(s, k) <= total_in(s),
    decreases s.len(),
{
    if s.len() > 0 {
        lemma_count_le_total(s.drop_last(), k);
    }
}

/// Entries in order are determined by their counts: two such lists that give
/// every key the same count are the same list.
pub proof fn lemma_entries_determined(s1: Seq<CountView>, s2: Seq<CountView>)
    requires
        entries_ordered(s1),
        entries_ordered(s2),
        forall|k: Seq<char>| #[trigger] count_in(s1, k) == count_in(s2, k),
    ensures
        s1 == s2,
    decreases s1.len() + s2.len(),
{
    lemma_char_order_strict_total();
    lemma_lex_strict_total(char_order());
    if s1.len() == 0 && s2.len() == 0 {
        assert(s1 =~= s2);
    } else if s1.len() == 0 {
        assert(s2.last() == s2[s2.len() - 1]);
        assert(count_in(s2, s2.last().0) == s2.last().1);
        assert(count_in(s1, s2.last().0) == 0);
    } else if s2.len() == 0 {
        assert(s1.last() == s1[s1.len() - 1]);
        assert(count_in(s1, s1.last().0) == s1.last().1);
        assert(count_in(s2, s1.last().0) == 0);
    } else {
        let a = s1.last();
        let b = s2.last();
        assert(a == s1[s1.len() - 1]);
        assert(b == s2[s2.len() - 1]);
        assert(count_in(s1, a.0) == a.1);
        assert(count_in(s2, b.0) == b.1);
        if a.0 != b.0 {
            if chars_lt(a.0, b.0) {
                assert forall|i: int| 0 <= i < s1.len() implies #[trigger] s1[i].0 != b.0 by {
                    if i < s1.len() - 1 {
                        assert(chars_lt(s1[i].0, a.0));
                    }
                }
                lemma_count_absent(s1, b.0);
                assert(count_in(s1, b.0) == count_in(s2, b.0));
            } else {
                assert(chars_lt(b.0, a.0));
                assert forall|i: int| 0 <= i < s2.len() implies #[trigger] s2[i].0 != a.0 by {
                    if i < s2.len() - 1 {
                        assert(chars_lt(s2[i].0, b.0));
                    }
                }
                lemma_count_absent(s2, a.0);
                assert(count_in(s1, a.0) == count_in(s2, a.0));
            }
        }
        assert(a.0 == b.0);
        assert(count_in(s1, a.0) == count_in(s2, a.0));
        let d1 = s1.drop_last();
        let d2 = s2.drop_last();
        assert forall|i: int| 0 <= i < d1.len() implies #[trigger] d1[i].0 != a.0 by {
            assert(d1[i] == s1[i]);
            assert(chars_lt(s1[i].0, a.0));
        }
        assert forall|i: int| 0 <= i < d2.len() implies #[trigger] d2[i].0 != a.0 by {
            assert(d2[i] == s2[i]);
            assert(chars_lt(s2[i].0, b.0));
        }
        lemma_count_absent(d1, a.0);
        lemma_count_absent(d2, a.0);
        assert forall|k: Seq<char>| #[trigger] count_in(d1, k) == count_in(d2, k) by {
            if k != a.0 {
                assert(count_in(s1, k) == count_in(d1, k));
                assert(count_in(s2, k) == count_in(d2, k));
            }
        }
        assert forall|i: int, j: int| 0 <= i < j < d1.len() implies chars_lt(#[trigger] d1[i].0, #[trigger] d1[j].0) by {
            assert(d1[i] == s1[i] && d1[j] == s1[j]);
        }
        assert forall|i: int| 0 <= i < d1.len() implies #[trigger] d1[i].1 >= 1 by {
            assert(d1[i] == s1[i]);
        }
        assert forall|i: int, j: int| 0 <= i < j < d2.len() implies chars_lt(#[trigger] d2[i].0, #[trigger] d2[j].0) by {
            assert(d2[i] == s2[i] && d2[j] == s2[j]);
        }
        assert forall|i: int| 0 <= i < d2.len() implies #[trigger] d2[i].1 >= 1 by {
            assert(d2[i] == s2[i]);
        }
        lemma_entries_determined(d1, d2);
        assert(s1 =~= d1.push(a));
        assert(s2 =~= d2.push(b));
    }
}

impl ExtensionCounts {
    /// The entries as keys and counts.
    pub closed spec fn entries_view(&self) -> Seq<CountView> {
        self.entries@.map_values(|e: (String, usize)| (e.0@, e.1 as nat))
    }

    /// The keys ascend strictly and every listed key has been counted.
    #[verifier::type_invariant]
    spec fn wf(&self) -> bool {
        entries_ordered(self.entries_view())
    }

    /// The count held for `k`.
    pub open spec fn count_of(&self, k: Seq<char>) -> nat {
        count_in(self.entries_view(), k)
    }

    /// The sum of all counts.
    pub open spec fn total(&self) -> nat {
        total_in(self.entries_view())
    }

    /// No counts at all.
    pub fn new() -> (res: ExtensionCounts)
        ensures
            entries_ordered(res.entries_view()),
            res.entries_view().len() == 0,
            res.total() == 0,
            forall|k: Seq<char>| res.count_of(k) == 0,
    {
        let res = ExtensionCounts { entries: Vec::new() };
        assert(res.entries_view() =~= Seq::<CountView>::empty());
        res
    }

    /// A copy of these counts.
    pub fn copy(&self) -> (res: ExtensionCounts)
        ensures
            entries_ordered(res.entries_view()),
            res.entries_view() == self.entries_view(),
    {
        let mut entries: Vec<(String, usize)> = Vec::new();
        for i in 0..self.entries.len()
            invariant
                entries@.len() == i,
                forall|j: int| 0 <= j < i ==> (#[trigger] entries@[j]).0@ == self.entries@[j].0@ && entries@[j].1 == self.entries@[j].1,
        {
            entries.push((self.entries[i].0.clone(), self.entries[i].1));
        }
        proof {
            use_type_invariant(self);
            assert(ExtensionCounts { entries }.entries_view() =~= self.entries_view());
        }
        let res = ExtensionCounts { entries };
        res
    }

    /// The number of distinct keys. (The entries are always in order.)
    pub fn len(&self) -> (n: usize)
        ensures
            n == self.entries_view().len(),
            entries_ordered(self.entries_view()),
    {
        proof {
            use_type_invariant(self);
        }
        self.entries.len()
    }

    /// Whether no key has a count.
    pub fn is_empty(&self) -> (b: bool)
        ensures
            b == (self.entries_view().len() == 0),
    {
        self.entries.len() == 0
    }

    /// The key and count of the `i`-th entry in ascending key order.
    pub fn entry(&self, i: usize) -> (res: (&str, usize))
        requires
            i < self.entries_view().len(),
        ensures
            res.0@ == self.entries_view()[i as int].0,
            res.1 as nat == self.entries_view()[i as int].1,
    {
        (self.entries[i].0.as_str(), self.entries[i].1)
    }

    /// The count held for `key` (0 if none).
    pub fn get(&self, key: &str) -> (n: usize)
        ensures
            n as nat == self.count_of(key@),
    {
        let ghost s = self.entries_view();
        proof {
            use_type_invariant(self);
            lemma_char_order_strict_total();
            lemma_lex_strict_total(char_order());
        }
        for i in 0..self.entries.len()
            invariant
                s == self.entries_view(),
                keys_ascending(s),
                strict_total(lex_order(char_order())),
                forall|j: int| 0 <= j < i ==> #[trigger] s[j].0 != key@,
        {
            assert(s[i as int].0 == self.entries@[i as int].0@);
            if crate::text::str_equal(self.entries[i].0.as_str(), key) {
                proof {
                    assert forall|j: int| 0 <= j < s.len() && j != i implies #[trigger] s[j].0 != s[i as int].0 by {
                        if j < i {
                            assert(chars_lt(s[j].0, s[i as int].0));
                        } else {
                            assert(chars_lt(s[i as int].0, s[j].0));
                        }
                    }
                    lemma_count_at(s, i as int);
                }
                return self.entries[i].1;
            }
        }
        proof {
            assert(!has_key(s, key@));
            lemma_count_absent(s, key@);
        }
        0
    }

    /// Adds one to the count of `key`.
    pub fn increment(&mut self, key: &str)
        requires
            old(self).total() < usize::MAX,
        ensures
            entries_ordered(final(self).entries_view()),
            final(self).count_of(key@) == old(self).count_of(key@) + 1,
            forall|k: Seq<char>| k != key@ ==> final(self).count_of(k) == old(self).count_of(k),
            final(self).total() == old(self).total() + 1,
    {
        let ghost s = self.entries_view();
        let ghost lt = lex_order(char_order());
        proof {
            use_type_invariant(&*self);
            lemma_char_order_strict_total();
            lemma_lex_strict_total(char_order());
        }
        // first position whose key is not below `key`
        let mut lo: usize = 0;
        let mut hi: usize = self.entries.len();
        while lo < hi
            invariant
                s == self.entries_view(),
                lt == lex_order(char_order()),
                strict_total(lt),
                keys_ascending(s),
                0 <= lo <= hi <= s.len(),
                forall|i: int| 0 <= i < lo ==> chars_lt(#[trigger] s[i].0, key@),
                forall|i: int| hi <= i < s.len() ==> !chars_lt(#[trigger] s[i].0, key@),
            decreases hi - lo,
        {
            let mid = lo + (hi - lo) / 2;
            assert(s[mid as int].0 == self.entries@[mid as int].0@);
            match compare_str(self.entries[mid].0.as_str(), key) {
                Order::Less => {
                    assert forall|i: int| 0 <= i < mid + 1 implies chars_lt(#[trigger] s[i].0, key@) by {
                        if i < mid {
                            assert(lt(s[i].0, s[mid as int].0));
                        }
                    }
                    lo = mid + 1;
                },
                _ => {
                    assert forall|i: int| mid <= i < s.len() implies !chars_lt(#[trigger] s[i].0, key@) by {
                        if i > mid {
                            assert(lt(s[mid as int].0, s[i].0));
                            if lt(s[i].0, key@) {
                                assert(lt(s[mid as int].0, key@));
                            }
                        }
                    }
                    hi = mid;
                },
            }
        }
        let found = lo < self.entries.len() && crate::text::str_equal(self.entries[lo].0.as_str(), key);
        if lo < self.entries.len() {
            assert(s[lo as int].0 == self.entries@[lo as int].0@);
        }
        proof {
            lemma_count_le_total(s, key@);
        }
        if found {
            let c = self.entries[lo].1;
            proof {
                assert forall|j: int| 0 <= j < s.len() && j != lo implies #[trigger] s[j].0 != s[lo as int].0 by {
                    if j < lo {
                        assert(chars_lt(s[j].0, s[lo as int].0));
                    } else {
                        assert(chars_lt(s[lo as int].0, s[j].0));
                    }
                }
                lemma_count_at(s, lo as int);
            }
            let k = owned(key);
            let mut entries: Vec<(String, usize)> = Vec::new();
            std::mem::swap(&mut entries, &mut self.entries);
            entries.set(lo, (k, c + 1));
            proof {
                let t = s.update(lo as int, (s[lo as int].0, (c + 1) as nat));
                assert(entries@.map_values(|e: (String, usize)| (e.0@, e.1 as nat)) =~= t);
                assert forall|j: int| 0 <= j < t.len() && j != lo implies #[trigger] t[j].0 != t[lo as int].0 by {
                    assert(s[j].0 != s[lo as int].0);
                }
                lemma_count_at(t, lo as int);
                lemma_update_total(s, lo as int, (c + 1) as nat);
                assert forall|i: int| 0 <= i < t.len() implies #[trigger] t[i].1 >= 1 by {
                    if i != lo {
                        assert(t[i] == s[i]);
                    }
                }
                assert forall|k2: Seq<char>| k2 != key@ implies count_in(t, k2) == count_in(s, k2) by {
                    lemma_update(s, lo as int, (c + 1) as nat, k2);
                }
            }
            self.entries = entries;
        } else {
            proof {
                if lo < s.len() {
                    assert(s[lo as int].0 != key@);
                    assert(!lt(s[lo as int].0, key@));
                    assert(lt(key@, s[lo as int].0));
                }
                assert forall|i: int| 0 <= i < s.len() implies #[trigger] s[i].0 != key@ by {
                    if i >= lo {
                        if i > lo {
                            assert(lt(s[lo as int].0, s[i].0));
                        }
                        assert(lt(key@, s[lo as int].0));
                    }
                }
                lemma_count_absent(s, key@);
            }
            let k = owned(key);
            let mut entries: Vec<(String, usize)> = Vec::new();
            std::mem::swap(&mut entries, &mut self.entries);
            entries.insert(lo, (k, 1));
            proof {
                let e: CountView = (key@, 1);
                let t = s.insert(lo as int, e);
                assert(entries@.map_values(|e: (String, usize)| (e.0@, e.1 as nat)) =~= t);
                assert forall|j: int| 0 <= j < t.len() && j != lo implies #[trigger] t[j].0 != t[lo as int].0 by {
                    if j < lo {
                        assert(t[j] == s[j]);
                    } else {
                        assert(t[j] == s[j - 1]);
                    }
                }
                lemma_count_at(t, lo as int);
                lemma_insert_total(s, lo as int, e);
                assert forall|i: int| 0 <= i < t.len() implies #[trigger] t[i].1 >= 1 by {
                    if i < lo {
                        assert(t[i] == s[i]);
                    } else if i > lo {
                        assert(t[i] == s[i - 1]);
                    }
                }
                assert forall|k2: Seq<char>| k2 != key@ implies count_in(t, k2) == count_in(s, k2) by {
                    lemma_insert(s, lo as int, e, k2);
                }
                assert forall|i: int, j: int| 0 <= i < j < t.len() implies chars_lt(#[trigger] t[i].0, #[trigger] t[j].0) by {
                    if j < lo {
                        assert(t[i] == s[i] && t[j] == s[j]);
                    } else if j == lo {
                        assert(t[i] == s[i]);
                    } else if i < lo {
                        assert(t[i] == s[i] && t[j] == s[j - 1]);
                        assert(lt(s[i].0, key@));
                        assert(lt(key@, s[j - 1].0));
                    } else if i == lo {
                        assert(t[j] == s[j - 1]);
                        assert(lt(key@, s[lo as int].0));
                        if j - 1 > lo {
                            assert(lt(s[lo as int].0, s[j - 1].0));
                        }
                    } else {
                        assert(t[i] == s[i - 1] && t[j] == s[j - 1]);
                    }
                }
            }
            self.entries = entries;
        }
    }
}

} // verus!
