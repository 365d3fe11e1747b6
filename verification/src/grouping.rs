//! Grouping records by (folder, name): the first record of every group, the
//! groups in ascending order. This is what the report does with a map keyed
//! by folder and album that keeps the first entry per key.
use vstd::prelude::*;

use crate::order::{
    char_order, compare_chars, lemma_char_order_strict_total, lemma_lex_strict_total,
    lemma_pair_strict_total, lex_order, order_agrees, pair_order, strict_total, Order,
};
use crate::paths::{
    compare_parts, folder_order, lemma_folder_order_strict_total, parts_view, PartView, PathPart,
};

verus! {

/// The view of a grouping key: a folder's components and a name.
pub type KeyView = (Seq<PartView>, Seq<char>);

/// A grouping key: a folder (by its components) and a name.
pub struct GroupKey {
    pub folder: Vec<PathPart>,
    pub name: Vec<char>,
}

impl View for GroupKey {
    type V = KeyView;

    open spec fn view(&self) -> KeyView {
        (parts_view(self.folder@), self.name@)
    }
}

/// Keys ordered by folder (as paths are ordered), then by name.
pub open spec fn key_order() -> spec_fn(KeyView, KeyView) -> bool {
    pair_order(folder_order(), lex_order(char_order()))
}

pub proof fn lemma_key_order_strict_total()
    ensures
        strict_total(key_order()),
{
    lemma_folder_order_strict_total();
    lemma_char_order_strict_total();
    lemma_lex_strict_total(char_order());
    lemma_pair_strict_total(folder_order(), lex_order(char_order()));
}

/// The views of a sequence of keys.
pub open spec fn keys_view(keys: Seq<GroupKey>) -> Seq<KeyView> {
    keys.map_values(|k: GroupKey| k@)
}

/// No key before position `k` equals the key at `k`.
pub open spec fn is_first_of_key(ks: Seq<KeyView>, k: int) -> bool {
    forall|m: int| 0 <= m < k ==> ks[m] != ks[k]
}

/// The keys at the positions listed in `idx` ascend strictly.
pub open spec fn ascending_at(ks: Seq<KeyView>, idx: Seq<usize>) -> bool {
    forall|i: int, j: int| 0 <= i < j < idx.len() ==> (key_order())(ks[idx[i] as int], ks[idx[j] as int])
}

/// Every key among the first `n` occurs at some position listed in `idx`.
pub open spec fn covers(ks: Seq<KeyView>, idx: Seq<usize>, n: int) -> bool {
    forall|k: int| #![trigger ks[k]]
        0 <= k < n ==> exists|i: int| 0 <= i < idx.len() && #[trigger] ks[idx[i] as int] == ks[k]
}

/// `idx` lists, in ascending key order, the first position of every distinct
/// key of `ks`, and nothing else.
pub open spec fn first_of_each_sorted(ks: Seq<KeyView>, idx: Seq<usize>) -> bool {
    &&& forall|i: int| 0 <= i < idx.len() ==> #[trigger] idx[i] < ks.len()
    &&& forall|i: int| 0 <= i < idx.len() ==> is_first_of_key(ks, #[trigger] idx[i] as int)
    &&& ascending_at(ks, idx)
    &&& covers(ks, idx, ks.len() as int)
}

/// Three-way comparison of two keys.
pub fn compare_keys(a: &GroupKey, b: &GroupKey) -> (r: Order)
    ensures
        order_agrees(r, a@, b@, key_order()),
{
    proof {
        lemma_key_order_strict_total();
    }
    match compare_parts(&a.folder, &b.folder) {
        Order::Less => Order::Less,
        Order::Greater => Order::Greater,
        Order::Equal => compare_chars(&a.name, &b.name),
    }
}

/// The position in `res` before which every key is below `key` and from which
/// none is.
fn search_position(keys: &Vec<GroupKey>, res: &Vec<usize>, key: &GroupKey) -> (lo: usize)
    requires
        forall|i: int| 0 <= i < res@.len() ==> #[trigger] res@[i] < keys@.len(),
        ascending_at(keys_view(keys@), res@),
    ensures
        lo <= res@.len(),
        forall|i: int| 0 <= i < lo ==> (key_order())(#[trigger] keys_view(keys@)[res@[i] as int], key@),
        forall|i: int| lo <= i < res@.len() ==> !(key_order())(#[trigger] keys_view(keys@)[res@[i] as int], key@),
{
    let ghost ks = keys_view(keys@);
    let ghost lt = key_order();
    proof {
        lemma_key_order_strict_total();
    }
    let mut lo: usize = 0;
    let mut hi: usize = res.len();
    while lo < hi
        invariant
            ks == keys_view(keys@),
            lt == key_order(),
            strict_total(lt),
            0 <= lo <= hi <= res@.len(),
            forall|i: int| 0 <= i < res@.len() ==> #[trigger] res@[i] < keys@.len(),
            ascending_at(ks, res@),
            forall|i: int| 0 <= i < lo ==> lt(#[trigger] ks[res@[i] as int], key@),
            forall|i: int| hi <= i < res@.len() ==> !lt(#[trigger] ks[res@[i] as int], key@),
        decreases hi - lo,
    {
        let mid = lo + (hi - lo) / 2;
        let c = compare_keys(&keys[res[mid]], key);
        assert(ks[res@[mid as int] as int] == keys@[res@[mid as int] as int]@);
        match c {
            Order::Less => {
                assert forall|i: int| 0 <= i < mid + 1 implies lt(#[trigger] ks[res@[i] as int], key@) by {
                    if i < mid {
                        assert(lt(ks[res@[i] as int], ks[res@[mid as int] as int]));
                    }
                }
                lo = mid + 1;
            },
            _ => {
                assert forall|i: int| mid <= i < res@.len() implies !lt(#[trigger] ks[res@[i] as int], key@) by {
                    if i > mid {
                        assert(lt(ks[res@[mid as int] as int], ks[res@[i] as int]));
                        if lt(ks[res@[i] as int], key@) {
                            assert(lt(ks[res@[mid as int] as int], key@));
                        }
                    }
                }
                hi = mid;
            },
        }
    }
    lo
}

/// Facts shared by the lemmas on inserting a position with a new key.
pub open spec fn insert_setting(ks: Seq<KeyView>, old_res: Seq<usize>, lo: int, n: usize) -> bool {
    &&& strict_total(key_order())
    &&& 0 <= lo <= old_res.len()
    &&& 0 <= n < ks.len()
    &&& forall|i: int| 0 <= i < old_res.len() ==> #[trigger] old_res[i] < n
    &&& forall|i: int| 0 <= i < old_res.len() ==> is_first_of_key(ks, #[trigger] old_res[i] as int)
    &&& ascending_at(ks, old_res)
    &&& covers(ks, old_res, n as int)
    &&& forall|i: int| 0 <= i < lo ==> (key_order())(#[trigger] ks[old_res[i] as int], ks[n as int])
    &&& forall|i: int| lo <= i < old_res.len() ==> !(key_order())(#[trigger] ks[old_res[i] as int], ks[n as int])
    &&& lo < old_res.len() ==> ks[old_res[lo] as int] != ks[n as int]
}

proof fn lemma_new_key_absent(ks: Seq<KeyView>, old_res: Seq<usize>, lo: int, n: usize)
    requires
        insert_setting(ks, old_res, lo, n),
    ensures
        forall|i: int| 0 <= i < old_res.len() ==> (key_order())(ks[n as int], #[trigger] ks[old_res[i] as int]) || i < lo,
        forall|i: int| 0 <= i < old_res.len() ==> #[trigger] ks[old_res[i] as int] != ks[n as int],
        is_first_of_key(ks, n as int),
{
    let lt = key_order();
    assert forall|i: int| 0 <= i < old_res.len() && i >= lo implies lt(ks[n as int], #[trigger] ks[old_res[i] as int]) by {
        assert(lt(ks[n as int], ks[old_res[lo] as int]));
        if i > lo {
            assert(lt(ks[old_res[lo] as int], ks[old_res[i] as int]));
        }
    }
    assert forall|m: int| 0 <= m < n implies ks[m] != ks[n as int] by {
        let i = choose|i: int| 0 <= i < old_res.len() && #[trigger] ks[old_res[i] as int] == ks[m];
        if i >= lo {
            assert(lt(ks[n as int], ks[old_res[i] as int]));
        }
    }
}

proof fn lemma_insert_positions(ks: Seq<KeyView>, old_res: Seq<usize>, lo: int, n: usize)
    requires
        insert_setting(ks, old_res, lo, n),
    ensures
        forall|i: int| 0 <= i < old_res.insert(lo, n).len() ==> #[trigger] old_res.insert(lo, n)[i] < n + 1,
        forall|i: int| 0 <= i < old_res.insert(lo, n).len() ==> is_first_of_key(ks, #[trigger] old_res.insert(lo, n)[i] as int),
{
    lemma_new_key_absent(ks, old_res, lo, n);
    let res = old_res.insert(lo, n);
    assert forall|i: int| 0 <= i < res.len() implies #[trigger] res[i] < n + 1 && is_first_of_key(ks, res[i] as int) by {
        if i < lo {
            assert(res[i] == old_res[i]);
        } else if i > lo {
            assert(res[i] == old_res[i - 1]);
        }
    }
}

proof fn lemma_insert_ascending(ks: Seq<KeyView>, old_res: Seq<usize>, lo: int, n: usize)
    requires
        insert_setting(ks, old_res, lo, n),
    ensures
        ascending_at(ks, old_res.insert(lo, n)),
{
    lemma_new_key_absent(ks, old_res, lo, n);
    let lt = key_order();
    let res = old_res.insert(lo, n);
    assert forall|i: int, j: int| 0 <= i < j < res.len() implies lt(ks[res[i] as int], ks[res[j] as int]) by {
        if j < lo {
            assert(res[i] == old_res[i] && res[j] == old_res[j]);
        } else if j == lo {
            assert(res[i] == old_res[i]);
        } else if i < lo {
            assert(res[i] == old_res[i] && res[j] == old_res[j - 1]);
        } else if i == lo {
            assert(res[j] == old_res[j - 1]);
        } else {
            assert(res[i] == old_res[i - 1] && res[j] == old_res[j - 1]);
        }
    }
}

proof fn lemma_insert_covers(ks: Seq<KeyView>, old_res: Seq<usize>, lo: int, n: usize)
    requires
        insert_setting(ks, old_res, lo, n),
    ensures
        covers(ks, old_res.insert(lo, n), n + 1),
{
    let res = old_res.insert(lo, n);
    assert forall|k: int| #![trigger ks[k]] 0 <= k < n + 1 implies exists|i: int|
        0 <= i < res.len() && #[trigger] ks[res[i] as int] == ks[k] by {
        if k == n {
            assert(ks[res[lo] as int] == ks[k]);
        } else {
            let i = choose|i: int| 0 <= i < old_res.len() && #[trigger] ks[old_res[i] as int] == ks[k];
            if i < lo {
                assert(res[i] == old_res[i]);
                assert(ks[res[i] as int] == ks[k]);
            } else {
                assert(res[i + 1] == old_res[i]);
                assert(ks[res[i + 1] as int] == ks[k]);
            }
        }
    }
}

/// The first position of every distinct key, in ascending key order.
pub fn first_of_each_key(keys: &Vec<GroupKey>) -> (res: Vec<usize>)
    ensures
        first_of_each_sorted(keys_view(keys@), res@),
{
    let ghost ks = keys_view(keys@);
    proof {
        lemma_key_order_strict_total();
    }
    let mut res: Vec<usize> = Vec::new();
    for n in 0..keys.len()
        invariant
            ks == keys_view(keys@),
            strict_total(key_order()),
            forall|i: int| 0 <= i < res@.len() ==> #[trigger] res@[i] < n,
            forall|i: int| 0 <= i < res@.len() ==> is_first_of_key(ks, #[trigger] res@[i] as int),
            ascending_at(ks, res@),
            covers(ks, res@, n as int),
    {
        let key = &keys[n];
        assert(ks[n as int] == key@);
        let lo = search_position(keys, &res, key);
        let found = if lo < res.len() {
            let c = compare_keys(&keys[res[lo]], key);
            assert(ks[res@[lo as int] as int] == keys@[res@[lo as int] as int]@);
            match c {
                Order::Equal => true,
                _ => false,
            }
        } else {
            false
        };
        if found {
            assert(ks[res@[lo as int] as int] == ks[n as int]);
            assert(covers(ks, res@, n + 1));
        } else {
            let ghost old_res = res@;
            proof {
                assert(insert_setting(ks, old_res, lo as int, n));
                lemma_insert_positions(ks, old_res, lo as int, n);
                lemma_insert_ascending(ks, old_res, lo as int, n);
                lemma_insert_covers(ks, old_res, lo as int, n);
            }
            res.insert(lo, n);
        }
    }
    proof {
        assert(ks.len() == keys@.len());
        assert(forall|i: int| 0 <= i < res@.len() ==> #[trigger] res@[i] < ks.len());
        assert(covers(ks, res@, ks.len() as int));
        assert(ascending_at(ks, res@));
    }
    res
}

} // verus!
