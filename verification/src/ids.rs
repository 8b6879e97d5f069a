//! Object ids. A stored record's 12-byte object id is held as the integer
//! of its bytes read big-endian, so that ids order as their bytes do.

use vstd::prelude::*;

verus! {

broadcast use vstd::seq_lib::group_seq_properties;

pub open spec fn strictly_increasing(s: Seq<u128>) -> bool {
    forall|i: int, j: int| 0 <= i < j < s.len() ==> (#[trigger] s[i]) < (#[trigger] s[j])
}

proof fn lemma_insert_contains(s: Seq<u128>, p: int, x: u128)
    requires
        0 <= p <= s.len(),
    ensures
        forall|y: u128| #[trigger] s.insert(p, x).contains(y) <==> (s.contains(y) || y == x),
{
    s.insert_ensures(p, x);
    let t = s.insert(p, x);
    assert forall|y: u128| #[trigger] t.contains(y) <==> (s.contains(y) || y == x) by {
        if t.contains(y) {
            let j = choose|j: int| 0 <= j < t.len() && t[j] == y;
            if j < p {
                assert(s[j] == y);
            } else if j > p {
                assert(s[j - 1] == y);
            }
        }
        if s.contains(y) {
            let m = choose|m: int| 0 <= m < s.len() && s[m] == y;
            if m < p {
                assert(t[m] == y);
            } else {
                assert(t[m + 1] == y);
            }
        }
        if y == x {
            assert(t[p] == y);
        }
    }
}

/// Sorts the ids and drops repeated ones (`sort` then `dedup`): the result
/// is strictly increasing and holds exactly the ids that were there.
pub fn sort_dedup(ids: &mut Vec<u128>)
    ensures
        strictly_increasing(final(ids)@),
        forall|x: u128| final(ids)@.contains(x) <==> old(ids)@.contains(x),
{
    let ghost input = ids@;
    let mut r: Vec<u128> = Vec::new();
    let mut k: usize = 0;
    while k < ids.len()
        invariant
            ids@ == input,
            k <= ids.len(),
            strictly_increasing(r@),
            forall|x: u128| r@.contains(x) <==> input.take(k as int).contains(x),
        decreases ids.len() - k,
    {
        let x = ids[k];
        let mut p: usize = 0;
        while p < r.len() && r[p] < x
            invariant
                p <= r.len(),
                forall|i: int| 0 <= i < p ==> r@[i] < x,
            decreases r.len() - p,
        {
            p = p + 1;
        }
        assert(input.take(k + 1) == input.take(k as int).push(x));
        if p < r.len() && r[p] == x {
            assert(r@.contains(x));
        } else {
            let ghost old_r = r@;
            r.insert(p, x);
            proof {
                old_r.insert_ensures(p as int, x);
                lemma_insert_contains(old_r, p as int, x);
            }
            assert forall|i: int, j: int| 0 <= i < j < r@.len() implies (#[trigger] r@[i]) < (#[trigger] r@[j]) by {
                if p < old_r.len() {
                    assert(x < old_r[p as int]);
                }
                if j < p {
                    assert(r@[i] == old_r[i] && r@[j] == old_r[j]);
                } else if i < p && j == p {
                    assert(r@[i] == old_r[i]);
                } else if i < p {
                    assert(r@[i] == old_r[i] && r@[j] == old_r[j - 1]);
                } else if i == p {
                    assert(r@[j] == old_r[j - 1]);
                    if j - 1 > p {
                        assert(old_r[p as int] < old_r[j - 1]);
                    }
                } else {
                    assert(r@[i] == old_r[i - 1] && r@[j] == old_r[j - 1]);
                }
            }
        }
        k = k + 1;
    }
    assert(input.take(input.len() as int) == input);
    *ids = r;
}

} // verus!

verus! {

/// Two strictly increasing id lists with the same ids are the same list:
/// sorting and dropping repeats has one possible outcome, so doing it twice
/// changes nothing.
pub proof fn lemma_sorted_unique(a: Seq<u128>, b: Seq<u128>)
    requires
        strictly_increasing(a),
        strictly_increasing(b),
        forall|x: u128| a.contains(x) <==> b.contains(x),
    ensures
        a == b,
    decreases a.len() + b.len(),
{
    if a.len() == 0 || b.len() == 0 {
        if a.len() > 0 {
            assert(a.contains(a[0]));
        }
        if b.len() > 0 {
            assert(b.contains(b[0]));
        }
    } else {
        assert(a.contains(a[0]) && b.contains(b[0]));
        let i = choose|i: int| 0 <= i < b.len() && b[i] == a[0];
        let j = choose|j: int| 0 <= j < a.len() && a[j] == b[0];
        if i > 0 {
            assert(b[0] < b[i]);
            if j > 0 {
                assert(a[0] < a[j]);
            }
        }
        assert(a[0] == b[0]);
        let a1 = a.drop_first();
        let b1 = b.drop_first();
        assert forall|x: u128| a1.contains(x) <==> b1.contains(x) by {
            if a1.contains(x) {
                let k = choose|k: int| 0 <= k < a1.len() && a1[k] == x;
                assert(a[k + 1] == x);
                assert(a[0] < a[k + 1]);
                assert(b.contains(x));
                let m = choose|m: int| 0 <= m < b.len() && b[m] == x;
                assert(m != 0);
                assert(b1[m - 1] == x);
            }
            if b1.contains(x) {
                let k = choose|k: int| 0 <= k < b1.len() && b1[k] == x;
                assert(b[k + 1] == x);
                assert(b[0] < b[k + 1]);
                assert(a.contains(x));
                let m = choose|m: int| 0 <= m < a.len() && a[m] == x;
                assert(m != 0);
                assert(a1[m - 1] == x);
            }
        }
        assert(strictly_increasing(a1));
        assert(strictly_increasing(b1));
        lemma_sorted_unique(a1, b1);
        assert(a == seq![a[0]] + a1);
        assert(b == seq![b[0]] + b1);
    }
}

} // verus!
