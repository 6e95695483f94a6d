//! Small verified vector exercises: elementwise addition and order-keeping
//! deduplication.

use vstd::prelude::*;

verus! {

/// `s` with every element's first occurrence kept, in order, and later
/// repeats dropped.
pub open spec fn dedup_spec(s: Seq<i32>) -> Seq<i32>
    decreases s.len(),
{
    if s.len() == 0 {
        Seq::empty()
    } else {
        let rest = dedup_spec(s.drop_last());
        if s.drop_last().contains(s.last()) {
            rest
        } else {
            rest.push(s.last())
        }
    }
}

proof fn lemma_dedup_contains(s: Seq<i32>, x: i32)
    ensures
        dedup_spec(s).contains(x) <==> s.contains(x),
    decreases s.len(),
{
    if s.len() > 0 {
        lemma_dedup_contains(s.drop_last(), x);
        let rest = dedup_spec(s.drop_last());
        if !s.drop_last().contains(s.last()) {
            assert forall|y: i32| rest.push(s.last()).contains(y) <==> rest.contains(y) || y
                == s.last() by {
                if rest.push(s.last()).contains(y) {
                    let i = choose|i: int| 0 <= i < rest.push(s.last()).len() && rest.push(
                        s.last(),
                    )[i] == y;
                    if i < rest.len() {
                        assert(rest[i] == y);
                    }
                }
                if rest.contains(y) {
                    let i = choose|i: int| 0 <= i < rest.len() && rest[i] == y;
                    assert(rest.push(s.last())[i] == y);
                }
                if y == s.last() {
                    assert(rest.push(s.last())[rest.len() as int] == y);
                }
            }
        }
        if s.contains(x) {
            let i = choose|i: int| 0 <= i < s.len() && s[i] == x;
            if i < s.len() - 1 {
                assert(s.drop_last()[i] == x);
            }
        }
        if s.drop_last().contains(x) {
            let i = choose|i: int| 0 <= i < s.drop_last().len() && s.drop_last()[i] == x;
            assert(s[i] == x);
        }
        if x == s.last() {
            assert(s[s.len() - 1] == x);
        }
    }
}

/// Returns `v` with `n` added to each element.
pub fn add_n(v: Vec<i32>, n: i32) -> (r: Vec<i32>)
    requires
        forall|i: int| #![trigger v@[i]] 0 <= i < v@.len() ==> i32::MIN <= v@[i] + n <= i32::MAX,
    ensures
        r@.len() == v@.len(),
        forall|i: int| 0 <= i < v@.len() ==> r@[i] == v@[i] + n,
{
    let mut out = v;
    let ghost orig = out@;
    let len = out.len();
    let mut i: usize = 0;
    while i < len
        invariant
            i <= len,
            len == out@.len(),
            orig.len() == out@.len(),
            forall|k: int| #![trigger orig[k]] 0 <= k < orig.len() ==> i32::MIN <= orig[k] + n <= i32::MAX,
            forall|k: int| 0 <= k < i ==> out@[k] == orig[k] + n,
            forall|k: int| i <= k < orig.len() ==> out@[k] == orig[k],
        decreases len - i,
    {
        let x = out[i];
        proof {
            assert(x == orig[i as int]);
            assert(i32::MIN <= orig[i as int] + n <= i32::MAX);
        }
        out.set(i, x + n);
        i += 1;
    }
    out
}

/// Adds `n` to each element of `v` in place.
pub fn add_n_inplace(v: &mut Vec<i32>, n: i32)
    requires
        forall|i: int| #![trigger old(v)@[i]] 0 <= i < old(v)@.len() ==> i32::MIN <= old(v)@[i] + n <= i32::MAX,
    ensures
        final(v)@.len() == old(v)@.len(),
        forall|i: int| 0 <= i < old(v)@.len() ==> final(v)@[i] == old(v)@[i] + n,
{
    let len = v.len();
    let mut i: usize = 0;
    while i < len
        invariant
            i <= len,
            len == v@.len(),
            old(v)@.len() == v@.len(),
            forall|k: int| #![trigger old(v)@[k]] 0 <= k < old(v)@.len() ==> i32::MIN <= old(v)@[k] + n <= i32::MAX,
            forall|k: int| 0 <= k < i ==> v@[k] == old(v)@[k] + n,
            forall|k: int| i <= k < old(v)@.len() ==> v@[k] == old(v)@[k],
        decreases len - i,
    {
        let x = v[i];
        proof {
            assert(x == old(v)@[i as int]);
            assert(i32::MIN <= old(v)@[i as int] + n <= i32::MAX);
        }
        v.set(i, x + n);
        i += 1;
    }
}

/// Drops every repeated element of `v`, keeping the first occurrence of
/// each value and the order of those occurrences.
pub fn dedup(v: &mut Vec<i32>)
    ensures
        final(v)@ == dedup_spec(old(v)@),
{
    let mut out: Vec<i32> = Vec::new();
    let len = v.len();
    let mut i: usize = 0;
    proof {
        assert(out@ =~= dedup_spec(old(v)@.take(0)));
    }
    while i < len
        invariant
            i <= len,
            len == v@.len(),
            *v == *old(v),
            out@ == dedup_spec(v@.take(i as int)),
        decreases len - i,
    {
        let x = v[i];
        let mut found = false;
        let m = out.len();
        let mut j: usize = 0;
        while j < m
            invariant
                j <= m,
                m == out@.len(),
                found <==> exists|k: int| 0 <= k < j && out@[k] == x,
            decreases m - j,
        {
            if out[j] == x {
                found = true;
            }
            j += 1;
        }
        proof {
            assert(found == out@.contains(x));
            lemma_dedup_contains(v@.take(i as int), x);
            assert(v@.take(i + 1).drop_last() =~= v@.take(i as int));
            assert(v@.take(i + 1).last() == v@[i as int]);
        }
        if !found {
            out.push(x);
        }
        i += 1;
    }
    proof {
        assert(v@.take(len as int) =~= v@);
    }
    *v = out;
}

} // verus!
