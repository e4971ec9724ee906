//! Facts about orders on sequences: the items that pass a test, kept in
//! their order, and the uniqueness of a strictly rising arrangement.
use vstd::prelude::*;

verus! {

/// The items of `s` that pass `p`, in their order.
pub open spec fn keep<T>(s: Seq<T>, p: spec_fn(T) -> bool) -> Seq<T>
    decreases s.len(),
{
    if s.len() == 0 {
        Seq::empty()
    } else if p(s.last()) {
        keep(s.drop_last(), p).push(s.last())
    } else {
        keep(s.drop_last(), p)
    }
}

/// `s` rises strictly under `lt`: each item is below every later one.
pub open spec fn rising<T>(s: Seq<T>, lt: spec_fn(T, T) -> bool) -> bool {
    forall|i: int, j: int| 0 <= i < j < s.len() ==> #[trigger] lt(s[i], s[j])
}

/// `lt` is a strict order: irreflexive and transitive.
pub open spec fn strict_order<T>(lt: spec_fn(T, T) -> bool) -> bool {
    &&& forall|x: T| !#[trigger] lt(x, x)
    &&& forall|x: T, y: T, z: T| #[trigger] lt(x, y) && #[trigger] lt(y, z) ==> lt(x, z)
}

/// An item is kept exactly when it occurs and passes the test.
pub proof fn lemma_keep_contains<T>(s: Seq<T>, p: spec_fn(T) -> bool, x: T)
    ensures
        keep(s, p).contains(x) == (s.contains(x) && p(x)),
    decreases s.len(),
{
    if s.len() > 0 {
        let d = s.drop_last();
        lemma_keep_contains(d, p, x);
        if d.contains(x) {
            let k = choose|k: int| 0 <= k < d.len() && d[k] == x;
            assert(s[k] == x);
        }
        if s.contains(x) && x != s.last() {
            let k = choose|k: int| 0 <= k < s.len() && s[k] == x;
            assert(d[k] == x);
        }
        if p(s.last()) {
            let kd = keep(d, p);
            if kd.contains(x) {
                let k = choose|k: int| 0 <= k < kd.len() && kd[k] == x;
                assert(kd.push(s.last())[k] == x);
            }
            if kd.push(s.last()).contains(x) && x != s.last() {
                let k = choose|k: int| 0 <= k < kd.len() + 1 && kd.push(s.last())[k] == x;
                assert(kd[k] == x);
            }
            assert(kd.push(s.last())[kd.len() as int] == s.last());
        }
        assert(s[s.len() - 1] == s.last());
    }
}

/// A rising sequence keeps rising when items are left out.
pub proof fn lemma_keep_rising<T>(s: Seq<T>, p: spec_fn(T) -> bool, lt: spec_fn(T, T) -> bool)
    requires
        rising(s, lt),
    ensures
        rising(keep(s, p), lt),
    decreases s.len(),
{
    if s.len() > 0 {
        let d = s.drop_last();
        assert(rising(d, lt)) by {
            assert forall|i: int, j: int| 0 <= i < j < d.len() implies #[trigger] lt(d[i], d[j]) by {
                assert(lt(s[i], s[j]));
            }
        }
        lemma_keep_rising(d, p, lt);
        if p(s.last()) {
            let kd = keep(d, p);
            let k = kd.push(s.last());
            assert forall|i: int, j: int| 0 <= i < j < k.len() implies #[trigger] lt(k[i], k[j]) by {
                if j == kd.len() {
                    assert(kd.contains(kd[i]));
                    lemma_keep_contains(d, p, kd[i]);
                    let m = choose|m: int| 0 <= m < d.len() && d[m] == kd[i];
                    assert(lt(s[m], s[s.len() - 1]));
                } else {
                    assert(lt(kd[i], kd[j]));
                }
            }
        }
    }
}

/// Keeping commutes with mapping, when the two tests agree.
pub proof fn lemma_keep_map<T, U>(s: Seq<T>, h: spec_fn(T) -> U, p: spec_fn(T) -> bool, q: spec_fn(U) -> bool)
    requires
        forall|x: T| #[trigger] p(x) == q(h(x)),
    ensures
        keep(Seq::new(s.len(), |i: int| h(s[i])), q) == Seq::new(keep(s, p).len(), |i: int| h(keep(s, p)[i])),
    decreases s.len(),
{
    let m = Seq::new(s.len(), |i: int| h(s[i]));
    if s.len() > 0 {
        let d = s.drop_last();
        lemma_keep_map(d, h, p, q);
        assert(m.drop_last() =~= Seq::new(d.len(), |i: int| h(d[i])));
        assert(m.last() == h(s.last()));
        assert(p(s.last()) == q(h(s.last())));
        let kd = keep(d, p);
        if p(s.last()) {
            assert(Seq::new(kd.push(s.last()).len(), |i: int| h(kd.push(s.last())[i]))
                =~= Seq::new(kd.len(), |i: int| h(kd[i])).push(h(s.last())));
        }
    } else {
        assert(m =~= Seq::<U>::empty());
    }
}

/// Two sequences that rise under the same strict order and hold the same
/// items are equal.
pub proof fn lemma_rising_unique<T>(s: Seq<T>, t: Seq<T>, lt: spec_fn(T, T) -> bool)
    requires
        strict_order(lt),
        rising(s, lt),
        rising(t, lt),
        forall|x: T| s.contains(x) == t.contains(x),
    ensures
        s == t,
    decreases s.len() + t.len(),
{
    if s.len() == 0 || t.len() == 0 {
        if s.len() > 0 {
            assert(s.contains(s[0]));
        }
        if t.len() > 0 {
            assert(t.contains(t[0]));
        }
        assert(s =~= t);
    } else {
        let a = s.last();
        let b = t.last();
        assert(s.contains(a) && t.contains(b));
        let m = choose|m: int| 0 <= m < t.len() && t[m] == a;
        let k = choose|k: int| 0 <= k < s.len() && s[k] == b;
        if a != b {
            assert(m < t.len() - 1);
            assert(k < s.len() - 1);
            assert(lt(t[m], t[t.len() - 1]));
            assert(lt(s[k], s[s.len() - 1]));
            assert(lt(a, b) && lt(b, a));
            assert(lt(a, a));
        }
        let s1 = s.drop_last();
        let t1 = t.drop_last();
        assert(rising(s1, lt)) by {
            assert forall|i: int, j: int| 0 <= i < j < s1.len() implies #[trigger] lt(s1[i], s1[j]) by {
                assert(lt(s[i], s[j]));
            }
        }
        assert(rising(t1, lt)) by {
            assert forall|i: int, j: int| 0 <= i < j < t1.len() implies #[trigger] lt(t1[i], t1[j]) by {
                assert(lt(t[i], t[j]));
            }
        }
        assert forall|x: T| s1.contains(x) == t1.contains(x) by {
            if s1.contains(x) {
                let i = choose|i: int| 0 <= i < s1.len() && s1[i] == x;
                assert(s[i] == x);
                assert(lt(s[i], s[s.len() - 1]));
                assert(t.contains(x));
                let j = choose|j: int| 0 <= j < t.len() && t[j] == x;
                if j == t.len() - 1 {
                    assert(lt(x, x));
                }
                assert(t1[j] == x);
            }
            if t1.contains(x) {
                let i = choose|i: int| 0 <= i < t1.len() && t1[i] == x;
                assert(t[i] == x);
                assert(lt(t[i], t[t.len() - 1]));
                assert(s.contains(x));
                let j = choose|j: int| 0 <= j < s.len() && s[j] == x;
                if j == s.len() - 1 {
                    assert(lt(x, x));
                }
                assert(s1[j] == x);
            }
        }
        lemma_rising_unique(s1, t1, lt);
        assert(s =~= s1.push(a));
        assert(t =~= t1.push(b));
    }
}

} // verus!
