use vstd::prelude::*;
use crate::order::{key_eq, key_less, key_lt, lemma_key_less_strict, lemma_key_less_transitive};

verus! {

/// How one entry of a reconciliation pairs the two sides, by position.
#[derive(Clone, Copy, Debug, PartialEq, Eq, Structural)]
pub enum Pairing {
    /// The left entity at `left` has no counterpart on the right.
    Removed { left: usize },
    /// The left entity at `left` is matched by the right entity at `right`.
    Maintained { left: usize, right: usize },
    /// The right entity at `right` has no counterpart on the left.
    Added { right: usize },
}

/// The right position of an added pairing (-1 for the others).
pub open spec fn added_index(p: Pairing) -> int {
    match p {
        Pairing::Added { right } => right as int,
        _ => -1,
    }
}

/// The last position of `k` in `s`, or -1 where it does not occur.
pub open spec fn last_index(s: Seq<Seq<Seq<char>>>, k: Seq<Seq<char>>) -> int
    decreases s.len(),
{
    if s.len() == 0 {
        -1
    } else if s.last() == k {
        s.len() - 1
    } else {
        last_index(s.drop_last(), k)
    }
}

/// No position before `i` holds the key at `i`.
pub open spec fn first_occurrence(s: Seq<Seq<Seq<char>>>, i: int) -> bool {
    forall|j: int| 0 <= j < i ==> s[j] != s[i]
}

/// The pairing of the left entity at `i`: it is matched by the last right entity with
/// its key, unless that key occurs on the right nowhere or earlier on the left.
pub open spec fn left_pairing(lk: Seq<Seq<Seq<char>>>, rk: Seq<Seq<Seq<char>>>, i: int) -> Pairing {
    if first_occurrence(lk, i) && rk.contains(lk[i]) {
        Pairing::Maintained { left: i as usize, right: last_index(rk, lk[i]) as usize }
    } else {
        Pairing::Removed { left: i as usize }
    }
}

/// The right entity at `r` is reported as added: it is the last with its key on the
/// right, and the left holds no entity with that key.
pub open spec fn added_candidate(lk: Seq<Seq<Seq<char>>>, rk: Seq<Seq<Seq<char>>>, r: int) -> bool {
    0 <= r < rk.len() && last_index(rk, rk[r]) == r && !lk.contains(rk[r])
}

/// `p` reconciles the keys `lk` of the left entities with the keys `rk` of the right
/// ones: first one pairing per left entity in left order, then one added pairing per
/// key found only on the right, in ascending key order.
pub open spec fn is_reconciliation(
    lk: Seq<Seq<Seq<char>>>,
    rk: Seq<Seq<Seq<char>>>,
    p: Seq<Pairing>,
) -> bool {
    &&& lk.len() <= usize::MAX && rk.len() <= usize::MAX
    &&& lk.len() <= p.len()
    &&& forall|i: int| 0 <= i < lk.len() ==> p[i] == left_pairing(lk, rk, i)
    &&& forall|k: int|
        lk.len() <= k < p.len() ==> (p[k] is Added && added_candidate(
            lk,
            rk,
            added_index(p[k]),
        ))
    &&& forall|r: int|
        added_candidate(lk, rk, r) ==> exists|k: int|
            lk.len() <= k < p.len() && added_index(p[k]) == r
    &&& forall|k1: int, k2: int|
        lk.len() <= k1 < k2 < p.len() ==> key_less(
            rk[added_index(p[k1])],
            rk[added_index(p[k2])],
        )
}

/// The reconciliation of `lk` with `rk` (there is exactly one).
pub open spec fn reconciliation(lk: Seq<Seq<Seq<char>>>, rk: Seq<Seq<Seq<char>>>) -> Seq<Pairing> {
    choose|p: Seq<Pairing>| is_reconciliation(lk, rk, p)
}

/// Pairs each left entity whose key the right side holds with the last right entity of
/// that key, in left order; the others are left out.
pub open spec fn shared_pairs(lk: Seq<Seq<Seq<char>>>, rk: Seq<Seq<Seq<char>>>) -> Seq<Pairing>
    decreases lk.len(),
{
    if lk.len() == 0 {
        Seq::empty()
    } else {
        let i = lk.len() - 1;
        let rest = shared_pairs(lk.drop_last(), rk);
        if rk.contains(lk[i]) {
            rest.push(Pairing::Maintained { left: i as usize, right: last_index(rk, lk[i]) as usize })
        } else {
            rest
        }
    }
}

pub open spec fn strictly_sorted(s: Seq<Seq<Seq<char>>>) -> bool {
    forall|i: int, j: int| 0 <= i < j < s.len() ==> key_less(s[i], s[j])
}

pub proof fn lemma_last_index(s: Seq<Seq<Seq<char>>>, k: Seq<Seq<char>>)
    ensures
        -1 <= last_index(s, k) < s.len(),
        s.contains(k) <==> last_index(s, k) >= 0,
        last_index(s, k) >= 0 ==> s[last_index(s, k)] == k,
        forall|j: int| last_index(s, k) < j < s.len() ==> s[j] != k,
    decreases s.len(),
{
    if s.len() > 0 {
        lemma_last_index(s.drop_last(), k);
        assert forall|j: int| 0 <= j < s.len() - 1 implies s.drop_last()[j] == s[j] by {}
        if s.last() != k {
            if s.contains(k) {
                let j = choose|j: int| 0 <= j < s.len() && s[j] == k;
                assert(s.drop_last()[j] == k);
            }
            if s.drop_last().contains(k) {
                let j = choose|j: int| 0 <= j < s.drop_last().len() && s.drop_last()[j] == k;
                assert(s[j] == k);
            }
        } else {
            assert(s[s.len() - 1] == k);
        }
    }
}

/// Two strictly ascending sequences of keys that hold the same keys are equal.
pub proof fn lemma_sorted_unique(s1: Seq<Seq<Seq<char>>>, s2: Seq<Seq<Seq<char>>>)
    requires
        strictly_sorted(s1),
        strictly_sorted(s2),
        forall|x: Seq<Seq<char>>| s1.contains(x) <==> s2.contains(x),
    ensures
        s1 == s2,
    decreases s1.len(),
{
    if s1.len() == 0 {
        if s2.len() > 0 {
            assert(s2.contains(s2[0]));
        }
        assert(s1 =~= s2);
    } else if s2.len() == 0 {
        assert(s1.contains(s1[0]));
    } else {
        assert(s1.contains(s1[0]));
        assert(s2.contains(s2[0]));
        let i2 = choose|i: int| 0 <= i < s2.len() && s2[i] == s1[0];
        let i1 = choose|i: int| 0 <= i < s1.len() && s1[i] == s2[0];
        if s1[0] != s2[0] {
            assert(i1 > 0 && i2 > 0);
            assert(key_less(s1[0], s1[i1]));
            assert(key_less(s2[0], s2[i2]));
            lemma_key_less_strict(s1[0], s2[0]);
        }
        assert(s1[0] == s2[0]);
        let t1 = s1.drop_first();
        let t2 = s2.drop_first();
        assert forall|x: Seq<Seq<char>>| t1.contains(x) <==> t2.contains(x) by {
            if t1.contains(x) {
                let i = choose|i: int| 0 <= i < t1.len() && t1[i] == x;
                assert(s1[i + 1] == x);
                assert(s1.contains(x));
                assert(key_less(s1[0], s1[i + 1]));
                lemma_key_less_strict(s1[0], x);
                let j = choose|j: int| 0 <= j < s2.len() && s2[j] == x;
                if j == 0 {
                    assert(false);
                }
                assert(t2[j - 1] == x);
            }
            if t2.contains(x) {
                let i = choose|i: int| 0 <= i < t2.len() && t2[i] == x;
                assert(s2[i + 1] == x);
                assert(s2.contains(x));
                assert(key_less(s2[0], s2[i + 1]));
                lemma_key_less_strict(s2[0], x);
                let j = choose|j: int| 0 <= j < s1.len() && s1[j] == x;
                if j == 0 {
                    assert(false);
                }
                assert(t1[j - 1] == x);
            }
        }
        lemma_sorted_unique(t1, t2);
        assert(s1 =~= seq![s1[0]] + t1);
        assert(s2 =~= seq![s2[0]] + t2);
    }
}

/// The keys of the added part of `p`, in order.
pub open spec fn added_keys(
    lk: Seq<Seq<Seq<char>>>,
    rk: Seq<Seq<Seq<char>>>,
    p: Seq<Pairing>,
) -> Seq<Seq<Seq<char>>> {
    p.subrange(lk.len() as int, p.len() as int).map_values(|x: Pairing| rk[added_index(x)])
}

proof fn lemma_added_keys(lk: Seq<Seq<Seq<char>>>, rk: Seq<Seq<Seq<char>>>, p: Seq<Pairing>)
    requires
        is_reconciliation(lk, rk, p),
    ensures
        strictly_sorted(added_keys(lk, rk, p)),
        forall|x: Seq<Seq<char>>|
            added_keys(lk, rk, p).contains(x) <==> (rk.contains(x) && !lk.contains(x)),
{
    let a = added_keys(lk, rk, p);
    let n = lk.len() as int;
    assert forall|i: int, j: int| 0 <= i < j < a.len() implies key_less(a[i], a[j]) by {
        assert(a[i] == rk[added_index(p[i + n])]);
        assert(a[j] == rk[added_index(p[j + n])]);
    }
    assert forall|x: Seq<Seq<char>>| a.contains(x) <==> (rk.contains(x) && !lk.contains(x)) by {
        if a.contains(x) {
            let i = choose|i: int| 0 <= i < a.len() && a[i] == x;
            assert(p[i + n] is Added && added_candidate(lk, rk, added_index(p[i + n])));
        }
        if rk.contains(x) && !lk.contains(x) {
            lemma_last_index(rk, x);
            let r = last_index(rk, x);
            assert(added_candidate(lk, rk, r));
            let k = choose|k: int| n <= k < p.len() && added_index(p[k]) == r;
            assert(p.subrange(n, p.len() as int)[k - n] == p[k]);
            assert(a[k - n] == rk[added_index(p.subrange(n, p.len() as int)[k - n])]);
            assert(a[k - n] == x);
        }
    }
}

/// A reconciliation is unique: two runs over the same keys pair every entity alike
/// and order the entries alike.
pub proof fn law_reconciliation_unique(
    lk: Seq<Seq<Seq<char>>>,
    rk: Seq<Seq<Seq<char>>>,
    p1: Seq<Pairing>,
    p2: Seq<Pairing>,
)
    requires
        is_reconciliation(lk, rk, p1),
        is_reconciliation(lk, rk, p2),
    ensures
        p1 == p2,
{
    lemma_added_keys(lk, rk, p1);
    lemma_added_keys(lk, rk, p2);
    lemma_sorted_unique(added_keys(lk, rk, p1), added_keys(lk, rk, p2));
    let n = lk.len() as int;
    assert(p1.len() == p2.len()) by {
        assert(added_keys(lk, rk, p1).len() == p1.len() - n);
        assert(added_keys(lk, rk, p2).len() == p2.len() - n);
    }
    assert forall|k: int| 0 <= k < p1.len() implies p1[k] == p2[k] by {
        if k >= n {
            let r1 = added_index(p1[k]);
            let r2 = added_index(p2[k]);
            assert(added_keys(lk, rk, p1)[k - n] == rk[r1]);
            assert(added_keys(lk, rk, p2)[k - n] == rk[r2]);
        }
    }
    assert(p1 =~= p2);
}

/// The reconciliation of `lk` with `rk`, when `p` is one.
pub proof fn lemma_reconciliation_is(
    lk: Seq<Seq<Seq<char>>>,
    rk: Seq<Seq<Seq<char>>>,
    p: Seq<Pairing>,
)
    requires
        is_reconciliation(lk, rk, p),
    ensures
        reconciliation(lk, rk) == p,
{
    law_reconciliation_unique(lk, rk, p, reconciliation(lk, rk));
}

/// The key of the entity that a pairing reports.
pub open spec fn entry_key(
    lk: Seq<Seq<Seq<char>>>,
    rk: Seq<Seq<Seq<char>>>,
    p: Pairing,
) -> Seq<Seq<char>> {
    match p {
        Pairing::Removed { left } => lk[left as int],
        Pairing::Maintained { left, .. } => lk[left as int],
        Pairing::Added { right } => rk[right as int],
    }
}

/// Whether a pairing of that key is of the right kind: removed keys occur on the left
/// only, maintained keys on both sides, added keys on the right only.
pub open spec fn classified(lk: Seq<Seq<Seq<char>>>, rk: Seq<Seq<Seq<char>>>, p: Pairing) -> bool {
    let k = entry_key(lk, rk, p);
    match p {
        Pairing::Removed { .. } => lk.contains(k) && !rk.contains(k),
        Pairing::Maintained { .. } => lk.contains(k) && rk.contains(k),
        Pairing::Added { .. } => !lk.contains(k) && rk.contains(k),
    }
}

/// Partition completeness: where the left keys are distinct, a reconciliation has one
/// entry per key of either side and no other, removed for the keys of the left only,
/// maintained for those of both sides and added for those of the right only.
pub proof fn law_partition_complete(lk: Seq<Seq<Seq<char>>>, rk: Seq<Seq<Seq<char>>>)
    requires
        distinct_keys(lk),
        lk.len() <= usize::MAX,
        rk.len() <= usize::MAX,
    ensures
        ({
            let p = reconciliation(lk, rk);
            &&& forall|m: int| 0 <= m < p.len() ==> classified(lk, rk, #[trigger] p[m])
            &&& forall|k: Seq<Seq<char>>|
                lk.contains(k) || rk.contains(k) ==> exists|m: int|
                    0 <= m < p.len() && #[trigger] entry_key(lk, rk, p[m]) == k
            &&& forall|m1: int, m2: int|
                0 <= m1 < m2 < p.len() ==> entry_key(lk, rk, p[m1]) != entry_key(lk, rk, p[m2])
        }),
{
    law_reconciliation_exists(lk, rk);
    let p = reconciliation(lk, rk);
    lemma_partition(lk, rk, p);
}

proof fn lemma_partition(lk: Seq<Seq<Seq<char>>>, rk: Seq<Seq<Seq<char>>>, p: Seq<Pairing>)
    requires
        distinct_keys(lk),
        is_reconciliation(lk, rk, p),
    ensures
        forall|m: int| 0 <= m < p.len() ==> classified(lk, rk, #[trigger] p[m]),
        forall|k: Seq<Seq<char>>|
            lk.contains(k) || rk.contains(k) ==> exists|m: int|
                0 <= m < p.len() && #[trigger] entry_key(lk, rk, p[m]) == k,
        forall|m1: int, m2: int|
            0 <= m1 < m2 < p.len() ==> entry_key(lk, rk, p[m1]) != entry_key(lk, rk, p[m2]),
{
    let n = lk.len() as int;
    assert forall|m: int| 0 <= m < p.len() implies classified(lk, rk, #[trigger] p[m]) by {
        if m < n {
            assert(lk.contains(lk[m]));
            assert(first_occurrence(lk, m));
            lemma_last_index(rk, lk[m]);
        } else {
            let r = added_index(p[m]);
            assert(rk.contains(rk[r]));
        }
    }
    assert forall|k: Seq<Seq<char>>| lk.contains(k) || rk.contains(k) implies exists|m: int|
        0 <= m < p.len() && #[trigger] entry_key(lk, rk, p[m]) == k by {
        if lk.contains(k) {
            let i = choose|i: int| 0 <= i < lk.len() && lk[i] == k;
            assert(entry_key(lk, rk, p[i]) == k);
        } else {
            lemma_last_index(rk, k);
            let r = last_index(rk, k);
            assert(added_candidate(lk, rk, r));
            let m = choose|m: int| n <= m < p.len() && added_index(p[m]) == r;
            assert(entry_key(lk, rk, p[m]) == k);
        }
    }
    assert forall|m1: int, m2: int| 0 <= m1 < m2 < p.len() implies entry_key(lk, rk, p[m1])
        != entry_key(lk, rk, p[m2]) by {
        if m2 < n {
        } else if m1 < n {
            assert(lk.contains(lk[m1]));
            assert(added_candidate(lk, rk, added_index(p[m2])));
        } else {
            lemma_key_less_strict(entry_key(lk, rk, p[m1]), entry_key(lk, rk, p[m2]));
        }
    }
}

/// Two pairings of the same kind.
pub open spec fn same_kind(a: Pairing, b: Pairing) -> bool {
    (a is Removed && b is Removed) || (a is Maintained && b is Maintained) || (a is Added
        && b is Added)
}

/// Determinism: the entries of a reconciliation, their kinds, keys and order, depend on
/// the order of the left side and on the set of keys of the right side, not on the
/// order in which the right side lists them.
pub proof fn law_right_order_irrelevant(
    lk: Seq<Seq<Seq<char>>>,
    rk1: Seq<Seq<Seq<char>>>,
    rk2: Seq<Seq<Seq<char>>>,
)
    requires
        forall|k: Seq<Seq<char>>| rk1.contains(k) <==> rk2.contains(k),
        lk.len() <= usize::MAX,
        rk1.len() <= usize::MAX,
        rk2.len() <= usize::MAX,
    ensures
        reconciliation(lk, rk1).len() == reconciliation(lk, rk2).len(),
        forall|m: int|
            0 <= m < reconciliation(lk, rk1).len() ==> same_kind(
                reconciliation(lk, rk1)[m],
                reconciliation(lk, rk2)[m],
            ) && entry_key(lk, rk1, reconciliation(lk, rk1)[m]) == entry_key(
                lk,
                rk2,
                reconciliation(lk, rk2)[m],
            ),
{
    law_reconciliation_exists(lk, rk1);
    law_reconciliation_exists(lk, rk2);
    let p1 = reconciliation(lk, rk1);
    let p2 = reconciliation(lk, rk2);
    lemma_added_keys(lk, rk1, p1);
    lemma_added_keys(lk, rk2, p2);
    lemma_sorted_unique(added_keys(lk, rk1, p1), added_keys(lk, rk2, p2));
    let n = lk.len() as int;
    assert(p1.len() == p2.len()) by {
        assert(added_keys(lk, rk1, p1).len() == p1.len() - n);
        assert(added_keys(lk, rk2, p2).len() == p2.len() - n);
    }
    assert forall|m: int| 0 <= m < p1.len() implies same_kind(p1[m], p2[m]) && entry_key(
        lk,
        rk1,
        p1[m],
    ) == entry_key(lk, rk2, p2[m]) by {
        if m >= n {
            assert(added_keys(lk, rk1, p1)[m - n] == entry_key(lk, rk1, p1[m]));
            assert(added_keys(lk, rk2, p2)[m - n] == entry_key(lk, rk2, p2[m]));
        }
    }
}

/// The positions of a pairing lie within both sides, and a maintained pairing joins
/// two entities of one key.
pub open spec fn pairing_in_bounds(
    lk: Seq<Seq<Seq<char>>>,
    rk: Seq<Seq<Seq<char>>>,
    p: Pairing,
) -> bool {
    match p {
        Pairing::Removed { left } => left < lk.len(),
        Pairing::Maintained { left, right } => left < lk.len()
            && right < rk.len()
            && rk[right as int]
            == lk[left as int],
        Pairing::Added { right } => right < rk.len(),
    }
}

pub proof fn lemma_plan_bounds(lk: Seq<Seq<Seq<char>>>, rk: Seq<Seq<Seq<char>>>, p: Seq<Pairing>)
    requires
        is_reconciliation(lk, rk, p),
    ensures
        forall|m: int| 0 <= m < p.len() ==> pairing_in_bounds(lk, rk, #[trigger] p[m]),
{
    assert forall|m: int| 0 <= m < p.len() implies pairing_in_bounds(lk, rk, #[trigger] p[m]) by {
        if m < lk.len() {
            lemma_last_index(rk, lk[m]);
        }
    }
}

pub proof fn lemma_shared_bounds(lk: Seq<Seq<Seq<char>>>, rk: Seq<Seq<Seq<char>>>)
    requires
        lk.len() <= usize::MAX,
        rk.len() <= usize::MAX,
    ensures
        forall|m: int|
            0 <= m < shared_pairs(
                lk,
                rk,
            ).len() ==> (#[trigger] shared_pairs(lk, rk)[m] is Maintained
                && pairing_in_bounds(lk, rk, shared_pairs(lk, rk)[m])),
    decreases lk.len(),
{
    if lk.len() > 0 {
        let i = lk.len() - 1;
        lemma_shared_bounds(lk.drop_last(), rk);
        lemma_last_index(rk, lk[i]);
        let rest = shared_pairs(lk.drop_last(), rk);
        assert forall|m: int| 0 <= m < rest.len() implies pairing_in_bounds(lk, rk, rest[m]) by {
            assert(pairing_in_bounds(lk.drop_last(), rk, rest[m]));
            match rest[m] {
                Pairing::Maintained { left, .. } => {
                    assert(lk.drop_last()[left as int] == lk[left as int]);
                },
                _ => {},
            }
        }
    }
}

/// No key occurs twice in `k`.
pub open spec fn distinct_keys(k: Seq<Seq<Seq<char>>>) -> bool {
    forall|i: int, j: int| 0 <= i < j < k.len() ==> k[i] != k[j]
}

/// Every entity of a side paired with itself, in order.
pub open spec fn identity_plan(n: nat) -> Seq<Pairing> {
    Seq::new(n, |i: int| Pairing::Maintained { left: i as usize, right: i as usize })
}

/// Reconciling a side whose keys are distinct with itself maintains every entity, in
/// order, and reports nothing removed or added.
pub proof fn law_reconcile_with_itself(k: Seq<Seq<Seq<char>>>)
    requires
        distinct_keys(k),
        k.len() <= usize::MAX,
    ensures
        reconciliation(k, k) == identity_plan(k.len()),
{
    let p = identity_plan(k.len());
    assert forall|i: int| 0 <= i < k.len() implies p[i] == left_pairing(k, k, i) by {
        lemma_last_index(k, k[i]);
        assert(k.contains(k[i]));
        let li = last_index(k, k[i]);
        if li != i {
            if li < i {
                assert(k[i] != k[i]);
            } else {
                assert(k[i] != k[li]);
            }
        }
    }
    assert forall|r: int| !added_candidate(k, k, r) by {
        if 0 <= r < k.len() {
            assert(k.contains(k[r]));
        }
    }
    assert(is_reconciliation(k, k, p));
    lemma_reconciliation_is(k, k, p);
}

/// The first position at or after `i` in `s` whose key comes after `key`.
spec fn first_after(rk: Seq<Seq<Seq<char>>>, s: Seq<int>, key: Seq<Seq<char>>, i: int) -> int
    decreases s.len() - i,
{
    if i >= s.len() {
        s.len() as int
    } else if key_less(key, rk[s[i]]) {
        i
    } else {
        first_after(rk, s, key, i + 1)
    }
}

proof fn lemma_first_after(rk: Seq<Seq<Seq<char>>>, s: Seq<int>, key: Seq<Seq<char>>, i: int)
    requires
        0 <= i <= s.len(),
    ensures
        i <= first_after(rk, s, key, i) <= s.len(),
        forall|k: int| i <= k < first_after(rk, s, key, i) ==> !key_less(key, rk[s[k]]),
        first_after(rk, s, key, i) < s.len() ==> key_less(key, rk[s[first_after(rk, s, key, i)]]),
    decreases s.len() - i,
{
    if i < s.len() && !key_less(key, rk[s[i]]) {
        lemma_first_after(rk, s, key, i + 1);
    }
}

/// The positions of the keys found only on the right, among the first `n` right ones,
/// can be listed once each in strictly ascending key order.
proof fn lemma_added_order(
    lk: Seq<Seq<Seq<char>>>,
    rk: Seq<Seq<Seq<char>>>,
    n: int,
) -> (s: Seq<int>)
    requires
        0 <= n <= rk.len(),
    ensures
        forall|k: int| 0 <= k < s.len() ==> added_candidate(lk, rk, #[trigger] s[k]) && s[k] < n,
        forall|r: int| 0 <= r < n && added_candidate(lk, rk, r) ==> s.contains(r),
        forall|k1: int, k2: int| 0 <= k1 < k2 < s.len() ==> key_less(rk[s[k1]], rk[s[k2]]),
    decreases n,
{
    if n == 0 {
        Seq::empty()
    } else {
        let s = lemma_added_order(lk, rk, n - 1);
        let x = n - 1;
        if !added_candidate(lk, rk, x) {
            s
        } else {
            let key = rk[x];
            lemma_first_after(rk, s, key, 0);
            let pos = first_after(rk, s, key, 0);
            assert forall|k: int| 0 <= k < s.len() implies rk[s[k]] != key by {
                assert(added_candidate(lk, rk, s[k]));
            }
            assert forall|k: int| 0 <= k < pos implies key_less(rk[s[k]], key) by {
                lemma_key_less_strict(rk[s[k]], key);
            }
            assert forall|k: int| pos <= k < s.len() implies key_less(key, rk[s[k]]) by {
                if k > pos {
                    lemma_key_less_transitive(key, rk[s[pos]], rk[s[k]]);
                }
            }
            let t = s.insert(pos, x);
            assert forall|k: int| 0 <= k < t.len() implies added_candidate(
                lk,
                rk,
                #[trigger] t[k],
            ) && t[k] < n by {
                if k < pos {
                    assert(t[k] == s[k]);
                } else if k > pos {
                    assert(t[k] == s[k - 1]);
                }
            }
            assert forall|r: int| 0 <= r < n && added_candidate(
                lk,
                rk,
                r,
            ) implies t.contains(r) by {
                if r == x {
                    assert(t[pos] == x);
                } else {
                    assert(s.contains(r));
                    let k = choose|k: int| 0 <= k < s.len() && s[k] == r;
                    if k < pos {
                        assert(t[k] == r);
                    } else {
                        assert(t[k + 1] == r);
                    }
                }
            }
            assert forall|a: int, b: int| 0 <= a < b < t.len() implies key_less(
                rk[t[a]],
                rk[t[b]],
            ) by {
                if b < pos {
                    assert(t[a] == s[a] && t[b] == s[b]);
                } else if b == pos {
                    assert(t[a] == s[a]);
                } else if a < pos {
                    assert(t[a] == s[a] && t[b] == s[b - 1]);
                } else if a == pos {
                    assert(t[b] == s[b - 1]);
                } else {
                    assert(t[a] == s[a - 1] && t[b] == s[b - 1]);
                }
            }
            t
        }
    }
}

/// Any two sides whose lengths fit a `usize` have a reconciliation.
pub proof fn law_reconciliation_exists(lk: Seq<Seq<Seq<char>>>, rk: Seq<Seq<Seq<char>>>)
    requires
        lk.len() <= usize::MAX,
        rk.len() <= usize::MAX,
    ensures
        is_reconciliation(lk, rk, reconciliation(lk, rk)),
{
    let s = lemma_added_order(lk, rk, rk.len() as int);
    let n = lk.len() as int;
    let p = Seq::new(lk.len(), |i: int| left_pairing(lk, rk, i)) + s.map_values(
        |r: int| Pairing::Added { right: r as usize },
    );
    assert forall|k: int| n <= k < p.len() implies p[k] == (Pairing::Added { right: s[k - n] as usize })
        && added_index(p[k]) == s[k - n] by {
        assert(added_candidate(lk, rk, s[k - n]));
    }
    assert forall|r: int| added_candidate(lk, rk, r) implies exists|k: int|
        n <= k < p.len() && added_index(p[k]) == r by {
        assert(s.contains(r));
        let j = choose|j: int| 0 <= j < s.len() && s[j] == r;
        assert(added_index(p[n + j]) == r);
    }
    assert(is_reconciliation(lk, rk, p));
}

/// Whether the key at `i` occurs earlier in `keys`.
fn occurs_before(keys: &Vec<Vec<String>>, i: usize) -> (r: bool)
    requires
        i < keys.len(),
    ensures
        r == !first_occurrence(keys.deep_view(), i as int),
{
    let mut j: usize = 0;
    while j < i
        invariant
            i < keys.len(),
            0 <= j <= i,
            forall|k: int| 0 <= k < j ==> keys.deep_view()[k] != keys.deep_view()[i as int],
        decreases i - j,
    {
        if key_eq(&keys[j], &keys[i]) {
            assert(keys.deep_view()[j as int] == keys[j as int].deep_view());
            assert(keys.deep_view()[i as int] == keys[i as int].deep_view());
            return true;
        }
        j = j + 1;
    }
    false
}

/// The last position of `key` in `keys`, if any.
fn find_last(keys: &Vec<Vec<String>>, key: &Vec<String>) -> (r: Option<usize>)
    ensures
        match r {
            Some(j) => j == last_index(keys.deep_view(), key.deep_view()),
            None => last_index(keys.deep_view(), key.deep_view()) == -1,
        },
{
    let ghost s = keys.deep_view();
    let ghost k = key.deep_view();
    proof {
        lemma_last_index(s, k);
    }
    let mut j: usize = keys.len();
    while j > 0
        invariant
            0 <= j <= keys.len(),
            s == keys.deep_view(),
            k == key.deep_view(),
            forall|m: int| j <= m < s.len() ==> s[m] != k,
        decreases j,
    {
        assert(s[j - 1] == keys[j - 1].deep_view());
        proof {
            lemma_last_index(s, k);
        }
        if key_eq(&keys[j - 1], key) {
            proof {
                assert(s[j - 1] == k);
                assert(s.contains(k));
                if last_index(s, k) != j - 1 {
                    assert(s[last_index(s, k)] == k);
                }
            }
            return Some(j - 1);
        }
        j = j - 1;
    }
    proof {
        if last_index(s, k) >= 0 {
            assert(s[last_index(s, k)] == k);
        }
    }
    None
}

/// The positions of `items`, reordered by ascending key.
fn sort_by_key(items: &Vec<usize>, keys: &Vec<Vec<String>>) -> (r: Vec<usize>)
    requires
        forall|i: int| 0 <= i < items.len() ==> items[i] < keys.len(),
        forall|i: int, j: int|
            0 <= i < j < items.len() ==> keys.deep_view()[items[i] as int] != keys.deep_view()[items[j] as int],
    ensures
        forall|i: int| 0 <= i < r.len() ==> r[i] < keys.len(),
        forall|x: usize| r@.contains(x) <==> items@.contains(x),
        forall|i: int, j: int|
            0 <= i < j < r.len() ==> key_less(
                keys.deep_view()[r[i] as int],
                keys.deep_view()[r[j] as int],
            ),
{
    let ghost ks = keys.deep_view();
    let mut out: Vec<usize> = Vec::new();
    let mut i: usize = 0;
    while i < items.len()
        invariant
            0 <= i <= items.len(),
            ks == keys.deep_view(),
            forall|m: int| 0 <= m < items.len() ==> items[m] < keys.len(),
            forall|a: int, b: int|
                0 <= a < b < items.len() ==> ks[items[a] as int] != ks[items[b] as int],
            forall|m: int| 0 <= m < out.len() ==> out[m] < keys.len(),
            forall|x: usize| out@.contains(x) <==> items@.take(i as int).contains(x),
            forall|a: int, b: int| 0 <= a < b < out.len() ==> key_less(
                ks[out[a] as int],
                ks[out[b] as int],
            ),
        decreases items.len() - i,
    {
        let x = items[i];
        let mut p: usize = 0;
        while p < out.len() && !key_lt(&keys[x], &keys[out[p]])
            invariant
                0 <= p <= out.len(),
                x < keys.len(),
                ks == keys.deep_view(),
                forall|m: int| 0 <= m < out.len() ==> out[m] < keys.len(),
                forall|m: int| 0 <= m < p ==> !key_less(ks[x as int], ks[out[m] as int]),
            decreases out.len() - p,
        {
            p = p + 1;
        }
        proof {
            assert forall|m: int| 0 <= m < out.len() implies ks[out[m] as int] != ks[x as int] by {
                assert(out@.contains(out[m]));
                assert(items@.take(i as int).contains(out[m]));
                let a = choose|a: int| 0 <= a < i && items@.take(i as int)[a] == out[m];
                assert(items[a] == out[m]);
            }
            assert forall|m: int| 0 <= m < p implies key_less(ks[out[m] as int], ks[x as int]) by {
                lemma_key_less_strict(ks[out[m] as int], ks[x as int]);
            }
            assert forall|m: int| p <= m < out.len() implies key_less(
                ks[x as int],
                ks[out[m] as int],
            ) by {
                if m > p {
                    lemma_key_less_transitive(
                        ks[x as int],
                        ks[out[p as int] as int],
                        ks[out[m] as int],
                    );
                }
            }
        }
        let ghost old_out = out@;
        out.insert(p, x);
        proof {
            assert(out@ == old_out.insert(p as int, x));
            assert forall|m: int| 0 <= m < out.len() implies out[m] < keys.len() by {
                if m > p {
                    assert(out[m] == old_out[m - 1]);
                }
            }
            assert(items@.take(i + 1) =~= items@.take(i as int).push(x));
            assert forall|y: usize| out@.contains(y) <==> items@.take(i + 1).contains(y) by {
                if out@.contains(y) {
                    let m = choose|m: int| 0 <= m < out.len() && out[m] == y;
                    if m < p {
                        assert(old_out[m] == y);
                    } else if m > p {
                        assert(old_out[m - 1] == y);
                    }
                    if y != x {
                        assert(old_out.contains(y));
                        assert(items@.take(i as int).contains(y));
                        let a = choose|a: int| 0 <= a < i && items@.take(i as int)[a] == y;
                        assert(items@.take(i + 1)[a] == y);
                    } else {
                        assert(items@.take(i + 1)[i as int] == y);
                    }
                }
                if items@.take(i + 1).contains(y) {
                    if y == x {
                        assert(out[p as int] == y);
                    } else {
                        let a = choose|a: int| 0 <= a <= i && #[trigger] items@.take(i + 1)[a] == y;
                        assert(items@.take(i as int)[a] == y);
                        assert(old_out.contains(y));
                        let m = choose|m: int| 0 <= m < old_out.len() && old_out[m] == y;
                        if m < p {
                            assert(out[m] == y);
                        } else {
                            assert(out[m + 1] == y);
                        }
                    }
                }
            }
            assert forall|a: int, b: int| 0 <= a < b < out.len() implies key_less(
                ks[out[a] as int],
                ks[out[b] as int],
            ) by {
                if b < p {
                    assert(out[a] == old_out[a] && out[b] == old_out[b]);
                } else if b == p {
                    assert(out[a] == old_out[a]);
                } else if a < p {
                    assert(out[a] == old_out[a] && out[b] == old_out[b - 1]);
                } else if a == p {
                    assert(out[b] == old_out[b - 1]);
                } else {
                    assert(out[a] == old_out[a - 1] && out[b] == old_out[b - 1]);
                }
            }
        }
        i = i + 1;
    }
    assert(items@.take(items.len() as int) =~= items@);
    out
}

/// Reconciles the keys of the left entities with those of the right ones.
pub fn reconcile(left: &Vec<Vec<String>>, right: &Vec<Vec<String>>) -> (plan: Vec<Pairing>)
    ensures
        is_reconciliation(left.deep_view(), right.deep_view(), plan@),
        plan@ == reconciliation(left.deep_view(), right.deep_view()),
{
    let ghost lk = left.deep_view();
    let ghost rk = right.deep_view();
    let mut plan: Vec<Pairing> = Vec::new();
    let mut i: usize = 0;
    while i < left.len()
        invariant
            0 <= i <= left.len(),
            lk == left.deep_view(),
            rk == right.deep_view(),
            plan.len() == i,
            forall|m: int| 0 <= m < i ==> plan[m] == left_pairing(lk, rk, m),
        decreases left.len() - i,
    {
        proof {
            lemma_last_index(rk, lk[i as int]);
        }
        let found = find_last(right, &left[i]);
        if occurs_before(left, i) {
            plan.push(Pairing::Removed { left: i });
        } else {
            match found {
                Some(j) => {
                    plan.push(Pairing::Maintained { left: i, right: j });
                },
                None => {
                    plan.push(Pairing::Removed { left: i });
                },
            }
        }
        i = i + 1;
    }
    let mut candidates: Vec<usize> = Vec::new();
    let mut r: usize = 0;
    while r < right.len()
        invariant
            0 <= r <= right.len(),
            lk == left.deep_view(),
            rk == right.deep_view(),
            forall|m: int| 0 <= m < candidates.len() ==> added_candidate(
                lk,
                rk,
                candidates[m] as int,
            ),
            forall|m: int| 0 <= m < candidates.len() ==> candidates[m] < r,
            forall|a: int, b: int| 0 <= a < b < candidates.len() ==> candidates[a] < candidates[b],
            forall|x: int| 0 <= x < r && added_candidate(
                lk,
                rk,
                x,
            ) ==> candidates@.contains(x as usize),
        decreases right.len() - r,
    {
        let last = find_last(right, &right[r]);
        let on_left = find_last(left, &right[r]);
        proof {
            lemma_last_index(lk, rk[r as int]);
            lemma_last_index(rk, rk[r as int]);
        }
        let ghost before = candidates@;
        assert(rk[r as int] == right[r as int].deep_view());
        if last == Some(r) && on_left.is_none() {
            candidates.push(r);
        }
        proof {
            assert forall|x: int| 0 <= x < r + 1 && added_candidate(
                lk,
                rk,
                x,
            ) implies candidates@.contains(
                x as usize,
            ) by {
                if x == r {
                    assert(candidates[candidates.len() - 1] == r);
                } else {
                    assert(before.contains(x as usize));
                    let m = choose|m: int| 0 <= m < before.len() && before[m] == x as usize;
                    assert(candidates[m] == x as usize);
                }
            }
        }
        r = r + 1;
    }
    proof {
        assert forall|a: int, b: int| 0 <= a < b < candidates.len() implies rk[candidates[a] as int]
            != rk[candidates[b] as int] by {
            if rk[candidates[a] as int] == rk[candidates[b] as int] {
                assert(added_candidate(lk, rk, candidates[a] as int));
                assert(added_candidate(lk, rk, candidates[b] as int));
            }
        }
    }
    let sorted = sort_by_key(&candidates, right);
    let n = plan.len();
    let mut k: usize = 0;
    while k < sorted.len()
        invariant
            0 <= k <= sorted.len(),
            n == left.len(),
            lk == left.deep_view(),
            rk == right.deep_view(),
            plan.len() == n + k,
            forall|m: int| 0 <= m < n ==> plan[m] == left_pairing(lk, rk, m),
            forall|m: int| 0 <= m < k ==> plan[n + m] == (Pairing::Added { right: sorted[m] }),
        decreases sorted.len() - k,
    {
        plan.push(Pairing::Added { right: sorted[k] });
        k = k + 1;
    }
    proof {
        assert forall|m: int| lk.len() <= m < plan.len() implies (plan[m] is Added && added_candidate(
            lk,
            rk,
            added_index(plan[m]),
        )) by {
            assert(candidates@.contains(sorted[m - n]));
        }
        assert forall|x: int| added_candidate(lk, rk, x) implies exists|m: int|
            lk.len() <= m < plan.len() && added_index(plan[m]) == x by {
            assert(candidates@.contains(x as usize));
            assert(sorted@.contains(x as usize));
            let m = choose|m: int| 0 <= m < sorted.len() && sorted[m] == x as usize;
            assert(plan[n + m] == Pairing::Added { right: x as usize });
        }
        assert forall|k1: int, k2: int| lk.len() <= k1 < k2 < plan.len() implies key_less(
            rk[added_index(plan[k1])],
            rk[added_index(plan[k2])],
        ) by {
            assert(plan[k1] == Pairing::Added { right: sorted[k1 - n] });
            assert(plan[k2] == Pairing::Added { right: sorted[k2 - n] });
        }
        lemma_reconciliation_is(lk, rk, plan@);
    }
    plan
}

/// Pairs the left entities whose key the right side holds with their counterparts.
pub fn pair_shared(left: &Vec<Vec<String>>, right: &Vec<Vec<String>>) -> (pairs: Vec<Pairing>)
    ensures
        pairs@ == shared_pairs(left.deep_view(), right.deep_view()),
{
    let ghost lk = left.deep_view();
    let ghost rk = right.deep_view();
    let mut pairs: Vec<Pairing> = Vec::new();
    let mut i: usize = 0;
    while i < left.len()
        invariant
            0 <= i <= left.len(),
            lk == left.deep_view(),
            rk == right.deep_view(),
            pairs@ == shared_pairs(lk.take(i as int), rk),
        decreases left.len() - i,
    {
        proof {
            lemma_last_index(rk, lk[i as int]);
            assert(lk.take(i + 1).drop_last() =~= lk.take(i as int));
            assert(lk.take(i + 1)[i as int] == lk[i as int]);
        }
        match find_last(right, &left[i]) {
            Some(j) => {
                pairs.push(Pairing::Maintained { left: i, right: j });
            },
            None => {},
        }
        i = i + 1;
    }
    assert(lk.take(left.len() as int) =~= lk);
    pairs
}

} // verus!
