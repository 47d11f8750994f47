//! Stable sorting by a key.
//!
//! A key is a sequence of numbers, and keys are compared like words in a
//! dictionary. Elements with the same key keep the order they came in.

use vstd::prelude::*;

verus! {

/// Key `a` comes strictly before key `b`.
pub open spec fn precedes(a: Seq<u32>, b: Seq<u32>) -> bool
    decreases a.len(),
{
    if b.len() == 0 {
        false
    } else if a.len() == 0 {
        true
    } else if a[0] != b[0] {
        a[0] < b[0]
    } else {
        precedes(a.drop_first(), b.drop_first())
    }
}

/// `s` with `x` put behind every element that `x` does not precede.
pub open spec fn insert_stable<T>(s: Seq<T>, x: T, key: spec_fn(T) -> Seq<u32>) -> Seq<T>
    decreases s.len(),
{
    if s.len() > 0 && precedes(key(x), key(s.last())) {
        insert_stable(s.drop_last(), x, key).push(s.last())
    } else {
        s.push(x)
    }
}

/// The elements of `s` in the order of their keys, equal keys in the order of `s`.
pub open spec fn stable_sort<T>(s: Seq<T>, key: spec_fn(T) -> Seq<u32>) -> Seq<T>
    decreases s.len(),
{
    if s.len() == 0 {
        s
    } else {
        insert_stable(stable_sort(s.drop_last(), key), s.last(), key)
    }
}

/// No element stands before one whose key precedes its own.
pub open spec fn in_order<T>(s: Seq<T>, key: spec_fn(T) -> Seq<u32>) -> bool {
    forall|i: int, j: int| 0 <= i < j < s.len() ==> !precedes(key(#[trigger] s[j]), key(#[trigger] s[i]))
}

pub proof fn lemma_precedes_not_self(a: Seq<u32>)
    ensures
        !precedes(a, a),
    decreases a.len(),
{
    if a.len() > 0 {
        lemma_precedes_not_self(a.drop_first());
    }
}

pub proof fn lemma_precedes_asymmetric(a: Seq<u32>, b: Seq<u32>)
    requires
        precedes(a, b),
    ensures
        !precedes(b, a),
    decreases a.len(),
{
    if a.len() > 0 && a[0] == b[0] {
        lemma_precedes_asymmetric(a.drop_first(), b.drop_first());
    }
}

/// What is not preceded by a key is not preceded by what that key does not precede.
pub proof fn lemma_not_precedes_transitive(a: Seq<u32>, b: Seq<u32>, c: Seq<u32>)
    requires
        !precedes(b, a),
        !precedes(c, b),
    ensures
        !precedes(c, a),
    decreases a.len(),
{
    if a.len() > 0 && b.len() > 0 && c.len() > 0 && a[0] == b[0] && b[0] == c[0] {
        lemma_not_precedes_transitive(a.drop_first(), b.drop_first(), c.drop_first());
    }
}

pub proof fn lemma_insert_stable<T>(s: Seq<T>, x: T, key: spec_fn(T) -> Seq<u32>)
    ensures
        insert_stable(s, x, key).to_multiset() == s.to_multiset().insert(x),
        insert_stable(s, x, key).len() == s.len() + 1,
        in_order(s, key) ==> in_order(insert_stable(s, x, key), key),
    decreases s.len(),
{
    broadcast use vstd::seq_lib::group_to_multiset_ensures;

    let out = insert_stable(s, x, key);
    if s.len() > 0 && precedes(key(x), key(s.last())) {
        let front = s.drop_last();
        lemma_insert_stable(front, x, key);
        assert(s =~= front.push(s.last()));
        assert(out.to_multiset() =~= s.to_multiset().insert(x));
        if in_order(s, key) {
            let inner = insert_stable(front, x, key);
            assert(in_order(front, key));
            assert forall|i: int, j: int| 0 <= i < j < out.len() implies !precedes(
                key(#[trigger] out[j]),
                key(#[trigger] out[i]),
            ) by {
                if j == out.len() - 1 {
                    assert(inner.to_multiset().contains(inner[i]));
                    assert(front.to_multiset().insert(x).contains(inner[i]));
                    if inner[i] == x {
                        lemma_precedes_asymmetric(key(x), key(s.last()));
                    } else {
                        assert(front.to_multiset().contains(inner[i]));
                        assert(front.contains(inner[i]));
                        let k = choose|k: int| 0 <= k < front.len() && front[k] == inner[i];
                        assert(s[k] == inner[i]);
                    }
                } else {
                    assert(out[j] == inner[j] && out[i] == inner[i]);
                }
            }
        }
    } else {
        assert(out.to_multiset() =~= s.to_multiset().insert(x));
        if in_order(s, key) {
            assert forall|i: int, j: int| 0 <= i < j < out.len() implies !precedes(
                key(#[trigger] out[j]),
                key(#[trigger] out[i]),
            ) by {
                if j == s.len() {
                    if i < s.len() - 1 {
                        assert(!precedes(key(s[s.len() - 1]), key(s[i])));
                        lemma_not_precedes_transitive(key(s[i]), key(s.last()), key(x));
                    }
                } else {
                    assert(out[j] == s[j] && out[i] == s[i]);
                }
            }
        }
    }
}

/// Sorting keeps every element, as often as it occurs, and puts the keys in order.
pub proof fn law_sort_permutes_and_orders<T>(s: Seq<T>, key: spec_fn(T) -> Seq<u32>)
    ensures
        stable_sort(s, key).to_multiset() == s.to_multiset(),
        stable_sort(s, key).len() == s.len(),
        in_order(stable_sort(s, key), key),
    decreases s.len(),
{
    broadcast use vstd::seq_lib::group_to_multiset_ensures;

    if s.len() > 0 {
        let front = s.drop_last();
        law_sort_permutes_and_orders(front, key);
        lemma_insert_stable(stable_sort(front, key), s.last(), key);
        assert(s =~= front.push(s.last()));
    }
}

/// The elements whose key is `k`, in the order they stand in.
pub open spec fn with_key<T>(s: Seq<T>, key: spec_fn(T) -> Seq<u32>, k: Seq<u32>) -> Seq<T>
    decreases s.len(),
{
    if s.len() == 0 {
        s
    } else if key(s.last()) == k {
        with_key(s.drop_last(), key, k).push(s.last())
    } else {
        with_key(s.drop_last(), key, k)
    }
}

proof fn lemma_insert_keeps_equals<T>(s: Seq<T>, x: T, key: spec_fn(T) -> Seq<u32>, k: Seq<u32>)
    ensures
        with_key(insert_stable(s, x, key), key, k) == (if key(x) == k {
            with_key(s, key, k).push(x)
        } else {
            with_key(s, key, k)
        }),
    decreases s.len(),
{
    let out = insert_stable(s, x, key);
    if s.len() > 0 && precedes(key(x), key(s.last())) {
        let inner = insert_stable(s.drop_last(), x, key);
        lemma_insert_keeps_equals(s.drop_last(), x, key, k);
        assert(out.drop_last() =~= inner);
        lemma_precedes_not_self(k);
    } else {
        assert(out.drop_last() =~= s);
    }
}

/// Elements with the same key keep their order.
pub proof fn law_sort_is_stable<T>(s: Seq<T>, key: spec_fn(T) -> Seq<u32>, k: Seq<u32>)
    ensures
        with_key(stable_sort(s, key), key, k) == with_key(s, key, k),
    decreases s.len(),
{
    if s.len() > 0 {
        law_sort_is_stable(s.drop_last(), key, k);
        lemma_insert_keeps_equals(stable_sort(s.drop_last(), key), s.last(), key, k);
    }
}

/// Sorting what is in order already changes nothing.
pub proof fn law_sort_of_sorted<T>(s: Seq<T>, key: spec_fn(T) -> Seq<u32>)
    requires
        in_order(s, key),
    ensures
        stable_sort(s, key) == s,
    decreases s.len(),
{
    if s.len() > 0 {
        let front = s.drop_last();
        assert(in_order(front, key));
        law_sort_of_sorted(front, key);
        if front.len() > 0 {
            assert(!precedes(key(s[s.len() - 1]), key(s[front.len() - 1])));
        }
        assert(front.push(s.last()) =~= s);
    }
}

/// Keys that do not precede each other are the same.
proof fn lemma_precedes_total(a: Seq<u32>, b: Seq<u32>)
    requires
        !precedes(a, b),
        !precedes(b, a),
    ensures
        a == b,
    decreases a.len(),
{
    if a.len() > 0 && b.len() > 0 {
        lemma_precedes_total(a.drop_first(), b.drop_first());
        assert(a =~= seq![a[0]] + a.drop_first());
        assert(b =~= seq![b[0]] + b.drop_first());
    } else {
        assert(a =~= b);
    }
}

proof fn lemma_with_key_append<T>(s: Seq<T>, t: Seq<T>, key: spec_fn(T) -> Seq<u32>, k: Seq<u32>)
    ensures
        with_key(s + t, key, k) == with_key(s, key, k) + with_key(t, key, k),
    decreases t.len(),
{
    if t.len() > 0 {
        lemma_with_key_append(s, t.drop_last(), key, k);
        assert((s + t).drop_last() =~= s + t.drop_last());
        assert(with_key(s + t, key, k) =~= with_key(s, key, k) + with_key(t, key, k));
    } else {
        assert(s + t =~= s);
        assert(with_key(s, key, k) + with_key(t, key, k) =~= with_key(s, key, k));
    }
}

/// What has a key is found under it.
proof fn lemma_with_key_finds<T>(s: Seq<T>, key: spec_fn(T) -> Seq<u32>, k: Seq<u32>)
    requires
        with_key(s, key, k).len() > 0,
    ensures
        exists|j: int| 0 <= j < s.len() && key(#[trigger] s[j]) == k,
    decreases s.len(),
{
    if key(s.last()) == k {
        assert(key(s[s.len() - 1]) == k);
    } else {
        lemma_with_key_finds(s.drop_last(), key, k);
        let j = choose|j: int|
            0 <= j < s.drop_last().len() && key(#[trigger] s.drop_last()[j]) == k;
        assert(key(s[j]) == k);
    }
}

/// An arrangement in order is fixed by what it holds under every key.
proof fn lemma_one_order<T>(r: Seq<T>, s: Seq<T>, key: spec_fn(T) -> Seq<u32>)
    requires
        in_order(r, key),
        in_order(s, key),
        forall|k: Seq<u32>| #[trigger] with_key(r, key, k) == with_key(s, key, k),
    ensures
        r == s,
    decreases r.len(),
{
    if r.len() == 0 {
        if s.len() > 0 {
            let k = key(s.last());
            assert(with_key(r, key, k) == with_key(s, key, k));
        }
        assert(r =~= s);
    } else {
        let k = key(r.last());
        assert(with_key(r, key, k) == with_key(s, key, k));
        lemma_with_key_finds(s, key, k);
        let j = choose|j: int| 0 <= j < s.len() && key(#[trigger] s[j]) == k;
        let q = key(s.last());
        assert(with_key(r, key, q) == with_key(s, key, q));
        lemma_with_key_finds(r, key, q);
        let i = choose|i: int| 0 <= i < r.len() && key(#[trigger] r[i]) == q;
        lemma_precedes_not_self(k);
        if j < s.len() - 1 {
            assert(!precedes(key(s[s.len() - 1]), key(s[j])));
        }
        if i < r.len() - 1 {
            assert(!precedes(key(r[r.len() - 1]), key(r[i])));
        }
        lemma_precedes_total(k, q);
        assert(with_key(r, key, k).last() == r.last());
        assert(with_key(s, key, k).last() == s.last());
        let r1 = r.drop_last();
        let s1 = s.drop_last();
        assert forall|m: Seq<u32>| #[trigger] with_key(r1, key, m) == with_key(s1, key, m) by {
            assert(with_key(r, key, m) == with_key(s, key, m));
            if m == k {
                assert(with_key(r1, key, m) =~= with_key(r, key, m).drop_last());
                assert(with_key(s1, key, m) =~= with_key(s, key, m).drop_last());
            }
        }
        lemma_one_order(r1, s1, key);
        assert(r =~= r1.push(r.last()));
        assert(s =~= s1.push(s.last()));
    }
}

/// Sorting two parts first changes nothing of the sorted whole.
pub proof fn law_sort_of_parts<T>(s: Seq<T>, t: Seq<T>, key: spec_fn(T) -> Seq<u32>)
    ensures
        stable_sort(stable_sort(s, key) + stable_sort(t, key), key) == stable_sort(s + t, key),
{
    let parts = stable_sort(s, key) + stable_sort(t, key);
    law_sort_permutes_and_orders(parts, key);
    law_sort_permutes_and_orders(s + t, key);
    assert forall|k: Seq<u32>|
        #[trigger] with_key(stable_sort(parts, key), key, k) == with_key(
            stable_sort(s + t, key),
            key,
            k,
        ) by {
        law_sort_is_stable(parts, key, k);
        law_sort_is_stable(s + t, key, k);
        law_sort_is_stable(s, key, k);
        law_sort_is_stable(t, key, k);
        lemma_with_key_append(stable_sort(s, key), stable_sort(t, key), key, k);
        lemma_with_key_append(s, t, key, k);
    }
    lemma_one_order(stable_sort(parts, key), stable_sort(s + t, key), key);
}

proof fn lemma_insert_map<A, B>(
    s: Seq<A>,
    x: A,
    key: spec_fn(A) -> Seq<u32>,
    f: spec_fn(A) -> B,
    key2: spec_fn(B) -> Seq<u32>,
)
    requires
        forall|a: A| #[trigger] key2(f(a)) == key(a),
    ensures
        insert_stable(s, x, key).map_values(f) == insert_stable(s.map_values(f), f(x), key2),
    decreases s.len(),
{
    let m = s.map_values(f);
    if s.len() > 0 {
        assert(m.last() == f(s.last()));
        assert(key2(f(s.last())) == key(s.last()));
    }
    assert(key2(f(x)) == key(x));
    if s.len() > 0 && precedes(key(x), key(s.last())) {
        lemma_insert_map(s.drop_last(), x, key, f, key2);
        assert(s.drop_last().map_values(f) =~= m.drop_last());
        assert(insert_stable(s, x, key).map_values(f) =~= insert_stable(
            s.drop_last(),
            x,
            key,
        ).map_values(f).push(f(s.last())));
    } else {
        assert(s.push(x).map_values(f) =~= m.push(f(x)));
    }
}

/// Sorting commutes with a map that keeps the keys.
pub proof fn lemma_sort_map<A, B>(
    s: Seq<A>,
    key: spec_fn(A) -> Seq<u32>,
    f: spec_fn(A) -> B,
    key2: spec_fn(B) -> Seq<u32>,
)
    requires
        forall|a: A| #[trigger] key2(f(a)) == key(a),
    ensures
        stable_sort(s, key).map_values(f) == stable_sort(s.map_values(f), key2),
    decreases s.len(),
{
    let m = s.map_values(f);
    if s.len() > 0 {
        lemma_sort_map(s.drop_last(), key, f, key2);
        assert(s.drop_last().map_values(f) =~= m.drop_last());
        lemma_insert_map(stable_sort(s.drop_last(), key), s.last(), key, f, key2);
    } else {
        assert(stable_sort(s, key).map_values(f) =~= stable_sort(m, key2));
    }
}

/// Whether key `a` comes strictly before key `b`.
pub fn key_precedes(a: &Vec<u32>, b: &Vec<u32>) -> (r: bool)
    ensures
        r == precedes(a@, b@),
{
    let mut i: usize = 0;
    assert(a@.skip(0) =~= a@);
    assert(b@.skip(0) =~= b@);
    while i < a.len() && i < b.len()
        invariant
            i <= a@.len(),
            i <= b@.len(),
            precedes(a@, b@) == precedes(a@.skip(i as int), b@.skip(i as int)),
        decreases a@.len() - i,
    {
        if a[i] != b[i] {
            return a[i] < b[i];
        }
        assert(a@.skip(i as int).drop_first() =~= a@.skip(i + 1));
        assert(b@.skip(i as int).drop_first() =~= b@.skip(i + 1));
        i += 1;
    }
    i < b.len()
}

/// Exchanges the elements at `j - 1` and `j`.
fn swap_adjacent<T>(s: &mut [T], j: usize)
    requires
        0 < j < old(s)@.len(),
    ensures
        final(s)@ == old(s)@.update(j - 1, old(s)@[j as int]).update(j as int, old(s)@[j - 1]),
{
    let (left, right) = s.split_at_mut(j);
    match (left.last_mut(), right.first_mut()) {
        (Some(a), Some(b)) => {
            core::mem::swap(a, b);
        },
        _ => {},
    }
}

/// Sorts `items[pin..]` by the keys that go with them, and leaves what stands
/// before `pin` where it is.
pub(crate) fn sort_tail<T>(
    items: &mut [T],
    pin: usize,
    keys: &mut Vec<Vec<u32>>,
    Ghost(key): Ghost<spec_fn(T) -> Seq<u32>>,
)
    requires
        pin <= old(items)@.len(),
        old(keys)@.len() == old(items)@.len() - pin,
        forall|i: int|
            0 <= i < old(keys)@.len() ==> (#[trigger] old(keys)@[i])@ == key(old(items)@[pin + i]),
    ensures
        final(items)@ == old(items)@.take(pin as int) + stable_sort(
            old(items)@.skip(pin as int),
            key,
        ),
{
    let n: usize = items.len();
    let ghost all = items@;
    let ghost tail = all.skip(pin as int);
    let mut i: usize = pin;
    assert(all =~= all.take(pin as int) + stable_sort(tail.take(0), key) + tail.skip(0));
    while i < n
        invariant
            pin <= i <= n,
            n == all.len(),
            items@.len() == n,
            tail == all.skip(pin as int),
            keys@.len() == n - pin,
            items@ == all.take(pin as int) + stable_sort(tail.take(i - pin), key) + tail.skip(
                i - pin,
            ),
            stable_sort(tail.take(i - pin), key).len() == i - pin,
            forall|k: int| 0 <= k < keys@.len() ==> (#[trigger] keys@[k])@ == key(items@[pin + k]),
        decreases n - i,
    {
        let ghost sorted = stable_sort(tail.take(i - pin), key);
        let ghost x = tail[i - pin];
        let mut j: usize = i;
        proof {
            assert(items@[i as int] == x);
            assert(tail.take(i - pin + 1).drop_last() =~= tail.take(i - pin));
            lemma_insert_stable(sorted, x, key);
            assert(sorted.take(i - pin) =~= sorted);
            assert(sorted.skip(i - pin) =~= Seq::<T>::empty());
            assert(insert_stable(sorted, x, key) =~= insert_stable(sorted.take(j - pin), x, key)
                + sorted.skip(j - pin));
            assert(items@ =~= all.take(pin as int) + sorted.take(j - pin).push(x) + sorted.skip(
                j - pin,
            ) + tail.skip(i - pin + 1));
        }
        while j > pin && key_precedes(&keys[j - pin], &keys[j - pin - 1])
            invariant
                pin <= j <= i < n,
                n == all.len(),
                items@.len() == n,
                keys@.len() == n - pin,
                tail == all.skip(pin as int),
                sorted.len() == i - pin,
                items@ == all.take(pin as int) + sorted.take(j - pin).push(x) + sorted.skip(j - pin)
                    + tail.skip(i - pin + 1),
                insert_stable(sorted, x, key) == insert_stable(sorted.take(j - pin), x, key)
                    + sorted.skip(j - pin),
                forall|k: int|
                    0 <= k < keys@.len() ==> (#[trigger] keys@[k])@ == key(items@[pin + k]),
            decreases j,
        {
            let ghost before = items@;
            assert(before[j as int] == x);
            assert(before[j - 1] == sorted[j - pin - 1]);
            assert(keys@[j - pin]@ == key(x));
            assert(keys@[j - pin - 1]@ == key(sorted[j - pin - 1]));
            swap_adjacent(items, j);
            swap_adjacent(keys.as_mut_slice(), j - pin);
            proof {
                let front = sorted.take(j - pin);
                assert(front.last() == sorted[j - pin - 1]);
                assert(front.drop_last() =~= sorted.take(j - pin - 1));
                assert(insert_stable(front, x, key) + sorted.skip(j - pin) =~= insert_stable(
                    sorted.take(j - pin - 1),
                    x,
                    key,
                ) + sorted.skip(j - pin - 1));
                assert(items@ =~= all.take(pin as int) + sorted.take(j - pin - 1).push(x)
                    + sorted.skip(j - pin - 1) + tail.skip(i - pin + 1));
            }
            j -= 1;
        }
        proof {
            let front = sorted.take(j - pin);
            if j > pin {
                assert(items@[j as int] == x);
                assert(items@[j - 1] == front.last());
                assert(keys@[j - pin]@ == key(x));
                assert(keys@[j - pin - 1]@ == key(front.last()));
            }
            assert(insert_stable(front, x, key) == front.push(x));
            assert(stable_sort(tail.take(i - pin + 1), key) == front.push(x) + sorted.skip(j - pin));
            assert(items@ =~= all.take(pin as int) + stable_sort(tail.take(i - pin + 1), key)
                + tail.skip(i - pin + 1));
        }
        i += 1;
    }
    proof {
        assert(tail.take(n - pin) =~= tail);
        assert(items@ =~= all.take(pin as int) + stable_sort(tail, key));
    }
}

} // verus!
