//! A stable order of texts: position lists sorted by key, ties by given position.
use vstd::prelude::*;

verus! {

/// Lexicographic order by code point.
pub open spec fn text_lt(a: Seq<char>, b: Seq<char>) -> bool
    decreases a.len(),
{
    if b.len() == 0 {
        false
    } else if a.len() == 0 {
        true
    } else if a[0] == b[0] {
        text_lt(a.subrange(1, a.len() as int), b.subrange(1, b.len() as int))
    } else {
        a[0] < b[0]
    }
}

/// Of two distinct texts exactly one comes first; no text comes before itself.
pub proof fn text_lt_total(a: Seq<char>, b: Seq<char>)
    ensures
        a != b ==> text_lt(a, b) || text_lt(b, a),
        !(text_lt(a, b) && text_lt(b, a)),
        !text_lt(a, a),
    decreases a.len(),
{
    if a.len() > 0 {
        let ta = a.subrange(1, a.len() as int);
        text_lt_total(ta, ta);
        if b.len() > 0 {
            let tb = b.subrange(1, b.len() as int);
            text_lt_total(ta, tb);
            if a[0] == b[0] && ta == tb {
                assert(a =~= seq![a[0]] + ta);
                assert(b =~= seq![b[0]] + tb);
            }
        }
    } else if b.len() == 0 {
        assert(a =~= b);
    }
}

/// The order is transitive.
pub proof fn text_lt_transitive(a: Seq<char>, b: Seq<char>, c: Seq<char>)
    requires
        text_lt(a, b),
        text_lt(b, c),
    ensures
        text_lt(a, c),
    decreases a.len(),
{
    if a.len() > 0 && a[0] == b[0] && b[0] == c[0] {
        text_lt_transitive(
            a.subrange(1, a.len() as int),
            b.subrange(1, b.len() as int),
            c.subrange(1, c.len() as int),
        );
    }
}

/// Position `p` belongs before position `q`.
pub open spec fn before(keys: Seq<Seq<char>>, p: int, q: int) -> bool {
    text_lt(keys[p], keys[q]) || (keys[p] == keys[q] && p < q)
}

/// `order` lists every position of `keys` once, by key, ties by position.
pub open spec fn is_stable_order(keys: Seq<Seq<char>>, order: Seq<usize>) -> bool {
    &&& order.len() == keys.len()
    &&& order.no_duplicates()
    &&& forall|i: int| 0 <= i < order.len() ==> 0 <= (#[trigger] order[i]) < keys.len()
    &&& forall|i: int, j: int|
        #![trigger order[i], order[j]]
        0 <= i < j < order.len() ==> before(keys, order[i] as int, order[j] as int)
}

/// There is only one stable order of given keys.
pub proof fn stable_order_is_unique(keys: Seq<Seq<char>>, a: Seq<usize>, b: Seq<usize>)
    requires
        is_stable_order(keys, a),
        is_stable_order(keys, b),
    ensures
        a == b,
{
    assert forall|n: int| 0 <= n <= a.len() implies #[trigger] a.take(n) == b.take(n) by {
        agrees_up_to(keys, a, b, n);
    }
    assert(a.take(a.len() as int) == b.take(a.len() as int));
    assert(a.take(a.len() as int) =~= a);
    assert(b.take(a.len() as int) =~= b);
}

proof fn agrees_up_to(keys: Seq<Seq<char>>, a: Seq<usize>, b: Seq<usize>, n: int)
    requires
        is_stable_order(keys, a),
        is_stable_order(keys, b),
        0 <= n <= a.len(),
    ensures
        a.take(n) == b.take(n),
    decreases n,
{
    if n == 0 {
        assert(a.take(0) =~= b.take(0));
    } else {
        let i = n - 1;
        agrees_up_to(keys, a, b, i);
        assert(forall|k: int| 0 <= k < i ==> #[trigger] a[k] == a.take(i)[k]);
        assert(forall|k: int| 0 <= k < i ==> #[trigger] b[k] == b.take(i)[k]);
        if a[i] != b[i] {
            every_position_occurs(keys, b, a[i]);
            every_position_occurs(keys, a, b[i]);
            let j = choose|j: int| 0 <= j < b.len() && b[j] == a[i];
            let k = choose|k: int| 0 <= k < a.len() && a[k] == b[i];
            if j < i {
                assert(a[j] == a[i]);
            }
            if k < i {
                assert(b[k] == b[i]);
            }
            assert(before(keys, a[i] as int, a[k] as int));
            assert(before(keys, b[i] as int, b[j] as int));
            text_lt_total(keys[a[i] as int], keys[b[i] as int]);
        }
        assert(a.take(n) =~= a.take(i).push(a[i]));
        assert(b.take(n) =~= b.take(i).push(b[i]));
    }
}

/// An order leaves no position out.
pub proof fn every_position_occurs(keys: Seq<Seq<char>>, order: Seq<usize>, position: usize)
    requires
        is_stable_order(keys, order),
        position < keys.len(),
    ensures
        order.contains(position),
{
    let positions = order.map_values(|p: usize| p as int);
    let all = vstd::set_lib::set_int_range(0, keys.len() as int);
    assert(positions.no_duplicates());
    positions.unique_seq_to_set();
    vstd::set_lib::lemma_int_range(0, keys.len() as int);
    assert(positions.to_set().subset_of(all)) by {
        assert forall|p: int| positions.to_set().contains(p) implies all.contains(p) by {
            let i = choose|i: int| 0 <= i < positions.len() && positions[i] == p;
            assert(order[i] == p);
        }
    }
    vstd::set_lib::lemma_subset_equality(positions.to_set(), all);
    assert(positions.to_set().contains(position as int));
    let i = choose|i: int| 0 <= i < positions.len() && positions[i] == position as int;
    assert(order[i] == position);
}

pub open spec fn char_seqs(v: Seq<Vec<char>>) -> Seq<Seq<char>> {
    v.map_values(|t: Vec<char>| t@)
}

fn text_less(a: &Vec<char>, b: &Vec<char>) -> (r: bool)
    ensures
        r == text_lt(a@, b@),
{
    let mut i: usize = 0;
    assert(a@.subrange(0, a.len() as int) =~= a@);
    assert(b@.subrange(0, b.len() as int) =~= b@);
    while i < a.len() && i < b.len() && a[i] == b[i]
        invariant
            i <= a.len(),
            i <= b.len(),
            text_lt(a@, b@) == text_lt(
                a@.subrange(i as int, a.len() as int),
                b@.subrange(i as int, b.len() as int),
            ),
        decreases a.len() - i,
    {
        let ghost sa = a@.subrange(i as int, a.len() as int);
        let ghost sb = b@.subrange(i as int, b.len() as int);
        assert(sa.subrange(1, sa.len() as int) =~= a@.subrange(i + 1, a.len() as int));
        assert(sb.subrange(1, sb.len() as int) =~= b@.subrange(i + 1, b.len() as int));
        i = i + 1;
    }
    if i >= b.len() {
        false
    } else if i >= a.len() {
        true
    } else {
        a[i] < b[i]
    }
}

/// The positions of `keys`, sorted by key and otherwise as they came.
pub fn stable_order(keys: &Vec<Vec<char>>) -> (r: Vec<usize>)
    ensures
        is_stable_order(char_seqs(keys@), r@),
{
    let ghost k = char_seqs(keys@);
    let mut order: Vec<usize> = Vec::new();
    for n in 0..keys.len()
        invariant
            k == char_seqs(keys@),
            is_stable_order(k.take(n as int), order@),
    {
        let ghost old_order = order@;
        let mut at: usize = order.len();
        assert forall|p: int, q: int|
            0 <= p < n && 0 <= q < n && before(k.take(n as int), p, q) implies before(k, p, q) by {}
        while at > 0 && text_less(&keys[n], &keys[order[at - 1]])
            invariant
                k == char_seqs(keys@),
                n < keys.len(),
                at <= order.len(),
                order@ == old_order,
                is_stable_order(k.take(n as int), order@),
                forall|j: int|
                    at <= j < order.len() ==> text_lt(k[n as int], k[#[trigger] order@[j] as int]),
            decreases at,
        {
            at = at - 1;
        }
        assert forall|i: int| 0 <= i < at implies before(
            k,
            (#[trigger] order@[i]) as int,
            n as int,
        ) by {
            let last = order@[at - 1] as int;
            text_lt_total(k[n as int], k[last]);
            if i < at - 1 {
                assert(before(k.take(n as int), order@[i] as int, last));
                if text_lt(k[order@[i] as int], k[last]) && k[last] != k[n as int] {
                    text_lt_transitive(k[order@[i] as int], k[last], k[n as int]);
                }
            }
        }
        order.insert(at, n);
        let ghost kn = k.take(n + 1);
        assert(order@ == old_order.insert(at as int, n));
        assert forall|i: int| 0 <= i < order@.len() implies 0 <= (#[trigger] order@[i])
            < kn.len() by {
            if i < at {
                assert(order@[i] == old_order[i]);
            } else if i > at {
                assert(order@[i] == old_order[i - 1]);
            }
        }
        assert forall|i: int, j: int|
            #![trigger order@[i], order@[j]]
            0 <= i < j < order@.len() implies before(
            kn,
            order@[i] as int,
            order@[j] as int,
        ) && order@[i] != order@[j] by {
            let p = if i < at { i } else { i - 1 };
            let q = if j < at { j } else { j - 1 };
            if i == at {
                assert(order@[j] == old_order[q]);
                assert(text_lt(k[n as int], k[old_order[q] as int]));
            } else if j == at {
                assert(order@[i] == old_order[p]);
                assert(before(k, old_order[p] as int, n as int));
            } else {
                assert(order@[i] == old_order[p]);
                assert(order@[j] == old_order[q]);
                assert(before(k.take(n as int), old_order[p] as int, old_order[q] as int));
            }
        }
    }
    assert(k.take(keys.len() as int) =~= k);
    order
}

/// Ascending without repetition.
pub open spec fn strictly_ascending(s: Seq<u64>) -> bool {
    forall|i: int, j: int| 0 <= i < j < s.len() ==> s[i] < s[j]
}

/// `r` holds exactly the elements of `s`, ascending and each once.
pub open spec fn is_canonical(s: Seq<u64>, r: Seq<u64>) -> bool {
    &&& strictly_ascending(r)
    &&& forall|x: u64| s.contains(x) <==> r.contains(x)
}

/// Two ascending lists of the same elements are the same list, so a canonical form is unique; and
/// a canonical list is its own canonical form.
pub proof fn canonical_is_unique(s: Seq<u64>, a: Seq<u64>, b: Seq<u64>)
    requires
        is_canonical(s, a),
        is_canonical(s, b),
    ensures
        a == b,
        is_canonical(a, a),
    decreases a.len(),
{
    if a.len() == 0 {
        if b.len() > 0 {
            assert(b.contains(b[0]));
            assert(a.contains(b[0]));
        }
        assert(a =~= b);
    } else {
        assert(a.contains(a.last()));
        assert(b.contains(a.last()));
        assert(b.contains(b.last()));
        assert(a.contains(b.last()));
        assert(a.last() == b.last());
        let ra = a.drop_last();
        let rb = b.drop_last();
        assert forall|x: u64| ra.contains(x) <==> rb.contains(x) by {
            if ra.contains(x) {
                let i = choose|i: int| 0 <= i < ra.len() && ra[i] == x;
                assert(a[i] == x);
                assert(a.contains(x));
                assert(b.contains(x));
                let j = choose|j: int| 0 <= j < b.len() && b[j] == x;
                assert(a[i] < a.last());
                assert(rb[j] == x);
            }
            if rb.contains(x) {
                let i = choose|i: int| 0 <= i < rb.len() && rb[i] == x;
                assert(b[i] == x);
                assert(b.contains(x));
                assert(a.contains(x));
                let j = choose|j: int| 0 <= j < a.len() && a[j] == x;
                assert(b[i] < b.last());
                assert(ra[j] == x);
            }
        }
        canonical_is_unique(ra, ra, rb);
        assert(a =~= ra.push(a.last()));
        assert(b =~= rb.push(b.last()));
    }
}

/// The elements of `values`, ascending and each once.
pub fn sorted_unique(values: &Vec<u64>) -> (r: Vec<u64>)
    ensures
        is_canonical(values@, r@),
{
    let mut r: Vec<u64> = Vec::new();
    for n in 0..values.len()
        invariant
            is_canonical(values@.take(n as int), r@),
    {
        let x: u64 = values[n];
        let ghost before = r@;
        let ghost seen = values@.take(n as int);
        let mut at: usize = r.len();
        while at > 0 && r[at - 1] > x
            invariant
                at <= r.len(),
                r@ == before,
                strictly_ascending(r@),
                forall|j: int| at <= j < r.len() ==> r@[j] > x,
            decreases at,
        {
            at = at - 1;
        }
        let present = at > 0 && r[at - 1] == x;
        if !present {
            r.insert(at, x);
            assert forall|i: int, j: int| 0 <= i < j < r@.len() implies r@[i] < r@[j] by {
                let p = if i < at { i } else { i - 1 };
                let q = if j < at { j } else { j - 1 };
                if i < at {
                    assert(r@[i] == before[p]);
                    assert(before[p] <= before[at - 1]);
                }
                if j > at {
                    assert(r@[j] == before[q]);
                }
                if j < at {
                    assert(r@[j] == before[q]);
                }
                if i > at {
                    assert(r@[i] == before[p]);
                }
            }
        }
        let ghost now = values@.take(n + 1);
        assert(now =~= seen.push(x));
        assert forall|y: u64| now.contains(y) <==> r@.contains(y) by {
            if now.contains(y) {
                if y == x {
                    if present {
                        assert(r@[at - 1] == x);
                    } else {
                        assert(r@[at as int] == x);
                    }
                } else {
                    let i = choose|i: int| 0 <= i < now.len() && now[i] == y;
                    assert(seen[i] == y);
                    assert(seen.contains(y));
                    assert(before.contains(y));
                    let j = choose|j: int| 0 <= j < before.len() && before[j] == y;
                    if present || j < at {
                        assert(r@[j] == y);
                    } else {
                        assert(r@[j + 1] == y);
                    }
                }
            }
            if r@.contains(y) {
                let j = choose|j: int| 0 <= j < r@.len() && r@[j] == y;
                if !present && j == at {
                    assert(now[n as int] == y);
                } else {
                    let p = if present || j < at { j } else { j - 1 };
                    assert(before[p] == y);
                    assert(before.contains(y));
                    assert(seen.contains(y));
                    let i = choose|i: int| 0 <= i < seen.len() && seen[i] == y;
                    assert(now[i] == y);
                }
            }
        }
    }
    assert(values@.take(values.len() as int) =~= values@);
    r
}

} // verus!
