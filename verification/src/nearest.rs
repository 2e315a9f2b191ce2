//! Located points and the nearest-first ordering of points by their distance key.
use vstd::prelude::*;
use crate::order_key::{compare_keys, key_order, KeyOrder, OrderKey};
pub use crate::point::Point;

verus! {

/// `pd` pairs each point of `points`, in order, with a key that `d` may return for that
/// point and `p`.
pub open spec fn measured<P, F: Fn(&P, &P) -> OrderKey>(
    points: Seq<P>,
    p: P,
    d: F,
    pd: Seq<(P, OrderKey)>,
) -> bool {
    &&& pd.len() == points.len()
    &&& forall|i: int|
        0 <= i < pd.len() ==> (#[trigger] pd[i]).0 == points[i] && call_ensures(
            d,
            (&points[i], &p),
            pd[i].1,
        )
}

/// Pairs every point with its distance key from `p`, as `d` measures it, and sorts the
/// pairs nearest first (see `sort`): the result is the partition sort of the pairs.
pub fn nearest_points<P: Copy, F: Fn(&P, &P) -> OrderKey>(points: Vec<P>, p: P, d: F) -> (r: Vec<
    (P, OrderKey),
>)
    requires
        forall|x: &P| call_requires(d, (x, &p)),
    ensures
        exists|pd: Seq<(P, OrderKey)>|
            #![trigger measured(points@, p, d, pd)]
            measured(points@, p, d, pd) && r@ == partition_sort(pd) && sort_outcome(pd, r@),
        points@.len() >= 2 ==> forall|i: int, j: int|
            0 <= i < j < r@.len() ==> (#[trigger] r@[i]).1->Value_0 <= (#[trigger] r@[j]).1->Value_0,
        forall|i: int|
            0 <= i < r@.len() ==> exists|j: int|
                0 <= j < points@.len() && (#[trigger] r@[i]).0 == points@[j] && call_ensures(
                    d,
                    (&points@[j], &p),
                    r@[i].1,
                ),
        (forall|x: &P, k: OrderKey| call_ensures(d, (x, &p), k) ==> k is Value) ==> r@.len()
            == points@.len(),
{
    let mut pd_vec: Vec<(P, OrderKey)> = Vec::new();
    let mut i: usize = 0;
    while i < points.len()
        invariant
            0 <= i <= points@.len(),
            forall|x: &P| call_requires(d, (x, &p)),
            pd_vec@.len() == i,
            forall|j: int|
                0 <= j < i ==> (#[trigger] pd_vec@[j]).0 == points@[j] && call_ensures(
                    d,
                    (&points@[j], &p),
                    pd_vec@[j].1,
                ),
        decreases points@.len() - i,
    {
        let x = points[i];
        let dist = d(&x, &p);
        pd_vec.push((x, dist));
        i = i + 1;
    }
    let ghost pd = pd_vec@;
    let r = sort(pd_vec);
    assert(measured(points@, p, d, pd));
    assert forall|i: int| 0 <= i < r@.len() implies exists|j: int|
        0 <= j < points@.len() && (#[trigger] r@[i]).0 == points@[j] && call_ensures(
            d,
            (&points@[j], &p),
            r@[i].1,
        ) by {
        let j = choose|j: int| 0 <= j < pd.len() && pd[j] == r@[i];
        assert(pd[j].0 == points@[j]);
    }
    proof {
        if forall|x: &P, k: OrderKey| call_ensures(d, (x, &p), k) ==> k is Value {
            assert forall|i: int| 0 <= i < pd.len() implies (#[trigger] pd[i]).1 is Value by {
                assert(call_ensures(d, (&points@[i], &p), pd[i].1));
            }
        }
    }
    r
}

/// The numeric value of a comparable key (0 for an incomparable one).
pub open spec fn key_value(k: OrderKey) -> int {
    match k {
        OrderKey::Value(v) => v as int,
        OrderKey::Incomparable => 0,
    }
}

/// Every entry of `s` has a comparable key.
pub open spec fn all_comparable<P>(s: Seq<(P, OrderKey)>) -> bool {
    forall|i: int| 0 <= i < s.len() ==> (#[trigger] s[i]).1 is Value
}

/// Every key of `s` is comparable, and the keys never decrease along `s`.
pub open spec fn sorted_by_key<P>(s: Seq<(P, OrderKey)>) -> bool {
    &&& all_comparable(s)
    &&& forall|i: int, j: int|
        0 <= i < j < s.len() ==> key_value((#[trigger] s[i]).1) <= key_value((#[trigger] s[j]).1)
}

/// The entries of `s` whose key is `Value(k)`, in their order in `s`.
pub open spec fn with_key<P>(s: Seq<(P, OrderKey)>, k: i64) -> Seq<(P, OrderKey)> {
    s.filter(|e: (P, OrderKey)| e.1 == OrderKey::Value(k))
}

/// What `sort` makes of `input`:
/// - a list of at most one entry comes back unchanged;
/// - otherwise the output is sorted by key, and holds comparable keys only;
/// - every output entry is an entry of the input;
/// - for every key value, the output holds either all the input's entries with that key,
///   in their input order, or none of them;
/// - where all input keys are comparable, it holds all of them (the output is then the
///   stable sort of the input by key) and has the input's length;
/// - where the middle entry's key is incomparable, the output of two or more entries is empty.
pub open spec fn sort_outcome<P>(input: Seq<(P, OrderKey)>, output: Seq<(P, OrderKey)>) -> bool {
    &&& input.len() <= 1 ==> output == input
    &&& input.len() >= 2 || all_comparable(input) ==> sorted_by_key(output)
    &&& forall|i: int| 0 <= i < output.len() ==> input.contains(#[trigger] output[i])
    &&& forall|k: i64|
        #![trigger with_key(output, k)]
        with_key(output, k) == with_key(input, k) || with_key(output, k).len() == 0
    &&& all_comparable(input) ==> forall|k: i64|
        #![trigger with_key(output, k)]
        with_key(output, k) == with_key(input, k)
    &&& all_comparable(input) ==> output.len() == input.len()
    &&& input.len() >= 2 && input[input.len() as int / 2].1 is Incomparable ==> output.len() == 0
}

proof fn lemma_with_key_push<P>(s: Seq<(P, OrderKey)>, x: (P, OrderKey), k: i64)
    ensures
        with_key(s.push(x), k) == if x.1 == OrderKey::Value(k) {
            with_key(s, k).push(x)
        } else {
            with_key(s, k)
        },
{
    s.lemma_filter_push(x, |e: (P, OrderKey)| e.1 == OrderKey::Value(k));
}

proof fn lemma_with_key_add<P>(a: Seq<(P, OrderKey)>, b: Seq<(P, OrderKey)>, k: i64)
    ensures
        with_key(a + b, k) == with_key(a, k) + with_key(b, k),
{
    Seq::filter_distributes_over_add(a, b, |e: (P, OrderKey)| e.1 == OrderKey::Value(k));
}

proof fn lemma_with_key_absent<P>(s: Seq<(P, OrderKey)>, k: i64)
    requires
        forall|i: int| 0 <= i < s.len() ==> (#[trigger] s[i]).1 != OrderKey::Value(k),
    ensures
        with_key(s, k) == Seq::<(P, OrderKey)>::empty(),
    decreases s.len(),
{
    reveal(Seq::filter);
    if s.len() > 0 {
        let rest = s.drop_last();
        assert forall|i: int| 0 <= i < rest.len() implies (#[trigger] rest[i]).1 != OrderKey::Value(
            k,
        ) by {
            assert(rest[i] == s[i]);
        }
        lemma_with_key_absent(rest, k);
        assert(s.last() == s[s.len() - 1]);
    }
}

proof fn lemma_with_key_of_empty<P>(k: i64)
    ensures
        with_key(Seq::<(P, OrderKey)>::empty(), k) == Seq::<(P, OrderKey)>::empty(),
{
    reveal(Seq::filter);
}

/// The entries whose key compares less than the pivot.
pub open spec fn below<P>(pivot: OrderKey) -> spec_fn((P, OrderKey)) -> bool {
    |e: (P, OrderKey)| key_order(e.1, pivot) == Some(KeyOrder::Less)
}

/// The entries whose key compares equal to the pivot.
pub open spec fn level<P>(pivot: OrderKey) -> spec_fn((P, OrderKey)) -> bool {
    |e: (P, OrderKey)| key_order(e.1, pivot) == Some(KeyOrder::Equal)
}

/// The entries whose key compares greater than the pivot.
pub open spec fn above<P>(pivot: OrderKey) -> spec_fn((P, OrderKey)) -> bool {
    |e: (P, OrderKey)| key_order(e.1, pivot) == Some(KeyOrder::Greater)
}

/// Leaving out an entry that fails the predicate makes the filtered sequence shorter.
pub proof fn lemma_filter_shorter<A>(s: Seq<A>, p: spec_fn(A) -> bool, i: int)
    requires
        0 <= i < s.len(),
        !p(s[i]),
    ensures
        s.filter(p).len() < s.len(),
    decreases s.len(),
{
    reveal(Seq::filter);
    s.drop_last().lemma_filter_len(p);
    if i < s.len() - 1 {
        assert(s.drop_last()[i] == s[i]);
        lemma_filter_shorter(s.drop_last(), p, i);
    }
}

/// Partition sort: a sequence of at most one entry is itself; a longer one is, around the key
/// of its middle entry as pivot, the partition sort of the entries below the pivot, then the
/// entries level with it, then the partition sort of the entries above it, each part in the
/// order of the sequence. An entry that compares with the pivot in none of these ways is in
/// no part.
pub open spec fn partition_sort<P>(s: Seq<(P, OrderKey)>) -> Seq<(P, OrderKey)>
    decreases s.len(),
{
    if s.len() <= 1 {
        s
    } else {
        let pivot = s[s.len() as int / 2].1;
        proof {
            lemma_filter_shorter(s, below::<P>(pivot), s.len() as int / 2);
            lemma_filter_shorter(s, above::<P>(pivot), s.len() as int / 2);
        }
        partition_sort(s.filter(below::<P>(pivot))) + s.filter(level::<P>(pivot)) + partition_sort(
            s.filter(above::<P>(pivot)),
        )
    }
}

/// Sorts located entries by their key, nearest first.
///
/// The middle entry's key is the pivot; entries whose keys compare less than, equal to and
/// greater than it are gathered in three lists, in their input order, and the outer two are
/// sorted in turn. An entry whose key is incomparable with the pivot is left out.
pub fn sort<P: Copy>(pd_vec: Vec<(P, OrderKey)>) -> (r: Vec<(P, OrderKey)>)
    ensures
        r@ == partition_sort(pd_vec@),
        sort_outcome(pd_vec@, r@),
        pd_vec@.len() >= 2 ==> forall|i: int, j: int|
            0 <= i < j < r@.len() ==> (#[trigger] r@[i]).1->Value_0 <= (#[trigger] r@[j]).1->Value_0,
        pd_vec@.len() >= 2 ==> forall|i: int|
            0 <= i < r@.len() ==> (#[trigger] r@[i]).1 is Value,
        forall|i: int|
            0 <= i < r@.len() ==> exists|j: int|
                0 <= j < pd_vec@.len() && pd_vec@[j] == #[trigger] r@[i],
        (forall|i: int| 0 <= i < pd_vec@.len() ==> (#[trigger] pd_vec@[i]).1 is Value) ==> r@.len()
            == pd_vec@.len(),
        r@.len() <= pd_vec@.len(),
    decreases pd_vec@.len(),
{
    let mut lt: Vec<(P, OrderKey)> = Vec::new();
    let mut et: Vec<(P, OrderKey)> = Vec::new();
    let mut gt: Vec<(P, OrderKey)> = Vec::new();
    if pd_vec.len() <= 1 {
        return pd_vec;
    }
    let n = pd_vec.len();
    let mid = n / 2;
    let pivot = pd_vec[mid].1;
    let ghost input = pd_vec@;
    let mut i: usize = 0;
    while i < n
        invariant
            n == input.len(),
            input == pd_vec@,
            mid == n / 2,
            n >= 2,
            pivot == input[mid as int].1,
            0 <= i <= n,
            forall|j: int|
                0 <= j < lt@.len() ==> key_order((#[trigger] lt@[j]).1, pivot) == Some(
                    KeyOrder::Less,
                ),
            forall|j: int|
                0 <= j < et@.len() ==> key_order((#[trigger] et@[j]).1, pivot) == Some(
                    KeyOrder::Equal,
                ),
            forall|j: int|
                0 <= j < gt@.len() ==> key_order((#[trigger] gt@[j]).1, pivot) == Some(
                    KeyOrder::Greater,
                ),
            forall|j: int| 0 <= j < lt@.len() ==> input.contains(#[trigger] lt@[j]),
            forall|j: int| 0 <= j < et@.len() ==> input.contains(#[trigger] et@[j]),
            forall|j: int| 0 <= j < gt@.len() ==> input.contains(#[trigger] gt@[j]),
            forall|k: i64|
                #![trigger with_key(lt@, k)]
                with_key(lt@, k) == if key_order(OrderKey::Value(k), pivot) == Some(
                    KeyOrder::Less,
                ) {
                    with_key(input.take(i as int), k)
                } else {
                    Seq::<(P, OrderKey)>::empty()
                },
            forall|k: i64|
                #![trigger with_key(et@, k)]
                with_key(et@, k) == if key_order(OrderKey::Value(k), pivot) == Some(
                    KeyOrder::Equal,
                ) {
                    with_key(input.take(i as int), k)
                } else {
                    Seq::<(P, OrderKey)>::empty()
                },
            forall|k: i64|
                #![trigger with_key(gt@, k)]
                with_key(gt@, k) == if key_order(OrderKey::Value(k), pivot) == Some(
                    KeyOrder::Greater,
                ) {
                    with_key(input.take(i as int), k)
                } else {
                    Seq::<(P, OrderKey)>::empty()
                },
            lt@.len() + et@.len() + gt@.len() <= i,
            all_comparable(input) ==> lt@.len() + et@.len() + gt@.len() == i,
            pivot is Value && i > mid ==> et@.len() >= 1,
            lt@ == input.take(i as int).filter(below::<P>(pivot)),
            et@ == input.take(i as int).filter(level::<P>(pivot)),
            gt@ == input.take(i as int).filter(above::<P>(pivot)),
        decreases n - i,
    {
        let (x, d) = pd_vec[i];
        let ghost old_lt = lt@;
        let ghost old_et = et@;
        let ghost old_gt = gt@;
        proof {
            assert(input.take(i + 1) =~= input.take(i as int).push((x, d)));
            assert(input.contains(input[i as int]));
        }
        proof {
            input.take(i as int).lemma_filter_push((x, d), below::<P>(pivot));
            input.take(i as int).lemma_filter_push((x, d), level::<P>(pivot));
            input.take(i as int).lemma_filter_push((x, d), above::<P>(pivot));
        }
        match compare_keys(&d, &pivot) {
            Some(KeyOrder::Less) => lt.push((x, d)),
            Some(KeyOrder::Equal) => et.push((x, d)),
            Some(KeyOrder::Greater) => gt.push((x, d)),
            None => {},
        };
        proof {
            assert forall|k: i64| #![trigger with_key(lt@, k)]
                with_key(lt@, k) == if key_order(OrderKey::Value(k), pivot) == Some(
                    KeyOrder::Less,
                ) {
                    with_key(input.take(i + 1), k)
                } else {
                    Seq::<(P, OrderKey)>::empty()
                } by {
                lemma_with_key_push(input.take(i as int), (x, d), k);
                lemma_with_key_push(old_lt, (x, d), k);
                assert(with_key(old_lt, k) == if key_order(OrderKey::Value(k), pivot) == Some(
                    KeyOrder::Less,
                ) {
                    with_key(input.take(i as int), k)
                } else {
                    Seq::<(P, OrderKey)>::empty()
                });
            }
            assert forall|k: i64| #![trigger with_key(et@, k)]
                with_key(et@, k) == if key_order(OrderKey::Value(k), pivot) == Some(
                    KeyOrder::Equal,
                ) {
                    with_key(input.take(i + 1), k)
                } else {
                    Seq::<(P, OrderKey)>::empty()
                } by {
                lemma_with_key_push(input.take(i as int), (x, d), k);
                lemma_with_key_push(old_et, (x, d), k);
                assert(with_key(old_et, k) == if key_order(OrderKey::Value(k), pivot) == Some(
                    KeyOrder::Equal,
                ) {
                    with_key(input.take(i as int), k)
                } else {
                    Seq::<(P, OrderKey)>::empty()
                });
            }
            assert forall|k: i64| #![trigger with_key(gt@, k)]
                with_key(gt@, k) == if key_order(OrderKey::Value(k), pivot) == Some(
                    KeyOrder::Greater,
                ) {
                    with_key(input.take(i + 1), k)
                } else {
                    Seq::<(P, OrderKey)>::empty()
                } by {
                lemma_with_key_push(input.take(i as int), (x, d), k);
                lemma_with_key_push(old_gt, (x, d), k);
                assert(with_key(old_gt, k) == if key_order(OrderKey::Value(k), pivot) == Some(
                    KeyOrder::Greater,
                ) {
                    with_key(input.take(i as int), k)
                } else {
                    Seq::<(P, OrderKey)>::empty()
                });
            }
        }
        i = i + 1;
    }
    proof {
        assert(input.take(n as int) =~= input);
    }
    proof {
        if pivot is Incomparable {
            if lt@.len() > 0 {
                assert(key_order(lt@[0].1, pivot) == Some(KeyOrder::Less));
            }
            if gt@.len() > 0 {
                assert(key_order(gt@[0].1, pivot) == Some(KeyOrder::Greater));
            }
        }
        assert(lt@.len() < input.len());
        assert(gt@.len() < input.len());
    }
    let ghost lt0 = lt@;
    let ghost et0 = et@;
    let ghost gt0 = gt@;
    let mut sorted_lt = sort(lt);
    let mut sorted_gt = sort(gt);
    let ghost rl = sorted_lt@;
    let ghost rg = sorted_gt@;
    sorted_lt.append(&mut et);
    sorted_lt.append(&mut sorted_gt);
    let ghost out = sorted_lt@;
    proof {
        assert(out == rl + et0 + rg);
        lemma_sort_concat(input, pivot, lt0, et0, gt0, rl, rg);
        assert(out == partition_sort(input));
    }
    sorted_lt
}

/// The three sorted parts, put together, are the outcome of sorting `input`.
proof fn lemma_sort_concat<P>(
    input: Seq<(P, OrderKey)>,
    pivot: OrderKey,
    lt: Seq<(P, OrderKey)>,
    et: Seq<(P, OrderKey)>,
    gt: Seq<(P, OrderKey)>,
    rl: Seq<(P, OrderKey)>,
    rg: Seq<(P, OrderKey)>,
)
    requires
        input.len() >= 2,
        pivot == input[input.len() as int / 2].1,
        forall|j: int|
            0 <= j < lt.len() ==> key_order((#[trigger] lt[j]).1, pivot) == Some(KeyOrder::Less),
        forall|j: int|
            0 <= j < et.len() ==> key_order((#[trigger] et[j]).1, pivot) == Some(KeyOrder::Equal),
        forall|j: int|
            0 <= j < gt.len() ==> key_order((#[trigger] gt[j]).1, pivot) == Some(
                KeyOrder::Greater,
            ),
        forall|j: int| 0 <= j < lt.len() ==> input.contains(#[trigger] lt[j]),
        forall|j: int| 0 <= j < et.len() ==> input.contains(#[trigger] et[j]),
        forall|j: int| 0 <= j < gt.len() ==> input.contains(#[trigger] gt[j]),
        forall|k: i64|
            #![trigger with_key(lt, k)]
            with_key(lt, k) == if key_order(OrderKey::Value(k), pivot) == Some(KeyOrder::Less) {
                with_key(input, k)
            } else {
                Seq::<(P, OrderKey)>::empty()
            },
        forall|k: i64|
            #![trigger with_key(et, k)]
            with_key(et, k) == if key_order(OrderKey::Value(k), pivot) == Some(KeyOrder::Equal) {
                with_key(input, k)
            } else {
                Seq::<(P, OrderKey)>::empty()
            },
        forall|k: i64|
            #![trigger with_key(gt, k)]
            with_key(gt, k) == if key_order(OrderKey::Value(k), pivot) == Some(
                KeyOrder::Greater,
            ) {
                with_key(input, k)
            } else {
                Seq::<(P, OrderKey)>::empty()
            },
        all_comparable(input) ==> lt.len() + et.len() + gt.len() == input.len(),
        sort_outcome(lt, rl),
        sort_outcome(gt, rg),
    ensures
        sort_outcome(input, rl + et + rg),
{
    let out = rl + et + rg;
    assert(all_comparable(lt));
    assert(all_comparable(gt));
    // Every entry of a sorted part comes from its list, so it keeps that list's bound.
    assert forall|j: int| 0 <= j < rl.len() implies key_order(
        (#[trigger] rl[j]).1,
        pivot,
    ) == Some(KeyOrder::Less) && input.contains(rl[j]) by {
        assert(lt.contains(rl[j]));
        let w = choose|w: int| 0 <= w < lt.len() && lt[w] == rl[j];
        assert(lt[w] == rl[j]);
    }
    assert forall|j: int| 0 <= j < rg.len() implies key_order(
        (#[trigger] rg[j]).1,
        pivot,
    ) == Some(KeyOrder::Greater) && input.contains(rg[j]) by {
        assert(gt.contains(rg[j]));
        let w = choose|w: int| 0 <= w < gt.len() && gt[w] == rg[j];
        assert(gt[w] == rg[j]);
    }
    // Sorted.
    assert forall|i: int| 0 <= i < out.len() implies (#[trigger] out[i]).1 is Value && input.contains(
        out[i],
    ) by {
        if i < rl.len() {
            assert(out[i] == rl[i]);
        } else if i < rl.len() + et.len() {
            assert(out[i] == et[i - rl.len()]);
        } else {
            assert(out[i] == rg[i - rl.len() - et.len()]);
        }
    }
    assert forall|i: int, j: int|
        0 <= i < j < out.len() implies key_value((#[trigger] out[i]).1) <= key_value(
        (#[trigger] out[j]).1,
    ) by {
        if i < rl.len() {
            assert(out[i] == rl[i]);
            if j < rl.len() {
                assert(out[j] == rl[j]);
            } else if j < rl.len() + et.len() {
                assert(out[j] == et[j - rl.len()]);
            } else {
                assert(out[j] == rg[j - rl.len() - et.len()]);
            }
        } else if i < rl.len() + et.len() {
            assert(out[i] == et[i - rl.len()]);
            if j < rl.len() + et.len() {
                assert(out[j] == et[j - rl.len()]);
            } else {
                assert(out[j] == rg[j - rl.len() - et.len()]);
            }
        } else {
            assert(out[i] == rg[i - rl.len() - et.len()]);
            assert(out[j] == rg[j - rl.len() - et.len()]);
        }
    }
    assert(sorted_by_key(out));
    // Groups of equal keys.
    assert forall|k: i64| #![trigger with_key(out, k)]
        (with_key(out, k) == with_key(input, k) || with_key(out, k).len() == 0) && (all_comparable(
            input,
        ) ==> with_key(out, k) == with_key(input, k)) by {
        lemma_with_key_add(rl + et, rg, k);
        lemma_with_key_add(rl, et, k);
        let ko = key_order(OrderKey::Value(k), pivot);
        if ko != Some(KeyOrder::Less) {
            assert forall|j: int| 0 <= j < rl.len() implies (#[trigger] rl[j]).1
                != OrderKey::Value(k) by {
                assert(key_order(rl[j].1, pivot) == Some(KeyOrder::Less));
            }
            lemma_with_key_absent(rl, k);
        }
        if ko != Some(KeyOrder::Equal) {
            assert forall|j: int| 0 <= j < et.len() implies (#[trigger] et[j]).1
                != OrderKey::Value(k) by {
                assert(key_order(et[j].1, pivot) == Some(KeyOrder::Equal));
            }
            lemma_with_key_absent(et, k);
        }
        if ko != Some(KeyOrder::Greater) {
            assert forall|j: int| 0 <= j < rg.len() implies (#[trigger] rg[j]).1
                != OrderKey::Value(k) by {
                assert(key_order(rg[j].1, pivot) == Some(KeyOrder::Greater));
            }
            lemma_with_key_absent(rg, k);
        }
        assert(with_key(lt, k) == if ko == Some(KeyOrder::Less) {
            with_key(input, k)
        } else {
            Seq::<(P, OrderKey)>::empty()
        });
        assert(with_key(et, k) == if ko == Some(KeyOrder::Equal) {
            with_key(input, k)
        } else {
            Seq::<(P, OrderKey)>::empty()
        });
        assert(with_key(gt, k) == if ko == Some(KeyOrder::Greater) {
            with_key(input, k)
        } else {
            Seq::<(P, OrderKey)>::empty()
        });
        assert(with_key(rl, k) == with_key(lt, k) || with_key(rl, k).len() == 0);
        assert(with_key(rg, k) == with_key(gt, k) || with_key(rg, k).len() == 0);
        assert(with_key(rl, k) == with_key(lt, k));
        assert(with_key(rg, k) == with_key(gt, k));
        if ko == Some(KeyOrder::Less) {
            assert(with_key(out, k) =~= with_key(rl, k));
        } else if ko == Some(KeyOrder::Equal) {
            assert(with_key(out, k) =~= with_key(et, k));
        } else if ko == Some(KeyOrder::Greater) {
            assert(with_key(out, k) =~= with_key(rg, k));
        } else {
            assert(with_key(out, k) =~= Seq::<(P, OrderKey)>::empty());
        }
    }
    // Lengths.
    if all_comparable(input) {
        assert(rl.len() == lt.len());
        assert(rg.len() == gt.len());
    }
    // An incomparable pivot keeps nothing.
    if pivot is Incomparable {
        if lt.len() > 0 {
            assert(key_order(lt[0].1, pivot) == Some(KeyOrder::Less));
        }
        if gt.len() > 0 {
            assert(key_order(gt[0].1, pivot) == Some(KeyOrder::Greater));
        }
        if et.len() > 0 {
            assert(key_order(et[0].1, pivot) == Some(KeyOrder::Equal));
        }
        assert(rl.len() == 0);
        assert(rg.len() == 0);
    }
}

proof fn lemma_with_key_prepend<P>(x: (P, OrderKey), s: Seq<(P, OrderKey)>, k: i64)
    ensures
        with_key(seq![x] + s, k) == (if x.1 == OrderKey::Value(k) {
            seq![x]
        } else {
            Seq::<(P, OrderKey)>::empty()
        }) + with_key(s, k),
{
    s.lemma_filter_prepend(x, |e: (P, OrderKey)| e.1 == OrderKey::Value(k));
}

/// An entry with key `k` of `s`, where `s` has any.
proof fn lemma_with_key_member<P>(s: Seq<(P, OrderKey)>, k: i64) -> (j: int)
    requires
        with_key(s, k).len() > 0,
    ensures
        0 <= j < s.len(),
        s[j].1 == OrderKey::Value(k),
{
    let pred = |e: (P, OrderKey)| e.1 == OrderKey::Value(k);
    s.lemma_filter_pred(pred, 0);
    assert(s.filter(pred).contains(s.filter(pred)[0]));
    s.lemma_filter_contains_rev(pred, s.filter(pred)[0]);
    choose|j: int| 0 <= j < s.len() && s[j] == s.filter(pred)[0]
}

/// Two sequences sorted by key, with the same entries of each key in the same order, are equal.
proof fn lemma_sorted_groups_unique<P>(a: Seq<(P, OrderKey)>, b: Seq<(P, OrderKey)>)
    requires
        sorted_by_key(a),
        sorted_by_key(b),
        forall|k: i64| #![trigger with_key(a, k)] with_key(a, k) == with_key(b, k),
    ensures
        a == b,
    decreases a.len(),
{
    if a.len() == 0 || b.len() == 0 {
        if b.len() > 0 {
            let k = b[0].1->Value_0;
            assert(b == seq![b[0]] + b.drop_first());
            lemma_with_key_prepend(b[0], b.drop_first(), k);
            assert(a == Seq::<(P, OrderKey)>::empty());
            lemma_with_key_of_empty::<P>(k);
            assert(with_key(a, k) == with_key(b, k));
        }
        if a.len() > 0 {
            let k = a[0].1->Value_0;
            assert(a == seq![a[0]] + a.drop_first());
            lemma_with_key_prepend(a[0], a.drop_first(), k);
            assert(b == Seq::<(P, OrderKey)>::empty());
            lemma_with_key_of_empty::<P>(k);
            assert(with_key(a, k) == with_key(b, k));
        }
        assert(a =~= b);
    } else {
        let ka = a[0].1->Value_0;
        let kb = b[0].1->Value_0;
        let ar = a.drop_first();
        let br = b.drop_first();
        assert(a == seq![a[0]] + ar);
        assert(b == seq![b[0]] + br);
        lemma_with_key_prepend(a[0], ar, ka);
        lemma_with_key_prepend(b[0], br, kb);
        // The first keys agree: each is the least key of both sequences.
        assert(with_key(a, ka) == with_key(b, ka));
        assert(with_key(a, kb) == with_key(b, kb));
        let jb = lemma_with_key_member(b, ka);
        let ja = lemma_with_key_member(a, kb);
        if jb > 0 {
            assert(key_value(b[0].1) <= key_value(b[jb].1));
        }
        if ja > 0 {
            assert(key_value(a[0].1) <= key_value(a[ja].1));
        }
        assert(ka == kb);
        assert(with_key(a, ka)[0] == a[0]);
        assert(with_key(b, ka)[0] == b[0]);
        assert(a[0] == b[0]);
        // The rests have the same groups.
        assert forall|k: i64| #![trigger with_key(ar, k)] with_key(ar, k) == with_key(br, k) by {
            lemma_with_key_prepend(a[0], ar, k);
            lemma_with_key_prepend(b[0], br, k);
            assert(with_key(a, k) == with_key(b, k));
            let pre = if a[0].1 == OrderKey::Value(k) {
                seq![a[0]]
            } else {
                Seq::<(P, OrderKey)>::empty()
            };
            assert(with_key(ar, k) =~= (pre + with_key(ar, k)).skip(pre.len() as int));
            assert(with_key(br, k) =~= (pre + with_key(br, k)).skip(pre.len() as int));
        }
        assert forall|i: int| 0 <= i < ar.len() implies (#[trigger] ar[i]).1 is Value by {
            assert(ar[i] == a[i + 1]);
        }
        assert forall|i: int, j: int|
            0 <= i < j < ar.len() implies key_value((#[trigger] ar[i]).1) <= key_value(
            (#[trigger] ar[j]).1,
        ) by {
            assert(ar[i] == a[i + 1] && ar[j] == a[j + 1]);
        }
        assert forall|i: int| 0 <= i < br.len() implies (#[trigger] br[i]).1 is Value by {
            assert(br[i] == b[i + 1]);
        }
        assert forall|i: int, j: int|
            0 <= i < j < br.len() implies key_value((#[trigger] br[i]).1) <= key_value(
            (#[trigger] br[j]).1,
        ) by {
            assert(br[i] == b[i + 1] && br[j] == b[j + 1]);
        }
        lemma_sorted_groups_unique(ar, br);
    }
}

/// Sorting entries whose keys are all comparable has exactly one outcome: the stable sort
/// of the entries by key. So `sort`'s contract fixes its result on such input.
pub proof fn lemma_sort_outcome_unique<P>(
    input: Seq<(P, OrderKey)>,
    o1: Seq<(P, OrderKey)>,
    o2: Seq<(P, OrderKey)>,
)
    requires
        all_comparable(input),
        sort_outcome(input, o1),
        sort_outcome(input, o2),
    ensures
        o1 == o2,
{
    assert forall|k: i64| #![trigger with_key(o1, k)] with_key(o1, k) == with_key(o2, k) by {
        assert(with_key(o1, k) == with_key(input, k));
        assert(with_key(o2, k) == with_key(input, k));
    }
    lemma_sorted_groups_unique(o1, o2);
}

/// Sorting entries that are already sorted by key changes nothing.
pub proof fn lemma_sort_keeps_sorted_input<P>(input: Seq<(P, OrderKey)>, output: Seq<(P, OrderKey)>)
    requires
        sorted_by_key(input),
        sort_outcome(input, output),
    ensures
        output == input,
{
    assert forall|k: i64| #![trigger with_key(output, k)] with_key(output, k) == with_key(input, k) by {
    }
    lemma_sorted_groups_unique(output, input);
}

} // verus!
