//! Dealing a list of jobs out to workers, round-robin by index.

use vstd::prelude::*;
use vstd::arithmetic::div_mod::lemma_fundamental_div_mod_converse;

verus! {

/// The number of workers actually used for a requested count: at least one.
pub open spec fn spec_worker_count(requested: usize) -> nat {
    if requested == 0 {
        1
    } else {
        requested as nat
    }
}

/// How many of the indices `0..total` are congruent to `i` modulo `workers`.
pub open spec fn chunk_len(total: nat, workers: nat, i: nat) -> nat {
    if workers > 0 && i < workers && i < total {
        ((total - i - 1) / (workers as int) + 1) as nat
    } else {
        0
    }
}

/// The input index of the item that sits at position `k` of chunk `i`.
pub open spec fn source_index(workers: nat, i: nat, k: int) -> int {
    i + k * workers
}

/// Chunk `i` of `items` dealt out to `workers` workers: the items at indices
/// `i`, `i + workers`, `i + 2 * workers`, ... in that order.
pub open spec fn chunk<T>(items: Seq<T>, workers: nat, i: nat) -> Seq<T> {
    Seq::new(chunk_len(items.len(), workers, i), |k: int| items[source_index(workers, i, k)])
}

/// All `workers` chunks of `items`.
pub open spec fn round_robin<T>(items: Seq<T>, workers: nat) -> Seq<Seq<T>> {
    Seq::new(workers, |i: int| chunk(items, workers, i as nat))
}

/// Coerces a requested worker count to at least one.
pub fn worker_count(requested: usize) -> (n: usize)
    ensures
        n == spec_worker_count(requested),
        n >= 1,
{
    if requested == 0 {
        1
    } else {
        requested
    }
}

/// Every index counted by `chunk_len` lies inside `0..total`.
pub proof fn lemma_chunk_index_in_range(total: nat, workers: nat, i: nat, k: int)
    requires
        0 <= k < chunk_len(total, workers, i),
    ensures
        0 <= source_index(workers, i, k) < total,
{
    let d = total - i - 1;
    let w = workers as int;
    assert(k <= d / w);
    assert(k * w <= d) by (nonlinear_arith)
        requires
            0 <= k <= d / w,
            w > 0,
            d >= 0,
    ;
}

/// Adding one more item lengthens exactly the chunk of its index's residue.
pub proof fn lemma_chunk_len_step(total: nat, workers: nat, i: nat)
    requires
        workers > 0,
        i < workers,
    ensures
        chunk_len(total + 1, workers, i) == chunk_len(total, workers, i) + (if total % workers
            == i {
            1nat
        } else {
            0nat
        }),
        total % workers == i ==> source_index(
            workers,
            i,
            chunk_len(total, workers, i) as int,
        ) == total,
{
    let w = workers as int;
    if total < i {
        vstd::arithmetic::div_mod::lemma_small_mod(total, workers);
    } else if total == i {
        vstd::arithmetic::div_mod::lemma_small_mod(total, workers);
        assert(0int / w == 0) by (nonlinear_arith)
            requires
                w > 0,
        ;
        assert(0nat * workers == 0) by (nonlinear_arith);
    } else {
        let d = total - i - 1;
        let q = d / w;
        let r = d % w;
        vstd::arithmetic::div_mod::lemma_fundamental_div_mod(d, w);
        vstd::arithmetic::div_mod::lemma_mod_bound(d, w);
        assert(d == w * q + r);
        assert(q >= 0) by (nonlinear_arith)
            requires
                d == w * q + r,
                0 <= r < w,
                d >= 0,
        ;
        if r + 1 < w {
            lemma_fundamental_div_mod_converse(d + 1, w, q, r + 1);
            let s = i + r + 1;
            if s < w {
                lemma_fundamental_div_mod_converse(total as int, w, q, s);
            } else {
                assert(total == (q + 1) * w + (s - w)) by (nonlinear_arith)
                    requires
                        total == i + d + 1,
                        d == w * q + r,
                        s == i + r + 1,
                ;
                lemma_fundamental_div_mod_converse(total as int, w, q + 1, s - w);
            }
        } else {
            assert(d + 1 == (q + 1) * w + 0) by (nonlinear_arith)
                requires
                    d == w * q + r,
                    r + 1 == w,
            ;
            lemma_fundamental_div_mod_converse(d + 1, w, q + 1, 0);
            assert(total == (q + 1) * w + i) by (nonlinear_arith)
                requires
                    total == i + d + 1,
                    d + 1 == (q + 1) * w + 0,
            ;
            lemma_fundamental_div_mod_converse(total as int, w, q + 1, i as int);
            let len = chunk_len(total, workers, i);
            assert(len == q + 1);
            assert(i + len * workers == total) by (nonlinear_arith)
                requires
                    total == (q + 1) * w + i,
                    len == q + 1,
                    w == workers,
            ;
        }
    }
}

/// Appending an item extends the chunk of its index's residue and leaves
/// every other chunk as it was.
pub proof fn lemma_chunk_push<T>(items: Seq<T>, x: T, workers: nat, i: nat)
    requires
        workers > 0,
        i < workers,
    ensures
        chunk(items.push(x), workers, i) == if items.len() % workers == i {
            chunk(items, workers, i).push(x)
        } else {
            chunk(items, workers, i)
        },
{
    let total = items.len();
    let grown = chunk(items.push(x), workers, i);
    let before = chunk(items, workers, i);
    lemma_chunk_len_step(total, workers, i);
    assert forall|k: int| 0 <= k < before.len() implies grown[k] == before[k] by {
        lemma_chunk_index_in_range(total, workers, i, k);
    }
    if total % workers == i {
        assert(grown =~= before.push(x));
    } else {
        assert(grown =~= before);
    }
}

/// Splits `files` into exactly `max(requested_workers, 1)` chunks, the file at
/// index `j` going to chunk `j mod workers`, each chunk in input order.
///
/// Every chunk is made, also the empty ones when there are fewer files than
/// workers, so the memory used grows with the worker count.
pub fn partition(files: Vec<String>, requested_workers: usize) -> (chunks: Vec<Vec<String>>)
    ensures
        chunks@.len() == spec_worker_count(requested_workers),
        forall|i: int|
            0 <= i < chunks@.len() ==> #[trigger] chunks@[i]@ == chunk(
                files@,
                spec_worker_count(requested_workers),
                i as nat,
            ),
{
    let n = worker_count(requested_workers);
    let ghost items = files@;
    assert(items.len() == files.len());
    let mut chunks: Vec<Vec<String>> = Vec::new();
    let mut made: usize = 0;
    while made < n
        invariant
            made <= n,
            chunks@.len() == made,
            forall|i: int| 0 <= i < made ==> #[trigger] chunks@[i]@ == Seq::<String>::empty(),
        decreases n - made,
    {
        chunks.push(Vec::new());
        made += 1;
    }
    assert forall|i: int| 0 <= i < n implies #[trigger] chunks@[i]@ == chunk(
        items.take(0),
        n as nat,
        i as nat,
    ) by {
        assert(chunk(items.take(0), n as nat, i as nat) =~= Seq::<String>::empty());
    }
    let mut dealt: usize = 0;
    for file in it: files.into_iter()
        invariant
            n >= 1,
            dealt == it.index(),
            it.seq() == items,
            items.len() <= usize::MAX,
            chunks@.len() == n,
            forall|i: int|
                0 <= i < n ==> #[trigger] chunks@[i]@ == chunk(
                    items.take(dealt as int),
                    n as nat,
                    i as nat,
                ),
    {
        let slot = dealt % n;
        proof {
            assert(items.take(dealt as int).push(file) =~= items.take(dealt + 1));
            assert forall|i: int| 0 <= i < n implies chunk(
                items.take(dealt + 1),
                n as nat,
                i as nat,
            ) == if i == slot {
                chunks@[i]@.push(file)
            } else {
                chunks@[i]@
            } by {
                lemma_chunk_push(items.take(dealt as int), file, n as nat, i as nat);
            }
        }
        chunks[slot].push(file);
        dealt += 1;
    }
    proof {
        assert(items.take(dealt as int) =~= items);
    }
    chunks
}

/// A chunk is empty exactly when its index has no item of its own: with
/// `total` items and `workers` workers, the chunks `0..min(total, workers)`
/// hold something and the others hold nothing.
pub proof fn lemma_chunk_empty_iff(total: nat, workers: nat, i: nat)
    requires
        workers > 0,
        i < workers,
    ensures
        chunk_len(total, workers, i) == 0 <==> total <= i,
{
    if i < total {
        let d = total - i - 1;
        let w = workers as int;
        assert(d / w >= 0) by (nonlinear_arith)
            requires
                d >= 0,
                w > 0,
        ;
    }
}

/// Where an item lands: the item at index `j` is element `j / workers` of
/// chunk `j mod workers`, and of no other chunk position.
pub proof fn lemma_item_position<T>(items: Seq<T>, workers: nat, j: int)
    requires
        workers > 0,
        0 <= j < items.len(),
    ensures
        0 <= j / (workers as int) < chunk_len(items.len(), workers, (j % (workers as int)) as nat),
        chunk(items, workers, (j % (workers as int)) as nat)[j / (workers as int)] == items[j],
        forall|i: nat, k: int|
            i < workers && 0 <= k < chunk_len(items.len(), workers, i) && #[trigger] source_index(
                workers,
                i,
                k,
            ) == j ==> i == j % (workers as int) && k == j / (workers as int),
{
    let w = workers as int;
    let total = items.len() as int;
    let q = j / w;
    let r = j % w;
    vstd::arithmetic::div_mod::lemma_fundamental_div_mod(j, w);
    vstd::arithmetic::div_mod::lemma_mod_bound(j, w);
    assert(q >= 0) by (nonlinear_arith)
        requires
            j == w * q + r,
            0 <= r < w,
            j >= 0,
    ;
    let d = total - r - 1;
    let dq = d / w;
    let dr = d % w;
    vstd::arithmetic::div_mod::lemma_fundamental_div_mod(d, w);
    vstd::arithmetic::div_mod::lemma_mod_bound(d, w);
    assert(q <= dq) by (nonlinear_arith)
        requires
            d == w * dq + dr,
            0 <= dr < w,
            w * q <= d,
    ;
    assert(r + q * w == j) by (nonlinear_arith)
        requires
            j == w * q + r,
    ;
    assert forall|i: nat, k: int|
        i < workers && 0 <= k < chunk_len(items.len(), workers, i) && #[trigger] source_index(
            workers,
            i,
            k,
        ) == j implies i == r && k == q by {
        assert(j == k * w + i);
        lemma_fundamental_div_mod_converse(j, w, k, i as int);
    }
}

/// Appending to one inner sequence adds exactly that item to what the
/// sequences hold together.
proof fn lemma_flatten_grow<T>(parts: Seq<Seq<T>>, j: int, x: T)
    requires
        0 <= j < parts.len(),
    ensures
        parts.update(j, parts[j].push(x)).flatten().to_multiset() == parts.flatten().to_multiset().insert(
            x,
        ),
    decreases parts.len(),
{
    broadcast use vstd::seq_lib::group_to_multiset_ensures;

    let grown = parts.update(j, parts[j].push(x));
    let init = parts.drop_last();
    let last = parts.last();
    assert(parts =~= init.push(last));
    init.lemma_flatten_push(last);
    if j == parts.len() - 1 {
        assert(grown =~= init.push(last.push(x)));
        init.lemma_flatten_push(last.push(x));
        assert(init.flatten() + last.push(x) =~= (init.flatten() + last).push(x));
        vstd::seq_lib::to_multiset_build(init.flatten() + last, x);
    } else {
        let grown_init = init.update(j, init[j].push(x));
        assert(grown =~= grown_init.push(last));
        grown_init.lemma_flatten_push(last);
        lemma_flatten_grow(init, j, x);
        vstd::seq_lib::lemma_multiset_commutative(grown_init.flatten(), last);
        vstd::seq_lib::lemma_multiset_commutative(init.flatten(), last);
        assert(init.flatten().to_multiset().insert(x).add(last.to_multiset())
            =~= init.flatten().to_multiset().add(last.to_multiset()).insert(x));
    }
}

/// Sequences that are all empty hold nothing together.
proof fn lemma_flatten_of_empties<T>(parts: Seq<Seq<T>>)
    requires
        forall|i: int| 0 <= i < parts.len() ==> (#[trigger] parts[i]).len() == 0,
    ensures
        parts.flatten() == Seq::<T>::empty(),
    decreases parts.len(),
{
    if parts.len() > 0 {
        lemma_flatten_of_empties(parts.drop_first());
        assert(parts.first() =~= Seq::<T>::empty());
        assert(parts.flatten() =~= Seq::<T>::empty());
    }
}

/// Nothing is lost and nothing is made up: laid end to end, the chunks hold
/// exactly the items that were dealt, each as often as it was given.
pub proof fn lemma_round_robin_keeps_items<T>(items: Seq<T>, workers: nat)
    requires
        workers > 0,
    ensures
        round_robin(items, workers).flatten().to_multiset() == items.to_multiset(),
        round_robin(items, workers).flatten().len() == items.len(),
    decreases items.len(),
{
    broadcast use vstd::seq_lib::group_to_multiset_ensures;

    let chunks = round_robin(items, workers);
    if items.len() == 0 {
        lemma_flatten_of_empties(chunks);
        assert(items =~= Seq::<T>::empty());
    } else {
        let init = items.drop_last();
        let x = items.last();
        let j = (init.len() % workers) as int;
        let before = round_robin(init, workers);
        assert(items =~= init.push(x));
        vstd::arithmetic::div_mod::lemma_mod_bound(init.len() as int, workers as int);
        assert forall|i: int| 0 <= i < workers implies #[trigger] chunks[i] == before.update(
            j,
            before[j].push(x),
        )[i] by {
            lemma_chunk_push(init, x, workers, i as nat);
        }
        assert(chunks =~= before.update(j, before[j].push(x)));
        lemma_flatten_grow(before, j, x);
        lemma_round_robin_keeps_items(init, workers);
        vstd::seq_lib::to_multiset_build(init, x);
    }
    vstd::seq_lib::to_multiset_len(chunks.flatten());
    vstd::seq_lib::to_multiset_len(items);
}

/// What the workers produce when worker `i` turns each item of chunk `i`
/// into `outcome_of` that item.
pub open spec fn worker_results<T, R>(items: Seq<T>, workers: nat, outcome_of: spec_fn(T) -> R) -> Seq<
    Seq<R>,
> {
    Seq::new(workers, |i: int| chunk(items, workers, i as nat).map_values(outcome_of))
}

/// One result per item, whoever produced it: as long as the result for an
/// item depends on the item alone, the results of all workers together are
/// the results of the items given, each as often as its item was given.
pub proof fn lemma_one_result_per_item<T, R>(
    items: Seq<T>,
    workers: nat,
    outcome_of: spec_fn(T) -> R,
)
    requires
        workers > 0,
    ensures
        worker_results(items, workers, outcome_of).flatten().to_multiset() == items.map_values(
            outcome_of,
        ).to_multiset(),
        worker_results(items, workers, outcome_of).flatten().len() == items.len(),
{
    let results = items.map_values(outcome_of);
    let produced = worker_results(items, workers, outcome_of);
    let dealt = round_robin(results, workers);
    assert forall|i: int| 0 <= i < workers implies #[trigger] produced[i] == dealt[i] by {
        let mine = chunk(items, workers, i as nat);
        assert forall|k: int| 0 <= k < mine.len() implies mine.map_values(outcome_of)[k]
            == dealt[i][k] by {
            lemma_chunk_index_in_range(items.len(), workers, i as nat, k);
        }
        assert(produced[i] =~= dealt[i]);
    }
    assert(produced =~= dealt);
    lemma_round_robin_keeps_items(results, workers);
}

/// The number of workers changes who reads a file, not what is read: two
/// worker counts deal out the same multiset of items, and produce the same
/// multiset of results.
pub proof fn lemma_worker_count_invariance<T, R>(
    items: Seq<T>,
    outcome_of: spec_fn(T) -> R,
    workers_a: nat,
    workers_b: nat,
)
    requires
        workers_a > 0,
        workers_b > 0,
    ensures
        round_robin(items, workers_a).flatten().to_multiset() == round_robin(
            items,
            workers_b,
        ).flatten().to_multiset(),
        worker_results(items, workers_a, outcome_of).flatten().to_multiset() == worker_results(
            items,
            workers_b,
            outcome_of,
        ).flatten().to_multiset(),
{
    lemma_round_robin_keeps_items(items, workers_a);
    lemma_round_robin_keeps_items(items, workers_b);
    lemma_one_result_per_item(items, workers_a, outcome_of);
    lemma_one_result_per_item(items, workers_b, outcome_of);
}

} // verus!
