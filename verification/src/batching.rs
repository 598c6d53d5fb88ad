//! Length-based batching: sentences are visited by ascending piece count
//! and cut into consecutive batches, while every sentence keeps its place
//! in the input.

use vstd::prelude::*;

verus! {

/// Sentence `a` is tagged before sentence `b`: it has fewer pieces, or as
/// many and an earlier place in the input.
pub open spec fn comes_before(counts: Seq<usize>, a: int, b: int) -> bool {
    counts[a] < counts[b] || (counts[a] == counts[b] && a < b)
}

/// Some place of `order` holds the input position `v`.
pub open spec fn occurs(order: Seq<usize>, v: int) -> bool {
    exists|i: int| 0 <= i < order.len() && #[trigger] order[i] == v
}

/// `order` lists every input position once, by ascending piece count, with
/// equal counts in input order.
pub open spec fn is_length_order(counts: Seq<usize>, order: Seq<usize>) -> bool {
    &&& order.len() == counts.len()
    &&& forall|i: int| 0 <= i < order.len() ==> (#[trigger] order[i]) < counts.len()
    &&& forall|i: int, j: int|
        0 <= i < j < order.len() ==> comes_before(
            counts,
            #[trigger] order[i] as int,
            #[trigger] order[j] as int,
        )
    &&& forall|v: int| 0 <= v < counts.len() ==> #[trigger] occurs(order, v)
}

/// `batches` cuts `order` into consecutive runs of `size` items, the last
/// one possibly shorter and none empty. A size of 0 gives no batch at all.
pub open spec fn is_chunking(order: Seq<usize>, size: nat, batches: Seq<Vec<usize>>) -> bool {
    if size == 0 || order.len() == 0 {
        batches.len() == 0
    } else {
        &&& batches.len() > 0
        &&& forall|b: int| 0 <= b < batches.len() - 1 ==> (#[trigger] batches[b])@.len() == size
        &&& 1 <= batches.last()@.len() <= size
        &&& (batches.len() - 1) * size + batches.last()@.len() == order.len()
        &&& forall|b: int|
            0 <= b < batches.len() ==> (#[trigger] batches[b])@ == order.subrange(
                b * size,
                b * size + batches[b]@.len(),
            )
    }
}

/// The input positions by ascending piece count; sentences with equal
/// counts stay in input order.
pub fn length_order(counts: &Vec<usize>) -> (order: Vec<usize>)
    ensures
        is_length_order(counts@, order@),
{
    let mut order: Vec<usize> = Vec::new();
    let mut k: usize = 0;
    while k < counts.len()
        invariant
            k <= counts.len(),
            order@.len() == k,
            forall|i: int| 0 <= i < order@.len() ==> (#[trigger] order@[i]) < k,
            forall|i: int, j: int|
                0 <= i < j < order@.len() ==> comes_before(
                    counts@,
                    #[trigger] order@[i] as int,
                    #[trigger] order@[j] as int,
                ),
            forall|v: int| 0 <= v < k ==> #[trigger] occurs(order@, v),
        decreases counts.len() - k,
    {
        let own: usize = counts[k];
        let mut p: usize = order.len();
        while p > 0 && counts[order[p - 1]] > own
            invariant
                p <= order@.len(),
                order@.len() == k,
                k < counts.len(),
                own == counts@[k as int],
                forall|i: int| 0 <= i < order@.len() ==> (#[trigger] order@[i]) < k,
                forall|j: int| p <= j < order@.len() ==> counts@[(#[trigger] order@[j]) as int] > own,
            decreases p,
        {
            p -= 1;
        }
        let ghost before = order@;
        order.insert(p, k);
        proof {
            let after = order@;
            assert forall|i: int, j: int| 0 <= i < j < after.len() implies comes_before(
                counts@,
                #[trigger] after[i] as int,
                #[trigger] after[j] as int,
            ) by {
                if j < p {
                    assert(after[i] == before[i] && after[j] == before[j]);
                } else if j == p {
                    assert(after[i] == before[i]);
                    if i < p - 1 {
                        assert(comes_before(counts@, before[i] as int, before[p - 1] as int));
                    }
                } else if i < p {
                    assert(after[i] == before[i] && after[j] == before[j - 1]);
                    if i < j - 1 {
                        assert(comes_before(counts@, before[i] as int, before[j - 1] as int));
                    }
                } else if i == p {
                    assert(after[j] == before[j - 1]);
                } else {
                    assert(after[i] == before[i - 1] && after[j] == before[j - 1]);
                }
            }
            assert forall|v: int| 0 <= v < k + 1 implies #[trigger] occurs(after, v) by {
                if v == k {
                    assert(after[p as int] == v);
                } else {
                    assert(occurs(before, v));
                    let i = choose|i: int| 0 <= i < before.len() && #[trigger] before[i] == v;
                    if i < p {
                        assert(after[i] == v);
                    } else {
                        assert(after[i + 1] == v);
                    }
                }
            }
            assert forall|i: int| 0 <= i < after.len() implies (#[trigger] after[i]) < k + 1 by {
                if i < p {
                    assert(after[i] == before[i]);
                } else if i > p {
                    assert(after[i] == before[i - 1]);
                }
            }
        }
        k += 1;
    }
    order
}

/// The items of `order` from `from` up to `to`.
fn copy_run(order: &Vec<usize>, from: usize, to: usize) -> (run: Vec<usize>)
    requires
        from <= to <= order@.len(),
    ensures
        run@ == order@.subrange(from as int, to as int),
{
    let mut run: Vec<usize> = Vec::new();
    let mut i: usize = from;
    while i < to
        invariant
            from <= i <= to <= order@.len(),
            run@ == order@.subrange(from as int, i as int),
        decreases to - i,
    {
        run.push(order[i]);
        i += 1;
        assert(run@ =~= order@.subrange(from as int, i as int));
    }
    run
}

/// Cuts `order` into consecutive batches of at most `size` items.
pub fn chunks(order: &Vec<usize>, size: usize) -> (batches: Vec<Vec<usize>>)
    ensures
        is_chunking(order@, size as nat, batches@),
{
    let mut batches: Vec<Vec<usize>> = Vec::new();
    if size == 0 {
        return batches;
    }
    let n: usize = order.len();
    let mut start: usize = 0;
    proof {
        let len = batches@.len() as int;
        let s = size as int;
        assert(len == 0 ==> len * s == 0) by (nonlinear_arith);
    }
    while n - start >= size
        invariant
            size >= 1,
            n == order@.len(),
            start <= n,
            start == batches@.len() * size,
            forall|b: int| 0 <= b < batches@.len() ==> (#[trigger] batches@[b])@.len() == size,
            forall|b: int|
                0 <= b < batches@.len() ==> (#[trigger] batches@[b])@ == order@.subrange(
                    b * size,
                    b * size + size,
                ),
        decreases n - start,
    {
        let run = copy_run(order, start, start + size);
        proof {
            let len = batches@.len() as int;
            let s = size as int;
            assert((len + 1) * s == len * s + s) by (nonlinear_arith);
        }
        batches.push(run);
        start += size;
    }
    if start < n {
        let run = copy_run(order, start, n);
        batches.push(run);
    } else {
        proof {
            let len = batches@.len() as int;
            let s = size as int;
            if len > 0 {
                assert((len - 1) * s + s == len * s) by (nonlinear_arith);
            }
        }
    }
    batches
}

/// Some place of some batch holds the input position `v`.
pub open spec fn held(batches: Seq<Vec<usize>>, v: int) -> bool {
    exists|b: int, j: int|
        0 <= b < batches.len() && 0 <= j < batches[b]@.len() && #[trigger] batches[b]@[j] == v
}

/// The place in the visiting order of item `j` of batch `b`.
pub open spec fn place(size: nat, b: int, j: int) -> int {
    b * size + j
}

/// With a batch size of at least 1, the batches hold every input position
/// exactly once and nothing else, and no batch is empty or longer than the
/// batch size.
pub proof fn batches_hold_each_sentence_once(
    counts: Seq<usize>,
    order: Seq<usize>,
    size: nat,
    batches: Seq<Vec<usize>>,
)
    requires
        is_length_order(counts, order),
        is_chunking(order, size, batches),
        size >= 1,
    ensures
        forall|b: int| 0 <= b < batches.len() ==> 1 <= (#[trigger] batches[b])@.len() <= size,
        forall|v: int| 0 <= v < counts.len() ==> #[trigger] held(batches, v),
        forall|b: int, j: int|
            0 <= b < batches.len() && 0 <= j < batches[b]@.len() ==> (#[trigger] batches[b]@[j])
                < counts.len(),
        forall|b: int, j: int, c: int, i: int|
            0 <= b < batches.len() && 0 <= j < batches[b]@.len() && 0 <= c < batches.len() && 0
                <= i < batches[c]@.len() && #[trigger] batches[b]@[j] == #[trigger] batches[c]@[i]
                ==> b == c && j == i,
{
    let count = batches.len() as int;
    let s = size as int;
    let n = order.len() as int;
    let last = if n == 0 {
        1
    } else {
        batches.last()@.len() as int
    };
    assert forall|b: int, j: int| 0 <= b < count && 0 <= j < batches[b]@.len() implies 0 <= place(
        size,
        b,
        j,
    ) < n && #[trigger] batches[b]@[j] == order[place(size, b, j)] && batches[b]@[j]
        < counts.len() by {
        let len = batches[b]@.len() as int;
        assert(n > 0);
        assert(0 <= b * s && b * s + len <= n) by (nonlinear_arith)
            requires
                0 <= b < count,
                s >= 1,
                (count - 1) * s + last == n,
                b < count - 1 ==> len == s,
                b == count - 1 ==> len == last,
                last >= 1,
        ;
        assert(batches[b]@ == order.subrange(b * s, b * s + len));
    }
    assert forall|v: int| 0 <= v < counts.len() implies #[trigger] held(batches, v) by {
        assert(occurs(order, v));
        let p = choose|p: int| 0 <= p < order.len() && #[trigger] order[p] == v;
        assert(n > 0);
        let b = p / s;
        let j = p % s;
        assert(p == b * s + j && 0 <= j < s && 0 <= b) by (nonlinear_arith)
            requires
                b == p / s,
                j == p % s,
                s >= 1,
                p >= 0,
        ;
        assert(b < count && (b == count - 1 ==> j < last)) by (nonlinear_arith)
            requires
                p == b * s + j,
                0 <= j < s,
                0 <= b,
                p < n,
                (count - 1) * s + last == n,
                1 <= last <= s,
                s >= 1,
                count >= 1,
        ;
        assert(0 <= j < batches[b]@.len());
        assert(batches[b]@[j] == order[place(size, b, j)]);
    }
    assert forall|b: int, j: int, c: int, i: int|
        0 <= b < count && 0 <= j < batches[b]@.len() && 0 <= c < count && 0 <= i
            < batches[c]@.len() && #[trigger] batches[b]@[j] == #[trigger] batches[c]@[i] implies b
        == c && j == i by {
        let p = place(size, b, j);
        let q = place(size, c, i);
        assert(batches[b]@[j] == order[p]);
        assert(batches[c]@[i] == order[q]);
        if p < q {
            assert(comes_before(counts, order[p] as int, order[q] as int));
        }
        if q < p {
            assert(comes_before(counts, order[q] as int, order[p] as int));
        }
        assert(p == q);
        assert(b == c && j == i) by (nonlinear_arith)
            requires
                b * s + j == c * s + i,
                0 <= j < s,
                0 <= i < s,
                s >= 1,
        ;
    }
}

} // verus!
