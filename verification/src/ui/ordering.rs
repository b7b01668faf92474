//! Order values for inserting and pasting tasks between their neighbours.
//!
//! Tasks are listed by their `order` field; a new task gets an order between
//! the orders of the rows it goes between, or one gap past the end when there
//! is no room.

use vstd::prelude::*;

use crate::database::models::{ORDER_GAP, Task};

verus! {

/// The orders of `tasks`, in list order.
pub open spec fn orders(tasks: Seq<Task>) -> Seq<u64> {
    tasks.map_values(|t: Task| t.order)
}

/// The order of the last row, or 0 for an empty list.
pub open spec fn last_order(os: Seq<u64>) -> int {
    if os.len() == 0 { 0 } else { os.last() as int }
}

/// The largest order, or 0 for an empty list.
pub open spec fn max_order(os: Seq<u64>) -> int
    decreases os.len(),
{
    if os.len() == 0 {
        0
    } else {
        let m = max_order(os.drop_last());
        if os.last() as int > m { os.last() as int } else { m }
    }
}

/// `order_below` runs without overflow on these orders.
pub open spec fn below_defined(os: Seq<u64>, idx: int) -> bool {
    &&& 0 <= idx < os.len()
    &&& if idx + 1 < os.len() {
        &&& os[idx] < u64::MAX
        &&& (os[idx + 1] > os[idx] + 1 ==> os[idx] + os[idx + 1] <= u64::MAX)
        &&& (os[idx + 1] <= os[idx] + 1 ==> last_order(os) + ORDER_GAP <= u64::MAX)
    } else {
        os[idx] + ORDER_GAP <= u64::MAX
    }
}

/// The order that places a new row right after row `idx`.
pub open spec fn below_value(os: Seq<u64>, idx: int) -> int {
    if idx + 1 < os.len() {
        if os[idx + 1] > os[idx] + 1 {
            (os[idx] + os[idx + 1]) / 2
        } else {
            last_order(os) + ORDER_GAP
        }
    } else {
        os[idx] + ORDER_GAP
    }
}

/// `order_above` runs without overflow on these orders.
pub open spec fn above_defined(os: Seq<u64>, idx: int) -> bool {
    &&& 0 <= idx < os.len()
    &&& idx > 0 ==> os[idx - 1] < u64::MAX
    &&& idx > 0 && os[idx] > os[idx - 1] + 1 ==> os[idx - 1] + os[idx] <= u64::MAX
    &&& idx > 0 && os[idx] <= os[idx - 1] + 1 ==> last_order(os) + ORDER_GAP <= u64::MAX
}

/// The order that places a new row right before row `idx`.
pub open spec fn above_value(os: Seq<u64>, idx: int) -> int {
    if idx > 0 {
        if os[idx] > os[idx - 1] + 1 {
            (os[idx - 1] + os[idx]) / 2
        } else {
            last_order(os) + ORDER_GAP
        }
    } else if os[idx] > 1 {
        os[idx] as int / 2
    } else {
        ORDER_GAP as int
    }
}

/// Returns an order value that places a new task immediately after `tasks[idx]`.
pub fn order_below(tasks: &[Task], idx: usize) -> (o: u64)
    requires
        below_defined(orders(tasks@), idx as int),
    ensures
        o == below_value(orders(tasks@), idx as int),
{
    let ghost os = orders(tasks@);
    assert(os[idx as int] == tasks@[idx as int].order);
    let current = tasks[idx].order;
    if idx + 1 < tasks.len() {
        assert(os[idx + 1] == tasks@[idx + 1].order);
        let next = tasks[idx + 1].order;
        if next > current + 1 {
            (current + next) / 2
        } else {
            let n = tasks.len();
            assert(os.last() == tasks@[n - 1].order);
            tasks[n - 1].order + ORDER_GAP
        }
    } else {
        current + ORDER_GAP
    }
}

/// Returns an order value that places a new task immediately before `tasks[idx]`.
pub fn order_above(tasks: &[Task], idx: usize) -> (o: u64)
    requires
        above_defined(orders(tasks@), idx as int),
    ensures
        o == above_value(orders(tasks@), idx as int),
{
    let ghost os = orders(tasks@);
    assert(os[idx as int] == tasks@[idx as int].order);
    let current = tasks[idx].order;
    if idx > 0 {
        assert(os[idx - 1] == tasks@[idx - 1].order);
        let prev = tasks[idx - 1].order;
        if current > prev + 1 {
            (prev + current) / 2
        } else {
            let n = tasks.len();
            assert(os.last() == tasks@[n - 1].order);
            tasks[n - 1].order + ORDER_GAP
        }
    } else if current > 1 {
        current / 2
    } else {
        ORDER_GAP
    }
}

/// Where there is room between a row and the next one, the new row's order
/// lies strictly between theirs; after the last row it lies past it.
pub proof fn law_order_below_between(os: Seq<u64>, idx: int)
    requires
        below_defined(os, idx),
    ensures
        idx + 1 < os.len() && os[idx + 1] > os[idx] + 1 ==> os[idx] < below_value(os, idx) < os[idx + 1],
        idx + 1 == os.len() ==> below_value(os, idx) > os[idx],
        idx + 1 < os.len() && os[idx + 1] <= os[idx] + 1 ==> below_value(os, idx) > os.last(),
{
}

/// Where there is room between a row and the previous one, the new row's
/// order lies strictly between theirs; above a first row of order above 1 it
/// lies strictly between 0 and that row's.
pub proof fn law_order_above_between(os: Seq<u64>, idx: int)
    requires
        above_defined(os, idx),
    ensures
        idx > 0 && os[idx] > os[idx - 1] + 1 ==> os[idx - 1] < above_value(os, idx) < os[idx],
        idx == 0 && os[idx] > 1 ==> 0 < above_value(os, idx) < os[idx],
        idx > 0 && os[idx] <= os[idx - 1] + 1 ==> above_value(os, idx) > os.last(),
{
}

/// `paste_orders` runs without overflow.
pub open spec fn paste_defined(os: Seq<u64>, idx: Option<usize>, above: bool, n: int) -> bool {
    &&& 0 <= n < u64::MAX
    &&& max_order(os) + n * ORDER_GAP <= u64::MAX
    &&& match idx {
        None => true,
        Some(i) => {
            &&& i < os.len()
            &&& !above ==> os[i as int] + ORDER_GAP * (n + 1) <= u64::MAX
        },
    }
}

/// The bounds `(lo, hi)` that pasted rows go between, for a cursor row `i`.
pub open spec fn paste_bounds(os: Seq<u64>, i: int, above: bool, n: int) -> (int, int) {
    if above {
        (if i > 0 { os[i - 1] as int } else { 0 }, os[i] as int)
    } else {
        (os[i] as int, if i + 1 < os.len() { os[i + 1] as int } else { os[i] + ORDER_GAP * (n + 1) })
    }
}

/// The spacing of `n` rows pasted between `lo` and `hi`.
pub open spec fn paste_step(lo: int, hi: int, n: int) -> int {
    (if hi > lo { hi - lo } else { 0 }) / (n + 1)
}

/// The orders `n` pasted rows get: evenly spaced between the cursor row and its
/// neighbour, or, with no cursor or no room, one gap apart after the largest order.
pub open spec fn paste_values(os: Seq<u64>, idx: Option<usize>, above: bool, n: int) -> Seq<int> {
    let append = Seq::new(n as nat, |k: int| max_order(os) + (k + 1) * ORDER_GAP);
    match idx {
        None => append,
        Some(i) => {
            let (lo, hi) = paste_bounds(os, i as int, above, n);
            let step = paste_step(lo, hi, n);
            if step == 0 {
                append
            } else {
                Seq::new(n as nat, |k: int| lo + (k + 1) * step)
            }
        },
    }
}

/// Every order is at most the largest one, which is itself a `u64` value.
pub proof fn lemma_max_order(os: Seq<u64>)
    ensures
        max_order(os) >= 0,
        forall|i: int| 0 <= i < os.len() ==> os[i] <= max_order(os),
        max_order(os) <= u64::MAX,
    decreases os.len(),
{
    if os.len() > 0 {
        lemma_max_order(os.drop_last());
        assert forall|i: int| 0 <= i < os.len() implies os[i] <= max_order(os) by {
            if i < os.len() - 1 {
                assert(os[i] == os.drop_last()[i]);
            }
        }
    }
}

/// The largest order of `tasks`, or 0 for an empty list.
pub fn max_task_order(tasks: &[Task]) -> (m: u64)
    ensures
        m == max_order(orders(tasks@)),
{
    let ghost os = orders(tasks@);
    let mut m: u64 = 0;
    let mut i: usize = 0;
    while i < tasks.len()
        invariant
            os == orders(tasks@),
            i <= tasks@.len(),
            m == max_order(os.subrange(0, i as int)),
        decreases tasks@.len() - i,
    {
        assert(os.subrange(0, i + 1).drop_last() =~= os.subrange(0, i as int));
        assert(os.subrange(0, i + 1).last() == tasks@[i as int].order);
        proof {
            lemma_max_order(os.subrange(0, i as int));
        }
        if tasks[i].order > m {
            m = tasks[i].order;
        }
        i = i + 1;
    }
    assert(os.subrange(0, tasks@.len() as int) =~= os);
    m
}

/// The `n` values `base + k * step` for `k` in `1..=n`.
fn spaced(base: u64, step: u64, n: usize) -> (v: Vec<u64>)
    requires
        base + n * step <= u64::MAX,
    ensures
        v@.len() == n,
        forall|k: int| 0 <= k < n ==> v@[k] == base + (k + 1) * step,
{
    let mut v: Vec<u64> = Vec::new();
    let mut k: usize = 0;
    while k < n
        invariant
            base + n * step <= u64::MAX,
            k <= n,
            v@.len() == k,
            forall|j: int| 0 <= j < k ==> v@[j] == base + (j + 1) * step,
        decreases n - k,
    {
        assert((k + 1) * step <= n * step) by (nonlinear_arith)
            requires
                k < n,
        ;
        let kk = k as u64 + 1;
        v.push(base + kk * step);
        k = k + 1;
    }
    v
}

/// `n` evenly spaced order values placed below / above `tasks[idx]`. Falls back to
/// appending at the end when there's no cursor or no room between neighbours.
pub fn paste_orders(tasks: &[Task], idx: Option<usize>, above: bool, n: usize) -> (v: Vec<u64>)
    requires
        paste_defined(orders(tasks@), idx, above, n as int),
    ensures
        v@.len() == n,
        forall|k: int| 0 <= k < n ==> v@[k] as int == #[trigger] paste_values(orders(tasks@), idx, above, n as int)[k],
{
    let ghost os = orders(tasks@);
    proof {
        lemma_max_order(os);
    }
    let base = max_task_order(tasks);
    match idx {
        None => {
            return spaced(base, ORDER_GAP, n);
        },
        Some(i) => {
            assert(os[i as int] == tasks@[i as int].order);
            let here = tasks[i].order;
            let nn: u64 = n as u64 + 1;
            let (lo, hi) = if above {
                let prev = if i > 0 {
                    assert(os[i - 1] == tasks@[i - 1].order);
                    tasks[i - 1].order
                } else {
                    0
                };
                (prev, here)
            } else {
                let fallback = here + ORDER_GAP * nn;
                let next = if i + 1 < tasks.len() {
                    assert(os[i + 1] == tasks@[i + 1].order);
                    tasks[i + 1].order
                } else {
                    fallback
                };
                (here, next)
            };
            assert((lo as int, hi as int) == paste_bounds(os, i as int, above, n as int));
            let diff = if hi > lo { hi - lo } else { 0 };
            let step = diff / nn;
            if step == 0 {
                return spaced(base, ORDER_GAP, n);
            }
            assert(n * step <= diff) by (nonlinear_arith)
                requires
                    step == diff / nn,
                    nn == n + 1,
                    diff >= 0,
            ;
            spaced(lo, step, n)
        },
    }
}

/// Pasted rows come out in strictly increasing order; with room at the
/// cursor they lie strictly between the cursor row and its neighbour, and
/// otherwise strictly after every existing row.
pub proof fn law_paste_orders_spread(os: Seq<u64>, idx: Option<usize>, above: bool, n: int)
    requires
        paste_defined(os, idx, above, n),
    ensures
        forall|a: int, b: int| 0 <= a < b < n ==> paste_values(os, idx, above, n)[a] < paste_values(os, idx, above, n)[b],
        idx is Some && paste_step(paste_bounds(os, idx.unwrap() as int, above, n).0, paste_bounds(os, idx.unwrap() as int, above, n).1, n) > 0
            ==> forall|k: int| 0 <= k < n ==> paste_bounds(os, idx.unwrap() as int, above, n).0 < #[trigger] paste_values(os, idx, above, n)[k] < paste_bounds(os, idx.unwrap() as int, above, n).1,
        (idx is None || paste_step(paste_bounds(os, idx.unwrap() as int, above, n).0, paste_bounds(os, idx.unwrap() as int, above, n).1, n) == 0)
            ==> forall|k: int, j: int| 0 <= k < n && 0 <= j < os.len() ==> #[trigger] os[j] < #[trigger] paste_values(os, idx, above, n)[k],
{
    lemma_max_order(os);
    let vals = paste_values(os, idx, above, n);
    match idx {
        None => {
            assert forall|a: int, b: int| 0 <= a < b < n implies vals[a] < vals[b] by {
                assert((a + 1) * ORDER_GAP < (b + 1) * ORDER_GAP) by (nonlinear_arith)
                    requires a < b;
            }
        },
        Some(i) => {
            let (lo, hi) = paste_bounds(os, i as int, above, n);
            let step = paste_step(lo, hi, n);
            if step == 0 {
                assert forall|a: int, b: int| 0 <= a < b < n implies vals[a] < vals[b] by {
                    assert((a + 1) * ORDER_GAP < (b + 1) * ORDER_GAP) by (nonlinear_arith)
                        requires a < b;
                }
            } else {
                let diff = if hi > lo { hi - lo } else { 0 };
                assert forall|a: int, b: int| 0 <= a < b < n implies vals[a] < vals[b] by {
                    assert((a + 1) * step < (b + 1) * step) by (nonlinear_arith)
                        requires a < b, step > 0;
                }
                assert forall|k: int| 0 <= k < n implies lo < #[trigger] vals[k] < hi by {
                    assert((k + 1) * step <= n * step) by (nonlinear_arith)
                        requires k < n, step > 0;
                    assert(n * step < diff) by (nonlinear_arith)
                        requires step == diff / (n + 1), n >= 0, diff >= 0, step > 0;
                    assert((k + 1) * step > 0) by (nonlinear_arith)
                        requires k >= 0, step > 0;
                }
            }
        },
    }
}

} // verus!
