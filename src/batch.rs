//! Cutting a channel list into contiguous batches of a fixed size.
use vstd::prelude::*;

verus! {

/// Number of batches needed for `n` channels, `b` at a time: `ceil(n / b)`.
pub open spec fn batch_count(n: nat, b: nat) -> nat
    recommends
        b > 0,
{
    ((n + b - 1) as nat / b) as nat
}

/// End (exclusive) of batch `i`: `min((i + 1) * b, n)`.
pub open spec fn batch_end(n: int, b: int, i: int) -> int {
    if (i + 1) * b < n {
        (i + 1) * b
    } else {
        n
    }
}

/// Batch `i` of `channels`: the slice `[i * b, min((i + 1) * b, len))`.
pub open spec fn batch_at<A>(channels: Seq<A>, b: nat, i: int) -> Seq<A> {
    channels.subrange(i * b, batch_end(channels.len() as int, b as int, i))
}

/// The batches that `plan` produces, as sequences.
pub open spec fn planned<A>(channels: Seq<A>, b: nat) -> Seq<Seq<A>> {
    Seq::new(batch_count(channels.len(), b), |i: int| batch_at(channels, b, i))
}

/// The contents of a list of batches.
pub open spec fn batches_view(batches: Seq<Vec<String>>) -> Seq<Seq<String>> {
    batches.map_values(|v: Vec<String>| v@)
}

proof fn lemma_count_exact(n: int, b: int, k: int)
    requires
        b > 0,
        k >= 0,
        n >= 0,
        (k - 1) * b < n || k == 0,
        n <= k * b,
    ensures
        batch_count(n as nat, b as nat) == k,
{
    if k == 0 {
        assert(n == 0) by (nonlinear_arith)
            requires
                n <= k * b,
                k == 0,
                n >= 0,
        ;
        vstd::arithmetic::div_mod::lemma_fundamental_div_mod_converse(n + b - 1, b, 0, b - 1);
    } else {
        assert(k * b == (k - 1) * b + b) by (nonlinear_arith);
        vstd::arithmetic::div_mod::lemma_fundamental_div_mod_converse(
            n + b - 1,
            b,
            k,
            n + b - 1 - k * b,
        );
    }
}

proof fn lemma_start_in_range(n: int, b: int, i: int)
    requires
        b > 0,
        n >= 0,
        0 <= i < batch_count(n as nat, b as nat),
    ensures
        i * b < n,
{
    let q = (n + b - 1) / b;
    vstd::arithmetic::div_mod::lemma_fundamental_div_mod(n + b - 1, b);
    vstd::arithmetic::div_mod::lemma_mod_bound(n + b - 1, b);
    assert(i * b < n) by (nonlinear_arith)
        requires
            n + b - 1 == b * q + (n + b - 1) % b,
            0 <= (n + b - 1) % b,
            i + 1 <= q,
            b > 0,
    ;
}

proof fn lemma_count_covers(n: int, b: int)
    requires
        b > 0,
        n >= 0,
    ensures
        n <= batch_count(n as nat, b as nat) * b,
{
    let q = (n + b - 1) / b;
    vstd::arithmetic::div_mod::lemma_fundamental_div_mod(n + b - 1, b);
    vstd::arithmetic::div_mod::lemma_mod_bound(n + b - 1, b);
    assert(n <= q * b) by (nonlinear_arith)
        requires
            n + b - 1 == b * q + (n + b - 1) % b,
            (n + b - 1) % b < b,
    ;
}

/// The first `k` batches joined give the channels up to the end of batch `k - 1`.
proof fn lemma_prefix_flatten<A>(channels: Seq<A>, b: nat, k: int)
    requires
        b > 0,
        0 <= k <= planned(channels, b).len(),
    ensures
        planned(channels, b).take(k).flatten_alt() =~= channels.subrange(
            0,
            if k == 0 {
                0
            } else {
                batch_end(channels.len() as int, b as int, k - 1)
            },
        ),
    decreases k,
{
    let n = channels.len() as int;
    let s = planned(channels, b);
    if k == 0 {
        assert(s.take(0) =~= Seq::<Seq<A>>::empty());
    } else {
        let j = k - 1;
        lemma_prefix_flatten(channels, b, j);
        lemma_start_in_range(n, b as int, j);
        assert(s.take(k).drop_last() =~= s.take(j));
        assert(j * b >= 0) by (nonlinear_arith)
            requires
                j >= 0,
        ;
        if j > 0 {
            assert(batch_end(n, b as int, j - 1) == j * b) by {
                assert((j - 1 + 1) * b == j * b);
            }
        }
        assert((j + 1) * b == j * b + b) by (nonlinear_arith);
        assert(s.take(k).last() == s[j]);
        assert(channels.subrange(0, j * b) + channels.subrange(j * b, batch_end(n, b as int, j))
            =~= channels.subrange(0, batch_end(n, b as int, j)));
    }
}

/// Each batch is a well-formed slice of the list: `0 <= i * b <= end <= len`.
pub proof fn lemma_batch_bounds(n: nat, b: nat, i: int)
    requires
        b > 0,
        0 <= i < batch_count(n, b),
    ensures
        0 <= i * b <= batch_end(n as int, b as int, i) <= n,
{
    lemma_start_in_range(n as int, b as int, i);
    assert((i + 1) * b == i * b + b) by (nonlinear_arith);
    assert(i * b >= 0) by (nonlinear_arith)
        requires
            i >= 0,
    ;
}

/// Batches partition the channel list: there are `ceil(len / b)` of them,
/// joined in order they give back the list, none is empty, and each but the
/// last holds exactly `b` channels.
pub proof fn lemma_plan_partitions<A>(channels: Seq<A>, b: nat)
    requires
        b > 0,
    ensures
        planned(channels, b).len() == batch_count(channels.len(), b),
        planned(channels, b).flatten() == channels,
        forall|i: int|
            0 <= i < planned(channels, b).len() ==> #[trigger] planned(channels, b)[i].len() > 0,
        forall|i: int|
            0 <= i < planned(channels, b).len() - 1 ==> #[trigger] planned(channels, b)[i].len()
                == b,
{
    let n = channels.len() as int;
    let s = planned(channels, b);
    let count = s.len() as int;
    assert forall|i: int| 0 <= i < count implies #[trigger] s[i].len() > 0 by {
        lemma_start_in_range(n, b as int, i);
        assert((i + 1) * b == i * b + b) by (nonlinear_arith);
        assert(i * b >= 0) by (nonlinear_arith)
            requires
                i >= 0,
        ;
        assert(batch_end(n, b as int, i) > i * b);
    }
    assert forall|i: int| 0 <= i < count - 1 implies #[trigger] s[i].len() == b by {
        lemma_start_in_range(n, b as int, i + 1);
        assert((i + 1) * b == i * b + b) by (nonlinear_arith);
        assert(i * b >= 0) by (nonlinear_arith)
            requires
                i >= 0,
        ;
    }
    lemma_prefix_flatten(channels, b, count);
    if count == 0 {
        assert(n == 0) by {
            lemma_count_covers(n, b as int);
        }
    } else {
        lemma_count_covers(n, b as int);
        assert(batch_end(n, b as int, count - 1) == n) by {
            assert((count - 1 + 1) * b == count * b);
        }
    }
    assert(s.take(count) =~= s);
    s.lemma_flatten_and_flatten_alt_are_equivalent();
}

/// Planning is deterministic: two plans of the same channels with the same
/// batch size hold the same batches in the same order.
pub proof fn lemma_plan_deterministic(
    channels: Seq<String>,
    b: nat,
    first: Seq<Vec<String>>,
    second: Seq<Vec<String>>,
)
    requires
        b > 0,
        batches_view(first) == planned(channels, b),
        batches_view(second) == planned(channels, b),
    ensures
        batches_view(first) == batches_view(second),
        first.len() == second.len(),
        forall|i: int| 0 <= i < first.len() ==> #[trigger] first[i]@ == second[i]@,
{
    assert(batches_view(first).len() == first.len());
    assert(batches_view(second).len() == second.len());
    assert forall|i: int| 0 <= i < first.len() implies #[trigger] first[i]@ == second[i]@ by {
        assert(batches_view(first)[i] == first[i]@);
        assert(batches_view(second)[i] == second[i]@);
    }
}

/// Splits `channels` into `ceil(len / batch_size)` contiguous batches, in
/// order; batch `i` holds the slice `[i * batch_size, min((i + 1) *
/// batch_size, len))`. An empty list gives no batch.
pub fn plan(channels: &Vec<String>, batch_size: usize) -> (batches: Vec<Vec<String>>)
    requires
        batch_size > 0,
    ensures
        batches_view(batches@) == planned(channels@, batch_size as nat),
{
    let n = channels.len();
    let b = batch_size;
    let mut batches: Vec<Vec<String>> = Vec::new();
    let mut start: usize = 0;
    assert(0 * b == 0) by (nonlinear_arith);
    while start < n
        invariant
            n == channels@.len(),
            b == batch_size,
            b > 0,
            start <= n,
            start == n || start as int == batches@.len() * b,
            start == n ==> (batches@.len() - 1) * b < n || batches@.len() == 0,
            start == n ==> n <= batches@.len() * b,
            forall|i: int|
                0 <= i < batches@.len() ==> #[trigger] batches@[i]@ == batch_at(
                    channels@,
                    b as nat,
                    i,
                ),
        decreases n - start,
    {
        let ghost k = batches@.len() as int;
        let end: usize = if n - start <= b {
            n
        } else {
            start + b
        };
        proof {
            assert((k + 1) * b == k * b + b) by (nonlinear_arith);
            assert(end as int == batch_end(n as int, b as int, k));
        }
        let mut batch: Vec<String> = Vec::new();
        let mut j: usize = start;
        while j < end
            invariant
                start <= j <= end <= n,
                n == channels@.len(),
                batch@ == channels@.subrange(start as int, j as int),
            decreases end - j,
        {
            batch.push(channels[j].clone());
            proof {
                assert(channels@.subrange(start as int, j + 1) =~= channels@.subrange(
                    start as int,
                    j as int,
                ).push(channels@[j as int]));
            }
            j = j + 1;
        }
        batches.push(batch);
        proof {
            assert(batches@[k]@ == batch_at(channels@, b as nat, k));
        }
        start = end;
    }
    proof {
        lemma_count_exact(n as int, b as int, batches@.len() as int);
        assert(batches_view(batches@) =~= planned(channels@, batch_size as nat));
    }
    batches
}

} // verus!
