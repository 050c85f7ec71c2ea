//! Delta coding: a column stores each value as the difference from the one before.
use vstd::prelude::*;
use crate::error::PbfError;

verus! {

/// The accumulator after the first `n` deltas have been added to `start`.
pub open spec fn running_sum(deltas: Seq<int>, start: int, n: nat) -> int
    decreases n,
{
    if n == 0 {
        start
    } else {
        running_sum(deltas, start, (n - 1) as nat) + deltas[n - 1]
    }
}

/// The absolute values that a delta-coded column stands for.
pub open spec fn accumulate(deltas: Seq<int>, start: int) -> Seq<int> {
    Seq::new(deltas.len(), |i: int| running_sum(deltas, start, (i + 1) as nat))
}

/// The delta coding of a column of absolute values.
pub open spec fn differences(values: Seq<int>, start: int) -> Seq<int> {
    Seq::new(
        values.len(),
        |i: int| if i == 0 { values[0] - start } else { values[i] - values[i - 1] },
    )
}

/// A column of 64-bit values as mathematical integers.
pub open spec fn as_ints(column: Seq<i64>) -> Seq<int> {
    Seq::new(column.len(), |i: int| column[i] as int)
}

/// Whether every running sum of the column stays within 64 bits.
pub open spec fn sums_fit(deltas: Seq<i64>, start: i64) -> bool {
    forall|n: nat|
        1 <= n <= deltas.len() ==> i64::MIN <= #[trigger] running_sum(
            as_ints(deltas),
            start as int,
            n,
        ) <= i64::MAX
}

/// Accumulating the differences of a column gives the column back.
pub proof fn lemma_accumulate_differences(values: Seq<int>, start: int)
    ensures
        accumulate(differences(values, start), start) == values,
{
    let d = differences(values, start);
    assert forall|n: nat| 1 <= n <= values.len() implies running_sum(d, start, n) == values[n
        - 1] by {
        lemma_running_sum_of_differences(values, start, n);
    }
    assert(accumulate(d, start) =~= values);
}

proof fn lemma_running_sum_of_differences(values: Seq<int>, start: int, n: nat)
    requires
        1 <= n <= values.len(),
    ensures
        running_sum(differences(values, start), start, n) == values[n - 1],
    decreases n,
{
    let d = differences(values, start);
    if n > 1 {
        lemma_running_sum_of_differences(values, start, (n - 1) as nat);
        assert(running_sum(d, start, n) == running_sum(d, start, (n - 1) as nat) + d[n - 1]);
    } else {
        assert(running_sum(d, start, 0) == start);
        assert(running_sum(d, start, 1) == running_sum(d, start, 0) + d[0]);
    }
}

/// Taking the differences of an accumulated column gives the deltas back.
pub proof fn lemma_differences_accumulate(deltas: Seq<int>, start: int)
    ensures
        differences(accumulate(deltas, start), start) == deltas,
{
    let a = accumulate(deltas, start);
    assert forall|i: int| 0 <= i < deltas.len() implies differences(a, start)[i] == deltas[i] by {
        assert(running_sum(deltas, start, (i + 1) as nat) == running_sum(deltas, start, i as nat)
            + deltas[i]);
        if i == 0 {
            assert(running_sum(deltas, start, 0) == start);
        }
    }
    assert(differences(a, start) =~= deltas);
}

/// Whether every running sum of the column lies between `lo` and `hi`.
pub open spec fn sums_within(deltas: Seq<i64>, start: i64, lo: int, hi: int) -> bool {
    forall|n: nat|
        1 <= n <= deltas.len() ==> lo <= #[trigger] running_sum(
            as_ints(deltas),
            start as int,
            n,
        ) <= hi
}

/// The absolute values of a delta-coded column whose values must lie between
/// `lo` and `hi`, or the overflow error where one does not.
pub open spec fn spec_delta_decode(deltas: Seq<i64>, start: i64, lo: int, hi: int) -> Result<
    Seq<i64>,
    PbfError,
> {
    if sums_within(deltas, start, lo, hi) {
        Ok(
            Seq::new(
                deltas.len(),
                |i: int| running_sum(as_ints(deltas), start as int, (i + 1) as nat) as i64,
            ),
        )
    } else {
        Err(PbfError::Overflow)
    }
}

/// Reconstructs the absolute values of a delta-coded column whose values
/// must lie between `lo` and `hi`.
///
/// The accumulator starts at `start` and is carried from left to right. A sum
/// outside the bounds fails the whole column: nothing is truncated.
pub fn delta_decode_within(deltas: &[i64], start: i64, lo: i64, hi: i64) -> (r: Result<
    Vec<i64>,
    PbfError,
>)
    ensures
        match r {
            Ok(v) => spec_delta_decode(deltas@, start, lo as int, hi as int) == Ok::<
                Seq<i64>,
                PbfError,
            >(v@) && v@.len() == deltas@.len() && forall|k: int|
                0 <= k < v@.len() ==> lo <= #[trigger] v@[k] <= hi,
            Err(e) => spec_delta_decode(deltas@, start, lo as int, hi as int) == Err::<
                Seq<i64>,
                PbfError,
            >(e),
        },
{
    let mut out: Vec<i64> = Vec::new();
    let mut last: i64 = start;
    let mut i: usize = 0;
    while i < deltas.len()
        invariant
            i <= deltas.len(),
            out.len() == i,
            last as int == running_sum(as_ints(deltas@), start as int, i as nat),
            forall|k: int|
                0 <= k < i ==> out[k] as int == #[trigger] running_sum(
                    as_ints(deltas@),
                    start as int,
                    (k + 1) as nat,
                ),
            forall|k: int|
                0 <= k < i ==> lo <= #[trigger] running_sum(
                    as_ints(deltas@),
                    start as int,
                    (k + 1) as nat,
                ) <= hi,
        decreases deltas.len() - i,
    {
        let ghost sum = running_sum(as_ints(deltas@), start as int, (i + 1) as nat);
        assert(sum == last + deltas[i as int]);
        match last.checked_add(deltas[i]) {
            Some(next) => {
                if next < lo || next > hi {
                    assert(!(lo <= sum <= hi));
                    return Err(PbfError::Overflow);
                }
                last = next;
                out.push(next);
            },
            None => {
                assert(!(lo <= sum <= hi));
                return Err(PbfError::Overflow);
            },
        }
        i += 1;
    }
    assert forall|n: nat| 1 <= n <= deltas@.len() implies lo <= #[trigger] running_sum(
        as_ints(deltas@),
        start as int,
        n,
    ) <= hi by {
        assert(lo <= running_sum(as_ints(deltas@), start as int, ((n - 1) + 1) as nat) <= hi);
    }
    assert(out@ =~= Seq::new(
        deltas@.len(),
        |i: int| running_sum(as_ints(deltas@), start as int, (i + 1) as nat) as i64,
    ));
    Ok(out)
}

/// Reconstructs the absolute values of a delta-coded column of 64-bit values.
///
/// A sum that leaves the 64-bit range fails the whole column.
pub fn delta_decode(deltas: &[i64], start: i64) -> (r: Result<Vec<i64>, PbfError>)
    ensures
        r is Ok <==> sums_fit(deltas@, start),
        r matches Ok(v) ==> as_ints(v@) == accumulate(as_ints(deltas@), start as int),
        r matches Err(e) ==> e == PbfError::Overflow,
{
    let r = delta_decode_within(deltas, start, i64::MIN, i64::MAX);
    proof {
        if r is Ok {
            assert(as_ints(r->Ok_0@) =~= accumulate(as_ints(deltas@), start as int));
        }
    }
    r
}

/// The delta codec round trip: a column of 64-bit values whose differences,
/// taken from zero, are the given deltas is what decoding the deltas from
/// zero gives.
pub proof fn lemma_delta_round_trip(values: Seq<i64>, deltas: Seq<i64>)
    requires
        as_ints(deltas) == differences(as_ints(values), 0),
    ensures
        spec_delta_decode(deltas, 0, i64::MIN as int, i64::MAX as int) == Ok::<
            Seq<i64>,
            PbfError,
        >(values),
{
    lemma_accumulate_differences(as_ints(values), 0);
    let sums = accumulate(as_ints(deltas), 0);
    assert(sums == as_ints(values));
    assert(deltas.len() == values.len()) by {
        assert(as_ints(deltas).len() == deltas.len());
        assert(differences(as_ints(values), 0).len() == values.len());
    }
    assert forall|n: nat| 1 <= n <= deltas.len() implies i64::MIN <= #[trigger] running_sum(
        as_ints(deltas),
        0,
        n,
    ) <= i64::MAX by {
        assert(sums[n - 1] == running_sum(as_ints(deltas), 0, ((n - 1) + 1) as nat));
        assert(as_ints(values)[n - 1] == values[n - 1]);
    }
    assert forall|i: int| 0 <= i < values.len() implies running_sum(
        as_ints(deltas),
        0,
        (i + 1) as nat,
    ) as i64 == values[i] by {
        assert(sums[i] == running_sum(as_ints(deltas), 0, (i + 1) as nat));
        assert(as_ints(values)[i] == values[i]);
    }
    assert(Seq::new(
        deltas.len(),
        |i: int| running_sum(as_ints(deltas), 0, (i + 1) as nat) as i64,
    ) =~= values);
}

} // verus!
