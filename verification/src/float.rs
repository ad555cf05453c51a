//! 32-bit floats as bit patterns.
//!
//! The formats of this crate hold IEEE-754 single precision floats. This
//! crate moves them from and to bytes without change and therefore holds
//! each as the `u32` of its bits: one sign bit, eight bits of exponent and 23
//! bits of fraction. What it has to know of floats is stated here on the
//! bits.

use vstd::prelude::*;

verus! {

/// Exponent and fraction of a float: its bits without the sign.
pub open spec fn magnitude(bits: u32) -> int {
    bits as int % 0x8000_0000
}

/// Whether the float is a NaN: its exponent is all ones and its fraction is
/// not zero.
pub open spec fn is_nan(bits: u32) -> bool {
    magnitude(bits) > 0x7f80_0000
}

/// Whether two floats are equal as `==` on floats has it: neither is a NaN,
/// and they have the same bits or are both zero, of whatever sign.
pub open spec fn float_eq(a: u32, b: u32) -> bool {
    !is_nan(a) && !is_nan(b) && (a == b || (magnitude(a) == 0 && magnitude(b) == 0))
}

/// Whether two floats are equal as `==` on floats has it.
pub fn floats_equal(a: u32, b: u32) -> (equal: bool)
    ensures
        equal == float_eq(a, b),
{
    let ma = a % 0x8000_0000;
    let mb = b % 0x8000_0000;
    ma <= 0x7f80_0000 && mb <= 0x7f80_0000 && (a == b || (ma == 0 && mb == 0))
}

/// The place of a float in the order of the floats, for a float that is no
/// NaN: its magnitude, taken as negative where the sign bit is set. Both
/// zeros have the place 0.
pub open spec fn order_key(bits: u32) -> int {
    if bits >= 0x8000_0000 {
        -magnitude(bits)
    } else {
        magnitude(bits)
    }
}

/// Whether `a < b` as `<` on floats has it: neither is a NaN, and `a` comes
/// before `b` in the order of the floats.
pub open spec fn float_lt(a: u32, b: u32) -> bool {
    !is_nan(a) && !is_nan(b) && order_key(a) < order_key(b)
}

/// Whether the float is a NaN.
pub fn float_is_nan(bits: u32) -> (nan: bool)
    ensures
        nan == is_nan(bits),
{
    bits % 0x8000_0000 > 0x7f80_0000
}

/// The place of a float in the order of the floats.
fn key(bits: u32) -> (k: i64)
    ensures
        k == order_key(bits),
{
    if bits >= 0x8000_0000 {
        -((bits % 0x8000_0000) as i64)
    } else {
        bits as i64
    }
}

/// Whether `a < b` as `<` on floats has it.
pub fn float_less(a: u32, b: u32) -> (less: bool)
    ensures
        less == float_lt(a, b),
{
    !float_is_nan(a) && !float_is_nan(b) && key(a) < key(b)
}

/// Whether `values[i]` is the least of the floats in `values` that are no
/// NaN, and the first of them where several are equal.
pub open spec fn first_least(values: Seq<u32>, i: int) -> bool {
    &&& 0 <= i < values.len()
    &&& !is_nan(values[i])
    &&& forall|j: int|
        0 <= j < values.len() && !is_nan(#[trigger] values[j]) ==> order_key(values[j])
            >= order_key(values[i]) && (j < i ==> order_key(values[j]) > order_key(values[i]))
}

/// Whether `values[i]` is the greatest of the floats in `values` that are no
/// NaN, and the first of them where several are equal.
pub open spec fn first_greatest(values: Seq<u32>, i: int) -> bool {
    &&& 0 <= i < values.len()
    &&& !is_nan(values[i])
    &&& forall|j: int|
        0 <= j < values.len() && !is_nan(#[trigger] values[j]) ==> order_key(values[j])
            <= order_key(values[i]) && (j < i ==> order_key(values[j]) < order_key(values[i]))
}

/// Whether no float in `values` is a NaN.
pub open spec fn no_nan(values: Seq<u32>) -> bool {
    forall|i: int| 0 <= i < values.len() ==> !is_nan(#[trigger] values[i])
}

/// Whether `range` holds the least and the greatest of the floats in `values`
/// that are no NaN, each with the bits of its first occurrence.
pub open spec fn is_min_max(values: Seq<u32>, range: (u32, u32)) -> bool {
    &&& exists|i: int| first_least(values, i) && values[i] == range.0
    &&& exists|i: int| first_greatest(values, i) && values[i] == range.1
}

/// The least and the greatest of the floats `values[first]`, `values[first +
/// step]` and so on that are no NaN.
pub(crate) fn min_max_strided(values: &[u32], first: usize, step: usize) -> (range: (u32, u32))
    requires
        step > 0,
        first < step,
        (values@.len() as int) % (step as int) == 0,
        exists|k: int|
            0 <= k < (values@.len() as int) / (step as int) && !is_nan(
                #[trigger] strided(values@, first as int, step as int)[k],
            ),
    ensures
        is_min_max(strided(values@, first as int, step as int), range),
{
    let ghost column = strided(values@, first as int, step as int);
    let n = values.len() / step;
    assert(n * step == values@.len()) by (nonlinear_arith)
        requires
            n == (values@.len() as int) / (step as int),
            (values@.len() as int) % (step as int) == 0,
            step > 0,
    ;
    let mut k: usize = 0;
    loop
        invariant_except_break
            k < n,
            forall|j: int| 0 <= j < k ==> is_nan(#[trigger] column[j]),
        invariant
            column == strided(values@, first as int, step as int),
            column.len() == n,
            n * step == values@.len(),
            values@.len() <= usize::MAX,
            step > 0,
            first < step,
            exists|j: int| 0 <= j < n && !is_nan(#[trigger] column[j]),
        ensures
            k < n,
            !is_nan(column[k as int]),
            forall|j: int| 0 <= j < k ==> is_nan(#[trigger] column[j]),
        decreases n - k,
    {
        assert(0 <= k * step && k * step + first < n * step) by (nonlinear_arith)
            requires
                k < n,
                first < step,
        ;
        if !float_is_nan(values[k * step + first]) {
            break ;
        }
        proof {
            let j = choose|j: int| 0 <= j < n && !is_nan(#[trigger] column[j]);
            assert(j != k);
            assert(k + 1 < n);
        }
        k = k + 1;
    }
    assert(0 <= k * step && k * step + first < n * step) by (nonlinear_arith)
        requires
            k < n,
            first < step,
    ;
    let mut min = values[k * step + first];
    let mut max = min;
    let ghost mut at_min: int = k as int;
    let ghost mut at_max: int = k as int;
    k = k + 1;
    while k < n
        invariant
            column == strided(values@, first as int, step as int),
            column.len() == n,
            n * step == values@.len(),
            values@.len() <= usize::MAX,
            step > 0,
            first < step,
            k <= n,
            0 <= at_min < k,
            0 <= at_max < k,
            min == column[at_min],
            max == column[at_max],
            first_least(column.take(k as int), at_min),
            first_greatest(column.take(k as int), at_max),
        decreases n - k,
    {
        assert(0 <= k * step && k * step + first < n * step) by (nonlinear_arith)
            requires
                k < n,
                first < step,
        ;
        let value = values[k * step + first];
        assert(value == column[k as int]);
        let ghost before = column.take(k as int);
        let ghost now = column.take(k + 1);
        assert(forall|j: int| 0 <= j < k ==> now[j] == before[j]);
        assert(now[k as int] == value);
        if float_less(value, min) {
            min = value;
            proof {
                assert(order_key(before[at_max]) >= order_key(before[at_min]));
                at_min = k as int;
            }
        } else if float_less(max, value) {
            max = value;
            proof {
                at_max = k as int;
            }
        }
        assert(first_least(now, at_min)) by {
            assert forall|j: int| 0 <= j < now.len() && !is_nan(#[trigger] now[j]) implies order_key(
                now[j],
            ) >= order_key(now[at_min]) && (j < at_min ==> order_key(now[j]) > order_key(
                now[at_min],
            )) by {
                if j < k {
                    assert(!is_nan(before[j]));
                }
            }
        }
        assert(first_greatest(now, at_max)) by {
            assert forall|j: int| 0 <= j < now.len() && !is_nan(#[trigger] now[j]) implies order_key(
                now[j],
            ) <= order_key(now[at_max]) && (j < at_max ==> order_key(now[j]) < order_key(
                now[at_max],
            )) by {
                if j < k {
                    assert(!is_nan(before[j]));
                }
            }
        }
        k = k + 1;
    }
    assert(column.take(n as int) =~= column);
    (min, max)
}

/// Every `step`-th float of `values`, from `values[first]` on.
pub open spec fn strided(values: Seq<u32>, first: int, step: int) -> Seq<u32> {
    Seq::new(((values.len() as int) / step) as nat, |k: int| values[k * step + first])
}

} // verus!
