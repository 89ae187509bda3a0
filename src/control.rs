//! Control-flow and comparison primitives over signal values.
use vstd::prelude::*;

verus! {

/// Selects `if_true` when `condition` holds, else `if_false`.
pub fn cond<T>(condition: bool, if_true: T, if_false: T) -> (out: T)
    ensures
        out == (if condition { if_true } else { if_false }),
{
    if condition {
        if_true
    } else {
        if_false
    }
}

/// `a > b` on integer signals.
pub fn gt(a: i64, b: i64) -> (out: bool)
    ensures
        out == (a > b),
{
    a > b
}

/// `a < b` on integer signals.
pub fn lt(a: i64, b: i64) -> (out: bool)
    ensures
        out == (a < b),
{
    a < b
}

/// `a >= b` on integer signals.
pub fn ge(a: i64, b: i64) -> (out: bool)
    ensures
        out == (a >= b),
{
    a >= b
}

/// `a <= b` on integer signals.
pub fn le(a: i64, b: i64) -> (out: bool)
    ensures
        out == (a <= b),
{
    a <= b
}

/// `a == b` on integer signals.
pub fn eq(a: i64, b: i64) -> (out: bool)
    ensures
        out == (a == b),
{
    a == b
}

/// `a != b` on integer signals.
pub fn ne(a: i64, b: i64) -> (out: bool)
    ensures
        out == (a != b),
{
    a != b
}

/// The larger of two integer signals (`b` when they are equal).
pub fn max(a: i64, b: i64) -> (out: i64)
    ensures
        out == (if a > b { a } else { b }),
        out >= a && out >= b,
{
    if a > b {
        a
    } else {
        b
    }
}

/// The smaller of two integer signals (`b` when they are equal).
pub fn min(a: i64, b: i64) -> (out: i64)
    ensures
        out == (if a < b { a } else { b }),
        out <= a && out <= b,
{
    if a < b {
        a
    } else {
        b
    }
}

/// Limits `a` to `[lo, hi]`: `lo` below it, `hi` above it.
pub fn clamp(a: i64, lo: i64, hi: i64) -> (out: i64)
    ensures
        out == (if a < lo { lo } else if a > hi { hi } else { a }),
        lo <= hi ==> lo <= out <= hi,
{
    if a < lo {
        lo
    } else if a > hi {
        hi
    } else {
        a
    }
}

/// Flips the held state on every trigger sample and outputs it.
pub fn toggle(state: &mut bool, trig: bool) -> (out: bool)
    ensures
        *final(state) == (if trig { !*old(state) } else { *old(state) }),
        out == *final(state),
{
    if trig {
        *state = !*state;
    }
    *state
}

/// A latch: `set` stores `input`, otherwise `clear` stores `empty` (the
/// signal kind's default); the stored value is output every sample.
pub fn register<T: Copy>(last_value: &mut T, input: T, set: bool, clear: bool, empty: T) -> (out: T)
    ensures
        *final(last_value) == (if set { input } else if clear { empty } else { *old(last_value) }),
        out == *final(last_value),
{
    if set {
        *last_value = input;
    } else if clear {
        *last_value = empty;
    }
    *last_value
}

/// Holds the input seen at the last trigger sample.
pub fn sample_and_hold<T: Copy>(last_value: &mut T, input: T, trig: bool) -> (out: T)
    ensures
        *final(last_value) == (if trig { input } else { *old(last_value) }),
        out == *final(last_value),
{
    if trig {
        *last_value = input;
    }
    *last_value
}

/// The value inside `a`, or `b` when there is none.
pub fn unwrap_or<T>(a: Option<T>, b: T) -> (out: T)
    ensures
        out == (match a {
            Some(v) => v,
            None => b,
        }),
{
    match a {
        Some(v) => v,
        None => b,
    }
}

/// Wraps a value as present.
pub fn some<T>(a: T) -> (out: Option<T>)
    ensures
        out == Some(a),
{
    Some(a)
}

/// Emits `message` on trigger samples and nothing otherwise.
pub fn message<T>(trig: bool, value: T) -> (out: Option<T>)
    ensures
        out == (if trig { Some(value) } else { None }),
{
    if trig {
        Some(value)
    } else {
        None
    }
}

} // verus!
