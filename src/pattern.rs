//! Pattern sequencers: a step list read at a cursor that advances on
//! trigger samples, and the parser of the textual step descriptor.
use vstd::prelude::*;
use vstd::string::StringSliceAdditionalSpecFns;

verus! {

/// ASCII whitespace as `str::split_ascii_whitespace` understands it.
pub open spec fn is_space(c: u8) -> bool {
    c == 0x20u8 || c == 0x09u8 || c == 0x0au8 || c == 0x0cu8 || c == 0x0du8
}

/// The `(start, end)` byte ranges of the whitespace-separated words of `b`,
/// left to right.
pub open spec fn word_spans(b: Seq<u8>) -> Seq<(int, int)>
    decreases b.len(),
{
    if b.len() == 0 {
        Seq::empty()
    } else {
        let p = b.drop_last();
        let i = b.len() - 1;
        let s = word_spans(p);
        if is_space(b[i]) {
            s
        } else if i > 0 && !is_space(b[i - 1]) {
            s.update(s.len() - 1, (s.last().0, b.len() as int))
        } else {
            s.push((i, b.len() as int))
        }
    }
}

/// A word is a rest step exactly when it is a single `.`.
pub open spec fn is_rest(b: Seq<u8>, span: (int, int)) -> bool {
    span.1 - span.0 == 1 && b[span.0] == 0x2eu8
}

/// The boolean steps that descriptor `b` denotes: one per word, false for `.`.
pub open spec fn bool_steps(b: Seq<u8>) -> Seq<bool> {
    word_spans(b).map_values(|span: (int, int)| !is_rest(b, span))
}

/// The cursor position that index `index` reads in a list of `len` steps:
/// a negative index counts from the end.
pub open spec fn resolve(index: int, len: int) -> int {
    index % len
}

/// The cursor after one trigger pulse.
pub open spec fn next_cursor(cursor: int, len: int) -> int {
    (cursor + 1) % len
}

/// The cursor after `n` trigger pulses.
pub open spec fn cursor_after(cursor: int, len: int, n: nat) -> int
    decreases n,
{
    if n == 0 {
        cursor
    } else {
        next_cursor(cursor_after(cursor, len, (n - 1) as nat), len)
    }
}

proof fn lemma_word_spans_last(b: Seq<u8>)
    requires
        b.len() > 0,
        !is_space(b.last()),
    ensures
        word_spans(b).len() > 0,
        word_spans(b).last().1 == b.len(),
    decreases b.len(),
{
    let p = b.drop_last();
    let i = b.len() - 1;
    if i > 0 && !is_space(b[i - 1]) {
        assert(p.last() == b[i - 1]);
        lemma_word_spans_last(p);
    }
}

proof fn lemma_cursor_after(cursor: int, len: int, n: nat)
    requires
        len > 0,
        0 <= cursor < len,
    ensures
        cursor_after(cursor, len, n) == (cursor + n) % len,
    decreases n,
{
    if n > 0 {
        lemma_cursor_after(cursor, len, (n - 1) as nat);
        let c = cursor + n - 1;
        assert(cursor_after(cursor, len, n) == next_cursor(cursor_after(cursor, len, (n - 1) as nat), len));
        vstd::arithmetic::div_mod::lemma_add_mod_noop(c, 1, len);
        vstd::arithmetic::div_mod::lemma_mod_twice(c, len);
        vstd::arithmetic::div_mod::lemma_add_mod_noop(c % len, 1, len);
        assert(((c % len) + 1) % len == (c + 1) % len);
        assert(c + 1 == cursor + n);
    } else {
        vstd::arithmetic::div_mod::lemma_small_mod(cursor as nat, len as nat);
    }
}

proof fn lemma_negative_resolve(k: int, len: int)
    requires
        k >= 0,
        len > 0,
    ensures
        resolve(-(k + 1), len) == len - 1 - k % len,
        0 <= k % len < len,
{
    let q = k / len;
    let r = k % len;
    vstd::arithmetic::div_mod::lemma_fundamental_div_mod(k, len);
    vstd::arithmetic::div_mod::lemma_mod_bound(k, len);
    assert(-(k + 1) == len * (-q - 1) + (len - 1 - r)) by (nonlinear_arith)
        requires
            k == len * q + r,
    ;
    vstd::arithmetic::div_mod::lemma_mod_multiples_vanish(-q - 1, len - 1 - r, len);
    vstd::arithmetic::div_mod::lemma_small_mod((len - 1 - r) as nat, len as nat);
}

/// A cursor over a pattern of `len` steps is back where it started after
/// `len` trigger pulses.
pub proof fn lemma_cursor_period(cursor: int, len: int)
    requires
        len > 0,
        0 <= cursor < len,
    ensures
        cursor_after(cursor, len, len as nat) == cursor,
{
    lemma_cursor_after(cursor, len, len as nat);
    vstd::arithmetic::div_mod::lemma_mod_add_multiples_vanish(cursor, len);
    vstd::arithmetic::div_mod::lemma_small_mod(cursor as nat, len as nat);
}

/// Index `-1` reads the last step of a non-empty pattern.
pub proof fn lemma_minus_one_is_last(len: int)
    requires
        len > 0,
    ensures
        resolve(-1, len) == len - 1,
{
    vstd::arithmetic::div_mod::lemma_mod_add_multiples_vanish(-1, len);
    vstd::arithmetic::div_mod::lemma_small_mod((len - 1) as nat, len as nat);
}

/// The byte ranges of the whitespace-separated words of `s`.
pub fn word_spans_of(s: &str) -> (r: Vec<(usize, usize)>)
    ensures
        r@.len() == word_spans(s.spec_bytes()).len(),
        forall|k: int|
            0 <= k < r@.len() ==> (#[trigger] r@[k]).0 as int == word_spans(s.spec_bytes())[k].0
                && r@[k].1 as int == word_spans(s.spec_bytes())[k].1,
{
    let b = s.as_bytes();
    let ghost bs = s.spec_bytes();
    let mut r: Vec<(usize, usize)> = Vec::new();
    let mut i: usize = 0;
    while i < b.len()
        invariant
            b@ == bs,
            bs == s.spec_bytes(),
            i <= b@.len(),
            r@.len() == word_spans(bs.take(i as int)).len(),
            forall|k: int|
                0 <= k < r@.len() ==> (#[trigger] r@[k]).0 as int == word_spans(
                    bs.take(i as int),
                )[k].0 && r@[k].1 as int == word_spans(bs.take(i as int))[k].1,
        decreases b@.len() - i,
    {
        let c = b[i];
        let ghost p = bs.take(i as int);
        let ghost q = bs.take(i as int + 1);
        assert(q.drop_last() =~= p);
        assert(q[i as int] == c);
        if c == 0x20u8 || c == 0x09u8 || c == 0x0au8 || c == 0x0cu8 || c == 0x0du8 {
        } else if i > 0 && !(b[i - 1] == 0x20u8 || b[i - 1] == 0x09u8 || b[i - 1] == 0x0au8
            || b[i - 1] == 0x0cu8 || b[i - 1] == 0x0du8) {
            proof {
                assert(p.last() == bs[i - 1]);
                lemma_word_spans_last(p);
            }
            let last = r.len() - 1;
            let start = r[last].0;
            r.set(last, (start, i + 1));
        } else {
            r.push((i, i + 1));
        }
        i = i + 1;
    }
    assert(bs.take(b@.len() as int) =~= bs);
    r
}

/// Parses a step descriptor: one step per whitespace-separated word, `.`
/// a rest (false) and any other word an active step (true).
pub fn parse_bool_pattern(s: &str) -> (r: Vec<bool>)
    ensures
        r@ == bool_steps(s.spec_bytes()),
{
    let b = s.as_bytes();
    let spans = word_spans_of(s);
    let ghost bs = s.spec_bytes();
    let ghost ws = word_spans(bs);
    let mut r: Vec<bool> = Vec::new();
    let mut k: usize = 0;
    while k < spans.len()
        invariant
            b@ == bs,
            bs == s.spec_bytes(),
            ws == word_spans(bs),
            spans@.len() == ws.len(),
            forall|j: int|
                0 <= j < spans@.len() ==> (#[trigger] spans@[j]).0 as int == ws[j].0
                    && spans@[j].1 as int == ws[j].1,
            k <= spans@.len(),
            r@ =~= bool_steps(bs).take(k as int),
        decreases spans@.len() - k,
    {
        let (start, end) = spans[k];
        proof {
            lemma_spans_in_range(bs, k as int);
        }
        let rest = end - start == 1 && b[start] == 0x2eu8;
        r.push(!rest);
        k = k + 1;
        assert(r@ =~= bool_steps(bs).take(k as int));
    }
    assert(bool_steps(bs).take(k as int) =~= bool_steps(bs));
    r
}

proof fn lemma_spans_in_range(b: Seq<u8>, k: int)
    requires
        0 <= k < word_spans(b).len(),
    ensures
        0 <= word_spans(b)[k].0 < word_spans(b)[k].1 <= b.len(),
    decreases b.len(),
{
    let p = b.drop_last();
    let i = b.len() - 1;
    let s = word_spans(p);
    if b.len() > 0 {
        if is_space(b[i]) {
            lemma_spans_in_range(p, k);
        } else if i > 0 && !is_space(b[i - 1]) {
            assert(p.last() == b[i - 1]);
            lemma_word_spans_last(p);
            lemma_spans_in_range(p, k);
        } else if k < s.len() {
            lemma_spans_in_range(p, k);
        }
    }
}

/// One sample of a boolean sequencer over `steps`. On a trigger sample it
/// outputs the step under the cursor and moves the cursor on by one, modulo
/// the length; otherwise it outputs false. The second result is the cursor
/// as it was before the sample. An empty pattern outputs false and leaves
/// the cursor alone.
pub fn bool_pattern_steps(index_state: &mut usize, trig: bool, steps: &Vec<bool>) -> (r: (
    bool,
    usize,
))
    ensures
        r.1 == *old(index_state),
        steps@.len() == 0 ==> !r.0 && *final(index_state) == *old(index_state),
        steps@.len() > 0 ==> {
            let pos = resolve(*old(index_state) as int, steps@.len() as int);
            &&& r.0 == (trig && steps@[pos])
            &&& *final(index_state) as int == (if trig {
                next_cursor(pos, steps@.len() as int)
            } else {
                *old(index_state) as int
            })
        },
{
    let index = *index_state;
    let len = steps.len();
    if len == 0 {
        return (false, index);
    }
    if trig {
        let pos = index % len;
        let out = steps[pos];
        *index_state = (pos + 1) % len;
        (out, index)
    } else {
        (false, index)
    }
}

/// One sample of a boolean sequencer whose steps are given by the textual
/// descriptor `pattern` (see `parse_bool_pattern`).
pub fn bool_pattern(index_state: &mut usize, trig: bool, pattern: &str) -> (r: (bool, usize))
    ensures
        r.1 == *old(index_state),
        bool_steps(pattern.spec_bytes()).len() == 0 ==> !r.0 && *final(index_state) == *old(
            index_state,
        ),
        bool_steps(pattern.spec_bytes()).len() > 0 ==> {
            let steps = bool_steps(pattern.spec_bytes());
            let pos = resolve(*old(index_state) as int, steps.len() as int);
            &&& r.0 == (trig && steps[pos])
            &&& *final(index_state) as int == (if trig {
                next_cursor(pos, steps.len() as int)
            } else {
                *old(index_state) as int
            })
        },
{
    let steps = parse_bool_pattern(pattern);
    bool_pattern_steps(index_state, trig, &steps)
}

/// `x` modulo `len` with the sign of `x`, as the `%` of signed machine
/// integers computes it.
pub open spec fn trunc_rem(x: int, len: int) -> int {
    if x >= 0 {
        x % len
    } else {
        -((-x) % len)
    }
}

/// The signed cursor after one trigger pulse: one on, taken with the
/// remainder of `trunc_rem`, so that a negative cursor counts up towards 0.
pub open spec fn signed_next(index: int, len: int) -> int {
    trunc_rem(index + 1, len)
}

/// The signed cursor after `n` trigger pulses.
pub open spec fn signed_after(index: int, len: int, n: nat) -> int
    decreases n,
{
    if n == 0 {
        index
    } else {
        signed_next(signed_after(index, len, (n - 1) as nat), len)
    }
}

proof fn lemma_signed_next(index: int, len: int)
    requires
        len > 0,
        -len <= index < len,
    ensures
        -len <= signed_next(index, len) < len,
        resolve(signed_next(index, len), len) == next_cursor(resolve(index, len), len),
{
    if index >= 0 {
        vstd::arithmetic::div_mod::lemma_mod_bound(index + 1, len);
        vstd::arithmetic::div_mod::lemma_mod_twice(index + 1, len);
        vstd::arithmetic::div_mod::lemma_small_mod(index as nat, len as nat);
    } else {
        vstd::arithmetic::div_mod::lemma_small_mod((-(index + 1)) as nat, len as nat);
        vstd::arithmetic::div_mod::lemma_mod_add_multiples_vanish(index, len);
        vstd::arithmetic::div_mod::lemma_small_mod((len + index) as nat, len as nat);
        vstd::arithmetic::div_mod::lemma_mod_add_multiples_vanish(index + 1, len);
        assert(len + index + 1 == len + (index + 1));
    }
}

proof fn lemma_signed_after(index: int, len: int, n: nat)
    requires
        len > 0,
        -len <= index < len,
    ensures
        -len <= signed_after(index, len, n) < len,
        resolve(signed_after(index, len, n), len) == cursor_after(resolve(index, len), len, n),
    decreases n,
{
    if n > 0 {
        lemma_signed_after(index, len, (n - 1) as nat);
        lemma_signed_next(signed_after(index, len, (n - 1) as nat), len);
    }
}

/// A signed cursor within `[-len, len)` over a pattern of `len` steps reads
/// the same step again after `len` trigger pulses.
pub proof fn lemma_signed_cursor_period(index: int, len: int)
    requires
        len > 0,
        -len <= index < len,
    ensures
        resolve(signed_after(index, len, len as nat), len) == resolve(index, len),
{
    lemma_signed_after(index, len, len as nat);
    vstd::arithmetic::div_mod::lemma_mod_bound(index, len);
    lemma_cursor_period(resolve(index, len), len);
}

/// One sample of a sequencer with a signed cursor. Every sample outputs the
/// step that the cursor reads (a negative cursor counts from the end); a
/// trigger sample then moves the cursor one on, taking the remainder by the
/// length with the sign of the cursor (so `-1` goes to `0`). The second
/// result is the cursor as it was before the sample. An empty pattern
/// outputs nothing and leaves the cursor alone.
pub fn pattern<T: Copy>(index_state: &mut isize, trig: bool, steps: &Vec<T>) -> (r: (
    Option<T>,
    isize,
))
    requires
        steps@.len() <= isize::MAX,
    ensures
        r.1 == *old(index_state),
        steps@.len() == 0 ==> r.0 == None::<T> && *final(index_state) == *old(index_state),
        steps@.len() > 0 ==> {
            let pos = resolve(*old(index_state) as int, steps@.len() as int);
            &&& r.0 == Some(steps@[pos])
            &&& *final(index_state) as int == (if trig {
                signed_next(*old(index_state) as int, steps@.len() as int)
            } else {
                *old(index_state) as int
            })
        },
{
    let index = *index_state;
    let len = steps.len();
    if len == 0 {
        return (None, index);
    }
    let pos: usize = if index >= 0 {
        index as usize % len
    } else {
        let k = (-(index + 1)) as usize;
        proof {
            lemma_negative_resolve(k as int, len as int);
        }
        len - 1 - k % len
    };
    assert(pos as int == resolve(index as int, len as int));
    let out = steps[pos];
    if trig {
        if index >= 0 {
            proof {
                vstd::arithmetic::div_mod::lemma_add_mod_noop(index as int, 1, len as int);
                vstd::arithmetic::div_mod::lemma_add_mod_noop(pos as int, 1, len as int);
                vstd::arithmetic::div_mod::lemma_mod_twice(index as int, len as int);
            }
            *index_state = ((pos + 1) % len) as isize;
            assert(*index_state as int == trunc_rem(index as int + 1, len as int));
        } else {
            let a = (-(index + 1)) as usize;
            proof {
                vstd::arithmetic::div_mod::lemma_small_mod(0, len as nat);
                vstd::arithmetic::div_mod::lemma_mod_bound(a as int, len as int);
            }
            *index_state = -((a % len) as isize);
            assert(*index_state as int == trunc_rem(index as int + 1, len as int));
        }
    }
    (Some(out), index)
}

} // verus!
