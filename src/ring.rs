//! The ring buffer behind the delay line and the allpass diffuser: a
//! grow-only circular store with one write position.
use vstd::prelude::*;

verus! {

/// A circular buffer of samples with a write position. It holds at least one
/// slot, and the write position is always a valid slot.
pub struct RingBuffer<T> {
    buf: Vec<T>,
    write_index: usize,
}

/// The contents `c`, with write position `w`, grown to `len` slots: the
/// `fill` slots go in at the write position. Contents already that long
/// stay as they are.
pub open spec fn grown<T>(c: Seq<T>, w: int, len: nat, fill: T) -> Seq<T> {
    if len <= c.len() {
        c
    } else {
        c.take(w) + Seq::new((len - c.len()) as nat, |_i: int| fill) + c.skip(w)
    }
}

proof fn lemma_grown_history<T>(c: Seq<T>, w: int, len: nat, fill: T)
    requires
        0 <= w < c.len(),
    ensures
        grown(c, w, len, fill).len() >= len,
        grown(c, w, len, fill).len() >= c.len(),
        forall|j: int|
            1 <= j <= c.len() ==> #[trigger] grown(c, w, len, fill)[(w - j) % (grown(
                c,
                w,
                len,
                fill,
            ).len() as int)] == c[(w - j) % (c.len() as int)],
{
    let g = grown(c, w, len, fill);
    let l = c.len() as int;
    let l2 = g.len() as int;
    assert forall|j: int| 1 <= j <= c.len() implies #[trigger] g[(w - j) % l2] == c[(w - j) % l] by {
        if j <= w {
            vstd::arithmetic::div_mod::lemma_small_mod((w - j) as nat, l as nat);
            vstd::arithmetic::div_mod::lemma_small_mod((w - j) as nat, l2 as nat);
        } else {
            vstd::arithmetic::div_mod::lemma_mod_add_multiples_vanish(w - j, l);
            vstd::arithmetic::div_mod::lemma_small_mod((l + w - j) as nat, l as nat);
            vstd::arithmetic::div_mod::lemma_mod_add_multiples_vanish(w - j, l2);
            vstd::arithmetic::div_mod::lemma_small_mod((l2 + w - j) as nat, l2 as nat);
        }
    }
}

impl<T: Copy> RingBuffer<T> {
    /// The stored samples, slot by slot.
    pub closed spec fn contents(&self) -> Seq<T> {
        self.buf@
    }

    /// The slot that the next write goes to.
    pub closed spec fn write_pos(&self) -> int {
        self.write_index as int
    }

    /// At least one slot, and the write position among them.
    pub closed spec fn wf(&self) -> bool {
        self.buf@.len() > 0 && self.write_index < self.buf@.len()
    }

    /// `len` slots holding `fill`, written from slot 0. A buffer asked for no
    /// slots gets one.
    pub fn new(len: usize, fill: T) -> (r: RingBuffer<T>)
        ensures
            r.wf(),
            r.write_pos() == 0,
            r.contents() == Seq::new(if len == 0 { 1 } else { len as nat }, |_i: int| fill),
    {
        let n: usize = if len == 0 {
            1
        } else {
            len
        };
        let mut buf: Vec<T> = Vec::new();
        let mut i: usize = 0;
        while i < n
            invariant
                i <= n,
                buf@ == Seq::new(i as nat, |_i: int| fill),
            decreases n - i,
        {
            buf.push(fill);
            i = i + 1;
            assert(buf@ =~= Seq::new(i as nat, |_i: int| fill));
        }
        RingBuffer { buf, write_index: 0 }
    }

    /// The number of slots.
    pub fn len(&self) -> (n: usize)
        requires
            self.wf(),
        ensures
            n == self.contents().len(),
            n > 0,
    {
        self.buf.len()
    }

    /// Makes room for a delay of `delay` whole samples plus `margin` slots
    /// for the interpolation kernel: when the buffer has fewer than
    /// `delay + margin` slots, it grows to exactly that many. It never
    /// shrinks. The new slots hold `fill` and are inserted at the write
    /// position, where the oldest samples are, so every stored sample stays
    /// the same number of slots behind the write position.
    pub fn ensure_delay(&mut self, delay: usize, margin: usize, fill: T)
        requires
            old(self).wf(),
            delay + margin <= usize::MAX,
        ensures
            final(self).wf(),
            final(self).write_pos() == old(self).write_pos(),
            final(self).contents() == grown(
                old(self).contents(),
                old(self).write_pos(),
                (delay + margin) as nat,
                fill,
            ),
            final(self).contents().len() >= delay + margin,
            final(self).contents().len() >= old(self).contents().len(),
            forall|j: int|
                1 <= j <= old(self).contents().len() ==> #[trigger] final(self).contents()[(old(
                    self).write_pos() - j) % (final(self).contents().len() as int)] == old(
                    self).contents()[(old(self).write_pos() - j) % (old(
                    self).contents().len() as int)],
    {
        let n = self.buf.len();
        let w = self.write_index;
        let ghost before = self.buf@;
        if delay + margin > n {
            let target = delay + margin;
            let mut nb: Vec<T> = Vec::new();
            let mut i: usize = 0;
            while i < w
                invariant
                    self.buf@ == before,
                    w < n,
                    n == before.len(),
                    i <= w,
                    nb@ == before.take(i as int),
                decreases w - i,
            {
                nb.push(self.buf[i]);
                i = i + 1;
                assert(nb@ =~= before.take(i as int));
            }
            let mut z: usize = n;
            while z < target
                invariant
                    n <= z <= target,
                    nb@ == before.take(w as int) + Seq::new((z - n) as nat, |_i: int| fill),
                decreases target - z,
            {
                nb.push(fill);
                z = z + 1;
                assert(nb@ =~= before.take(w as int) + Seq::new((z - n) as nat, |_i: int| fill));
            }
            let mut i: usize = w;
            while i < n
                invariant
                    self.buf@ == before,
                    w <= i <= n,
                    n == before.len(),
                    nb@ == before.take(w as int) + Seq::new((target - n) as nat, |_i: int| fill)
                        + before.subrange(w as int, i as int),
                decreases n - i,
            {
                nb.push(self.buf[i]);
                i = i + 1;
                assert(nb@ =~= before.take(w as int) + Seq::new(
                    (target - n) as nat,
                    |_i: int| fill,
                ) + before.subrange(w as int, i as int));
            }
            assert(before.subrange(w as int, n as int) =~= before.skip(w as int));
            self.buf = nb;
        }
        proof {
            lemma_grown_history(before, w as int, (delay + margin) as nat, fill);
        }
    }

    /// The four slots around slot `index` (taken modulo the length): the one
    /// before it, itself, and the two after it, each wrapping around.
    pub fn taps(&self, index: usize) -> (r: (T, T, T, T))
        requires
            self.wf(),
        ensures
            ({
                let c = self.contents();
                let n = c.len() as int;
                let i = index as int % n;
                r == (c[(i - 1) % n], c[i], c[(i + 1) % n], c[(i + 2) % n])
            }),
    {
        let n = self.buf.len();
        let i1 = index % n;
        let i0 = if i1 == 0 {
            n - 1
        } else {
            i1 - 1
        };
        let i2 = if i1 + 1 == n {
            0
        } else {
            i1 + 1
        };
        let i3 = if i2 + 1 == n {
            0
        } else {
            i2 + 1
        };
        proof {
            let ni = n as int;
            let ii = i1 as int;
            vstd::arithmetic::div_mod::lemma_mod_bound(index as int, ni);
            if ii == 0 {
                vstd::arithmetic::div_mod::lemma_mod_add_multiples_vanish(-1, ni);
                vstd::arithmetic::div_mod::lemma_small_mod((ni - 1) as nat, ni as nat);
            } else {
                vstd::arithmetic::div_mod::lemma_small_mod((ii - 1) as nat, ni as nat);
            }
            if ii + 1 == ni {
                vstd::arithmetic::div_mod::lemma_mod_self_0(ni);
            } else {
                vstd::arithmetic::div_mod::lemma_small_mod((ii + 1) as nat, ni as nat);
            }
            if ii + 2 == ni {
                vstd::arithmetic::div_mod::lemma_mod_self_0(ni);
            } else if ii + 2 == ni + 1 {
                vstd::arithmetic::div_mod::lemma_mod_add_multiples_vanish(1, ni);
                if ni > 1 {
                    vstd::arithmetic::div_mod::lemma_small_mod(1, ni as nat);
                } else {
                    assert(2int % 1int == 0);
                }
            } else {
                vstd::arithmetic::div_mod::lemma_small_mod((ii + 2) as nat, ni as nat);
            }
        }
        (self.buf[i0], self.buf[i1], self.buf[i2], self.buf[i3])
    }

    /// The slot that the next write goes to.
    pub fn write_index(&self) -> (w: usize)
        requires
            self.wf(),
        ensures
            w == self.write_pos(),
            w < self.contents().len(),
    {
        self.write_index
    }

    /// The sample in the slot that the next write goes to, which is the
    /// oldest one stored.
    pub fn current(&self) -> (v: T)
        requires
            self.wf(),
        ensures
            v == self.contents()[self.write_pos()],
    {
        self.buf[self.write_index]
    }

    /// Stores `value` at the write position and moves the write position on
    /// by one slot, wrapping around.
    pub fn write_advance(&mut self, value: T)
        requires
            old(self).wf(),
        ensures
            final(self).wf(),
            final(self).contents() == old(self).contents().update(old(self).write_pos(), value),
            final(self).write_pos() == (old(self).write_pos() + 1) % (old(self).contents().len() as int),
    {
        let w = self.write_index;
        assert(w < self.buf@.len());
        self.buf.set(w, value);
        self.write_index = if w == self.buf.len() - 1 {
            0
        } else {
            w + 1
        };
        proof {
            let n = self.buf@.len() as int;
            if w + 1 == n {
                vstd::arithmetic::div_mod::lemma_mod_self_0(n);
            } else {
                vstd::arithmetic::div_mod::lemma_small_mod((w + 1) as nat, n as nat);
            }
        }
    }
}

} // verus!
