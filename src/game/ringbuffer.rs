use vstd::arithmetic::div_mod::lemma_fundamental_div_mod_converse;
use vstd::prelude::*;

verus! {

/// A value below twice the modulus wraps by at most one subtraction.
pub(crate) proof fn lemma_mod_wrap_once(a: int, m: int)
    requires
        0 < m,
        0 <= a < 2 * m,
    ensures
        a % m == if a < m {
            a
        } else {
            a - m
        },
{
    if a < m {
        lemma_fundamental_div_mod_converse(a, m, 0, a);
    } else {
        lemma_fundamental_div_mod_converse(a, m, 1, a - m);
    }
}

/// A fixed-capacity FIFO queue over an inline array of `CAP` slots.
///
/// The live items run from `start_idx` forward (wrapping at `CAP`) up to, but
/// not including, `end_idx`. When the two indices meet, `empty` tells an
/// empty buffer from a full one.
#[derive(Debug)]
pub struct RingBuffer<T, const CAP: usize> where T: Default + Copy {
    pub data: [T; CAP],
    pub start_idx: usize,
    pub end_idx: usize,
    pub empty: bool,
}

/// Cursor over a ring buffer's items, oldest first.
#[derive(Debug)]
pub struct RingBufferIter<'a, T, const CAP: usize> where T: Default + Copy {
    pub buf: &'a RingBuffer<T, CAP>,
    pub idx: usize,
}

impl<T, const CAP: usize> RingBuffer<T, CAP> where T: Default + Copy {
    /// Indices are in range, and a buffer without slots stays empty.
    pub open spec fn wf(&self) -> bool {
        &&& CAP > 0 ==> self.start_idx < CAP && self.end_idx < CAP
        &&& CAP == 0 ==> self.start_idx == 0 && self.end_idx == 0 && self.empty
        &&& self.empty ==> self.start_idx == self.end_idx
    }

    /// Number of live items.
    pub open spec fn spec_len(&self) -> nat {
        if self.empty {
            0
        } else if self.start_idx < self.end_idx {
            (self.end_idx - self.start_idx) as nat
        } else {
            (CAP - self.start_idx + self.end_idx) as nat
        }
    }

    /// The live items in logical order: oldest first, newest last.
    pub open spec fn view(&self) -> Seq<T> {
        Seq::new(self.spec_len(), |i: int| self.data@[(self.start_idx + i) % (CAP as int)])
    }

    /// However pushes and pops were interleaved, a buffer never holds more
    /// than its capacity.
    pub proof fn lemma_len_within_capacity(&self)
        requires
            self.wf(),
        ensures
            self.view().len() <= CAP,
    {
    }

    fn inc_wrap(value: usize) -> (r: usize)
        requires
            value < CAP,
        ensures
            r == (value + 1) % (CAP as int),
    {
        Self::idx_offset(value, 1)
    }

    fn idx_offset(value1: usize, value2: usize) -> (r: usize)
        requires
            CAP > 0,
            value1 < CAP,
            value2 <= CAP,
        ensures
            r == (value1 + value2) % (CAP as int),
    {
        proof {
            lemma_mod_wrap_once(value1 + value2, CAP as int);
        }
        if value2 >= CAP - value1 {
            value2 - (CAP - value1)
        } else {
            value1 + value2
        }
    }

    pub fn new() -> (r: Self)
        ensures
            r.wf(),
            r.view() == Seq::<T>::empty(),
    {
        let data = [T::default(); CAP];
        let r = Self { data, start_idx: 0, end_idx: 0, empty: true };
        assert(r.view() =~= Seq::<T>::empty());
        r
    }

    /// Appends `value` at the back; a full buffer is left as it is.
    pub fn push(&mut self, value: T) -> (r: bool)
        requires
            old(self).wf(),
        ensures
            final(self).wf(),
            r == (old(self).view().len() < CAP),
            r ==> final(self).view() == old(self).view().push(value),
            !r ==> *final(self) == *old(self),
    {
        if self.end_idx == self.start_idx && !self.empty {
            false
        } else if CAP == 0 {
            false
        } else {
            let ghost old_view = self.view();
            self.data[self.end_idx] = value;
            self.end_idx = Self::inc_wrap(self.end_idx);
            self.empty = false;
            proof {
                let n = CAP as int;
                let s = self.start_idx as int;
                assert forall|i: int| 0 <= i <= old_view.len() implies #[trigger] ((s + i) % n) == (
                if s + i < n {
                    s + i
                } else {
                    s + i - n
                }) by {
                    lemma_mod_wrap_once(s + i, n);
                }
                lemma_mod_wrap_once(old(self).end_idx + 1, n);
            }
            assert(self.view() =~= old_view.push(value));
            true
        }
    }

    /// Removes and returns the oldest item, if any.
    pub fn pop(&mut self) -> (r: Option<T>)
        requires
            old(self).wf(),
        ensures
            final(self).wf(),
            old(self).view().len() == 0 ==> r is None && *final(self) == *old(self),
            old(self).view().len() > 0 ==> r == Some(old(self).view()[0])
                && final(self).view() == old(self).view().drop_first(),
    {
        if self.empty {
            None
        } else {
            let ghost old_view = self.view();
            let data = self.data[self.start_idx];
            self.start_idx = Self::inc_wrap(self.start_idx);
            if self.start_idx == self.end_idx {
                self.empty = true;
            }
            proof {
                let n = CAP as int;
                let s = old(self).start_idx as int;
                assert forall|i: int| 0 <= i <= old_view.len() implies #[trigger] ((s + i) % n) == (
                if s + i < n {
                    s + i
                } else {
                    s + i - n
                }) by {
                    lemma_mod_wrap_once(s + i, n);
                }
                let s1 = self.start_idx as int;
                assert forall|i: int| 0 <= i < old_view.len() - 1 implies #[trigger] ((s1 + i) % n)
                    == ((s + (i + 1)) % n) by {
                    lemma_mod_wrap_once(s1 + i, n);
                    lemma_mod_wrap_once(s + 1 + i, n);
                }
                assert(self.view().len() == old_view.len() - 1);
            }
            assert(self.view() =~= old_view.drop_first());
            Some(data)
        }
    }

    pub fn is_full(&self) -> (r: bool)
        requires
            self.wf(),
        ensures
            r == (self.view().len() == CAP),
    {
        self.len() == CAP
    }

    pub fn is_empty(&self) -> (r: bool)
        requires
            self.wf(),
        ensures
            r == (self.view().len() == 0),
    {
        self.empty
    }

    /// Drops every item; the slots keep their old contents.
    pub fn clear(&mut self)
        requires
            old(self).wf(),
        ensures
            final(self).wf(),
            final(self).view() == Seq::<T>::empty(),
    {
        self.start_idx = 0;
        self.end_idx = 0;
        self.empty = true;
        assert(self.view() =~= Seq::<T>::empty());
    }

    pub fn len(&self) -> (r: usize)
        requires
            self.wf(),
        ensures
            r == self.view().len(),
            r <= CAP,
    {
        if self.empty {
            0
        } else if self.start_idx == self.end_idx {
            CAP
        } else if self.start_idx < self.end_idx {
            self.end_idx - self.start_idx
        } else {
            CAP - (self.start_idx - self.end_idx)
        }
    }

    pub fn cap(&self) -> (r: usize)
        ensures
            r == CAP,
    {
        CAP
    }

    pub fn iter(&self) -> (r: RingBufferIter<'_, T, CAP>)
        ensures
            r.buf == self,
            r.idx == 0,
    {
        RingBufferIter { buf: self, idx: 0 }
    }

    /// The item at logical position `idx`, counting from the oldest.
    pub fn get(&self, idx: usize) -> (r: Option<&T>)
        requires
            self.wf(),
        ensures
            idx < self.view().len() ==> r is Some && *r.unwrap() == self.view()[idx as int],
            idx >= self.view().len() ==> r is None,
    {
        if idx < self.len() {
            let idx = Self::idx_offset(self.start_idx, idx);
            Some(&self.data[idx])
        } else {
            None
        }
    }

    pub fn peek_front(&self) -> (r: Option<&T>)
        requires
            self.wf(),
        ensures
            self.view().len() > 0 ==> r is Some && *r.unwrap() == self.view()[0],
            self.view().len() == 0 ==> r is None,
    {
        self.get(0)
    }

    pub fn peek_back(&self) -> (r: Option<&T>)
        requires
            self.wf(),
        ensures
            self.view().len() > 0 ==> r is Some && *r.unwrap() == self.view().last(),
            self.view().len() == 0 ==> r is None,
    {
        if !self.is_empty() {
            self.get(self.len() - 1)
        } else {
            None
        }
    }
}

impl<'a, T, const CAP: usize> RingBufferIter<'a, T, CAP> where T: Default + Copy {
    /// Hands out the next item and moves past it; `None` once all are seen.
    pub fn next(&mut self) -> (r: Option<&'a T>)
        requires
            old(self).buf.wf(),
        ensures
            final(self).buf == old(self).buf,
            old(self).idx < old(self).buf.view().len() ==> r is Some && *r.unwrap()
                == old(self).buf.view()[old(self).idx as int] && final(self).idx == old(self).idx
                + 1,
            old(self).idx >= old(self).buf.view().len() ==> r is None && final(self).idx == old(
                self,
            ).idx,
    {
        match self.buf.get(self.idx) {
            Some(value) => {
                self.idx = self.idx + 1;
                Some(value)
            },
            None => None,
        }
    }

    /// Items handed out so far, and how many are still to come.
    pub fn size_hint(&self) -> (r: (usize, Option<usize>))
        requires
            self.buf.wf(),
        ensures
            r.0 == self.idx,
            r.1 == Some(
                if self.buf.view().len() < self.idx {
                    0usize
                } else {
                    (self.buf.view().len() - self.idx) as usize
                },
            ),
    {
        let len = self.buf.len();
        (self.idx, Some(if len < self.idx { 0 } else { len - self.idx }))
    }
}

} // verus!
